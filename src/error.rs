use vstd::prelude::*;

use crate::token::{TokenKey, TokenKeyView};

verus! {

/// The failures that the service reports to its callers.
#[derive(Debug)]
pub enum ServiceError {
    /// No row with this id.
    NotFound(u64),
    /// No token under this key (absent, expired or already consumed).
    TokenNotFound(TokenKey),
    /// No user with this email, or a reset token that does not match.
    UserNotFound(String),
    /// Wrong pin or wrong password.
    Unauthorized,
    /// An empty or missing required field.
    InvalidArgument,
    /// A stored token that cannot be decoded.
    InvalidFormat,
    /// A mutation that affected no row.
    QueryExecutionFailure,
    /// The key-value backend failed.
    StoreFailure,
}

/// The mathematical value of a `ServiceError`.
pub enum ErrorView {
    NotFound(u64),
    TokenNotFound(TokenKeyView),
    UserNotFound(Seq<char>),
    Unauthorized,
    InvalidArgument,
    InvalidFormat,
    QueryExecutionFailure,
    StoreFailure,
}

impl View for ServiceError {
    type V = ErrorView;

    open spec fn view(&self) -> ErrorView {
        match self {
            ServiceError::NotFound(id) => ErrorView::NotFound(*id),
            ServiceError::TokenNotFound(k) => ErrorView::TokenNotFound(k@),
            ServiceError::UserNotFound(e) => ErrorView::UserNotFound(e@),
            ServiceError::Unauthorized => ErrorView::Unauthorized,
            ServiceError::InvalidArgument => ErrorView::InvalidArgument,
            ServiceError::InvalidFormat => ErrorView::InvalidFormat,
            ServiceError::QueryExecutionFailure => ErrorView::QueryExecutionFailure,
            ServiceError::StoreFailure => ErrorView::StoreFailure,
        }
    }
}

/// The view of a result whose success value is plain.
pub open spec fn result_view<T>(r: Result<T, ServiceError>) -> Result<T, ErrorView> {
    match r {
        Ok(v) => Ok(v),
        Err(e) => Err(e@),
    }
}

/// The transport status that each error kind maps to.
pub open spec fn status_of(e: ErrorView) -> u16 {
    match e {
        ErrorView::NotFound(_) => 404,
        ErrorView::TokenNotFound(_) => 404,
        ErrorView::Unauthorized => 401,
        _ => 500,
    }
}

impl ServiceError {
    /// The transport status for this error.
    pub fn status_code(&self) -> (r: u16)
        ensures
            r == status_of(self@),
    {
        match self {
            ServiceError::NotFound(_) => 404,
            ServiceError::TokenNotFound(_) => 404,
            ServiceError::Unauthorized => 401,
            _ => 500,
        }
    }
}

} // verus!
