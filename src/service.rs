use vstd::prelude::*;

use crate::error::{result_view, ErrorView, ServiceError};
use crate::password::{hash_of, hash_password, verify_password};
use crate::text::{blank, is_blank};
use crate::token::{
    decode_password, decode_sign_up, is_live, PasswordToken, PasswordTokenView, SignUpToken,
    SignUpTokenView, StoredToken, TokenKey, TokenKeyView, TokenStore,
};
use crate::clock::now_timestamp;
use crate::user::{
    dto_of, has_email, has_id, is_new_row, is_patched, opt_text, removed_row, UserDTO,
    UserKeyStore, UserKeyView, UserStore, UserTable, UserView,
};

verus! {

/// The state of the service: the token store, the user table and the key
/// bindings.
pub struct ServiceView {
    pub tokens: Map<TokenKeyView, StoredToken>,
    pub users: UserTable,
    pub keys: Seq<UserKeyView>,
}

/// The credentials of a login request.
#[derive(Debug)]
pub struct LoginArgs {
    pub email: String,
    pub password: String,
}

/// What a session remembers of a logged-in user.
#[derive(Debug)]
pub struct UserSessionDTO {
    pub user_id: u64,
    pub user_email: String,
    pub user_name: String,
}

pub struct UserSessionView {
    pub user_id: u64,
    pub user_email: Seq<char>,
    pub user_name: Seq<char>,
}

impl View for UserSessionDTO {
    type V = UserSessionView;

    open spec fn view(&self) -> UserSessionView {
        UserSessionView { user_id: self.user_id, user_email: self.user_email@, user_name: self.user_name@ }
    }
}

/// The user service over its stores.
pub struct UserService {
    pub tokens: TokenStore,
    pub users: UserStore,
    pub keys: UserKeyStore,
}

impl View for UserService {
    type V = ServiceView;

    open spec fn view(&self) -> ServiceView {
        ServiceView { tokens: self.tokens@, users: self.users@, keys: self.keys@ }
    }
}

/// The view of an optional decoded sign-up token.
pub open spec fn sign_up_view(t: Option<SignUpToken>) -> Option<SignUpTokenView> {
    match t {
        Some(t) => Some(t@),
        None => None,
    }
}

/// The view of an optional decoded password-reset token.
pub open spec fn password_view(t: Option<PasswordToken>) -> Option<PasswordTokenView> {
    match t {
        Some(t) => Some(t@),
        None => None,
    }
}

/// Completing a sign-up once the token is decoded: a wrong pin changes
/// nothing; a right one consumes the token, then adds the user (hashing its
/// password) and binds the public key to the new id.
pub open spec fn sign_up_step(
    s0: ServiceView,
    s1: ServiceView,
    public_key: Seq<char>,
    token_key: Seq<char>,
    pin: Seq<char>,
    token: Option<SignUpTokenView>,
    r: Result<bool, ErrorView>,
) -> bool {
    let k = TokenKeyView::SignUp(token_key);
    match token {
        None => r == Err::<bool, ErrorView>(ErrorView::InvalidFormat) && s1 == s0,
        Some(t) => if t.pin != pin {
            r == Err::<bool, ErrorView>(ErrorView::Unauthorized) && s1 == s0
        } else if !s0.tokens.contains_key(k) {
            r == Err::<bool, ErrorView>(ErrorView::TokenNotFound(k)) && s1 == s0
        } else if has_email(s0.users.rows, t.email) || s0.users.next_id == u64::MAX {
            &&& r == Err::<bool, ErrorView>(ErrorView::QueryExecutionFailure)
            &&& s1 == ServiceView { tokens: s0.tokens.remove(k), users: s0.users, keys: s0.keys }
        } else {
            let id = s0.users.next_id;
            &&& r == Ok::<bool, ErrorView>(true)
            &&& s1.tokens == s0.tokens.remove(k)
            &&& s1.users.next_id == id + 1
            &&& s1.users.rows.len() == s0.users.rows.len() + 1
            &&& s1.users.rows.drop_last() == s0.users.rows
            &&& is_new_row(s1.users.rows.last(), id, t.name, t.email, hash_of(t.password), t.avatar_url)
            &&& s1.keys == s0.keys.push(UserKeyView { user_id: id, public_key })
        },
    }
}

/// A sign-up at time `now`: the token stored under `token_key`, unless it
/// has expired, is looked up and decoded.
pub open spec fn sign_up(
    s0: ServiceView,
    s1: ServiceView,
    public_key: Seq<char>,
    token_key: Seq<char>,
    pin: Seq<char>,
    now: i64,
    r: Result<bool, ErrorView>,
) -> bool {
    let k = TokenKeyView::SignUp(token_key);
    if !is_live(s0.tokens, k, now) {
        r == Err::<bool, ErrorView>(ErrorView::TokenNotFound(k)) && s1 == s0
    } else {
        sign_up_step(s0, s1, public_key, token_key, pin, decode_sign_up(s0.tokens[k].blob), r)
    }
}

/// Changes only the password of the user `user_id`, to `hash`.
pub open spec fn password_replaced(s0: ServiceView, s1: ServiceView, user_id: u64, hash: Seq<u8>) -> bool {
    &&& s1.users.next_id == s0.users.next_id
    &&& exists|i: int|
        0 <= i < s0.users.rows.len() && #[trigger] s0.users.rows[i].id == user_id
            && s1.users.rows == s0.users.rows.update(i, s1.users.rows[i])
            && is_patched(s0.users.rows[i], s1.users.rows[i], None, Some(hash), None)
}

/// Completing a password reset once the token is decoded: both the token id
/// and the temporary password must match, and a mismatch of either is
/// reported as an unknown user; on a match the password is replaced by the
/// hash of the new one and the token is consumed.
pub open spec fn reset_step(
    s0: ServiceView,
    s1: ServiceView,
    email: Seq<char>,
    user_id: u64,
    token_id: Seq<char>,
    temporary_password: Seq<char>,
    new_password: Seq<char>,
    token: Option<PasswordTokenView>,
    r: Result<bool, ErrorView>,
) -> bool {
    match token {
        None => r == Err::<bool, ErrorView>(ErrorView::InvalidFormat) && s1 == s0,
        Some(t) => if t.id != token_id || t.password != temporary_password {
            r == Err::<bool, ErrorView>(ErrorView::UserNotFound(email)) && s1 == s0
        } else if !has_id(s0.users.rows, user_id) {
            r == Err::<bool, ErrorView>(ErrorView::NotFound(user_id)) && s1 == s0
        } else {
            &&& r == Ok::<bool, ErrorView>(true)
            &&& s1.tokens == s0.tokens.remove(TokenKeyView::PasswordReset(user_id))
            &&& s1.keys == s0.keys
            &&& password_replaced(s0, s1, user_id, hash_of(new_password))
        },
    }
}

/// The id of the user with this email (emails are unique).
pub open spec fn id_of_email(rows: Seq<UserView>, email: Seq<char>) -> u64 {
    rows[choose|i: int| 0 <= i < rows.len() && #[trigger] rows[i].email == email].id
}

/// A password reset at time `now`: the user is found by email, then the
/// reset token in that user's slot, unless it has expired, is looked up and
/// decoded.
pub open spec fn reset(
    s0: ServiceView,
    s1: ServiceView,
    email: Seq<char>,
    token_id: Seq<char>,
    temporary_password: Seq<char>,
    new_password: Seq<char>,
    now: i64,
    r: Result<bool, ErrorView>,
) -> bool {
    if !has_email(s0.users.rows, email) {
        r == Err::<bool, ErrorView>(ErrorView::UserNotFound(email)) && s1 == s0
    } else {
        let id = id_of_email(s0.users.rows, email);
        let k = TokenKeyView::PasswordReset(id);
        if !is_live(s0.tokens, k, now) {
            r == Err::<bool, ErrorView>(ErrorView::TokenNotFound(k)) && s1 == s0
        } else {
            reset_step(s0, s1, email, id, token_id, temporary_password, new_password, decode_password(s0.tokens[k].blob), r)
        }
    }
}

/// A login: the user with this email whose stored hash is the hash of the
/// submitted password.
pub open spec fn login_result(s: ServiceView, email: Seq<char>, password: Seq<char>) -> Result<
    UserSessionView,
    ErrorView,
> {
    if !has_email(s.users.rows, email) {
        Err(ErrorView::UserNotFound(email))
    } else {
        let u = s.users.rows[choose|i: int| 0 <= i < s.users.rows.len() && #[trigger] s.users.rows[i].email == email];
        if hash_of(password) == u.password {
            Ok(UserSessionView { user_id: u.id, user_email: u.email, user_name: u.name })
        } else {
            Err(ErrorView::Unauthorized)
        }
    }
}

/// An update of the given fields of a user: nothing given, or all three
/// given with one of them blank, is an invalid argument; a password is
/// stored as its hash.
pub open spec fn update_result(
    s0: ServiceView,
    s1: ServiceView,
    id: u64,
    name: Option<Seq<char>>,
    password: Option<Seq<char>>,
    avatar_url: Option<Seq<char>>,
    r: Result<bool, ErrorView>,
) -> bool {
    if name is None && password is None && avatar_url is None {
        r == Err::<bool, ErrorView>(ErrorView::InvalidArgument) && s1 == s0
    } else if name is Some && password is Some && avatar_url is Some && (blank(name->0) || blank(
        password->0,
    ) || blank(avatar_url->0)) {
        r == Err::<bool, ErrorView>(ErrorView::InvalidArgument) && s1 == s0
    } else if !has_id(s0.users.rows, id) {
        r == Err::<bool, ErrorView>(ErrorView::NotFound(id)) && s1 == s0
    } else {
        &&& r == Ok::<bool, ErrorView>(true)
        &&& s1.tokens == s0.tokens
        &&& s1.keys == s0.keys
        &&& s1.users.next_id == s0.users.next_id
        &&& exists|i: int|
            0 <= i < s0.users.rows.len() && #[trigger] s0.users.rows[i].id == id
                && s1.users.rows == s0.users.rows.update(i, s1.users.rows[i])
                && is_patched(
                s0.users.rows[i],
                s1.users.rows[i],
                name,
                match password {
                    Some(p) => Some(hash_of(p)),
                    None => None,
                },
                avatar_url,
            )
    }
}

impl UserService {
    /// The stores are well formed.
    pub open spec fn wf(&self) -> bool {
        self.tokens.wf() && self.users.wf()
    }

    /// A service over empty stores.
    pub fn new() -> (r: UserService)
        ensures
            r.wf(),
            r@.tokens == Map::<TokenKeyView, StoredToken>::empty(),
            r@.users.rows == Seq::<UserView>::empty(),
            r@.keys == Seq::<UserKeyView>::empty(),
    {
        UserService { tokens: TokenStore::new(), users: UserStore::new(), keys: UserKeyStore::new() }
    }

    /// Finds a user by id.
    pub fn get_one(&self, id: u64) -> (r: Result<UserDTO, ServiceError>)
        requires
            self.wf(),
        ensures
            match r {
                Ok(dto) => exists|i: int|
                    0 <= i < self@.users.rows.len() && #[trigger] self@.users.rows[i].id == id && dto@
                        == dto_of(self@.users.rows[i]),
                Err(e) => !has_id(self@.users.rows, id) && e@ == ErrorView::NotFound(id),
            },
    {
        match self.users.index_of_id(id) {
            Some(i) => {
                let dto = self.users.row(i).to_dto();
                assert(self@.users.rows[i as int].id == id);
                Ok(dto)
            },
            None => Err(ServiceError::NotFound(id)),
        }
    }

    /// Lists all users, in the order they were created.
    pub fn get_list(&self) -> (r: Result<Vec<UserDTO>, ServiceError>)
        ensures
            match r {
                Ok(list) => list@.len() == self@.users.rows.len() && forall|i: int|
                    0 <= i < list@.len() ==> #[trigger] list@[i]@ == dto_of(self@.users.rows[i]),
                Err(_) => false,
            },
    {
        let mut list: Vec<UserDTO> = Vec::new();
        let n = self.users.len();
        let mut i: usize = 0;
        while i < n
            invariant
                n == self@.users.rows.len(),
                i <= n,
                list@.len() == i,
                forall|j: int| 0 <= j < i ==> #[trigger] list@[j]@ == dto_of(self@.users.rows[j]),
            decreases n - i,
        {
            list.push(self.users.row(i).to_dto());
            i = i + 1;
        }
        Ok(list)
    }

    /// Completes a sign-up with a token that has been read and decoded
    /// (`None` when the stored blob did not decode).
    pub fn complete_sign_up(
        &mut self,
        user_public_key: &str,
        token_key: &str,
        token_pin: &str,
        token: Option<SignUpToken>,
    ) -> (r: Result<bool, ServiceError>)
        requires
            old(self).wf(),
        ensures
            final(self).wf(),
            sign_up_step(
                old(self)@,
                final(self)@,
                user_public_key@,
                token_key@,
                token_pin@,
                sign_up_view(token),
                result_view(r),
            ),
    {
        let token = match token {
            None => return Err(ServiceError::InvalidFormat),
            Some(t) => t,
        };
        if !String::from_str(token_pin).eq(&token.pin) {
            return Err(ServiceError::Unauthorized);
        }
        let key = TokenKey::sign_up(token_key);
        match self.tokens.delete(&key) {
            Ok(_) => {},
            Err(e) => {
                assert(old(self)@.tokens.remove(key@) =~= old(self)@.tokens);
                return Err(e);
            },
        }
        let ghost s_deleted = self@;
        let hash = hash_password(token.password.as_str());
        let email = token.email.clone();
        match self.users.insert(token.name, token.email, hash, token.avatar_url) {
            Ok(_) => {},
            Err(e) => return Err(e),
        }
        let user_id = match self.users.index_of_email(email.as_str()) {
            Some(i) => {
                proof {
                    let last = self@.users.rows.len() - 1;
                    self.users.lemma_unique(i as int, last);
                }
                self.users.row(i).id
            },
            None => {
                // The row just inserted carries this email, so this is never reached.
                assert(self@.users.rows[self@.users.rows.len() - 1].email == email@);
                return Err(ServiceError::QueryExecutionFailure);
            },
        };
        self.keys.create(user_id, user_public_key)
    }

    /// Creates a new user from the sign-up token stored under `token_key`,
    /// when `token_pin` is its pin, and binds `user_public_key` to it; the
    /// token must not have expired by the current time.
    pub fn create(&mut self, user_public_key: &str, token_key: &str, token_pin: &str) -> (r: Result<
        bool,
        ServiceError,
    >)
        requires
            old(self).wf(),
        ensures
            final(self).wf(),
            exists|now: i64|
                sign_up(old(self)@, final(self)@, user_public_key@, token_key@, token_pin@, now, result_view(r)),
    {
        let now = now_timestamp();
        self.create_at(user_public_key, token_key, token_pin, now)
    }

    /// Creates a new user as `create` does, with the token's expiry judged
    /// at time `now`.
    pub fn create_at(&mut self, user_public_key: &str, token_key: &str, token_pin: &str, now: i64) -> (r:
        Result<bool, ServiceError>)
        requires
            old(self).wf(),
        ensures
            final(self).wf(),
            sign_up(old(self)@, final(self)@, user_public_key@, token_key@, token_pin@, now, result_view(r)),
    {
        let key = TokenKey::sign_up(token_key);
        let blob = match self.tokens.find(&key, now) {
            Ok(b) => b,
            Err(e) => return Err(e),
        };
        let token = SignUpToken::decode(blob.as_str());
        self.complete_sign_up(user_public_key, token_key, token_pin, token)
    }

    /// Deletes a user.
    pub fn delete(&mut self, id: u64) -> (r: Result<bool, ServiceError>)
        requires
            old(self).wf(),
        ensures
            final(self).wf(),
            final(self)@.tokens == old(self)@.tokens,
            final(self)@.keys == old(self)@.keys,
            final(self)@.users.next_id == old(self)@.users.next_id,
            r is Ok <==> has_id(old(self)@.users.rows, id),
            match r {
                Ok(b) => b && removed_row(old(self)@.users.rows, final(self)@.users.rows, id),
                Err(e) => e@ == ErrorView::NotFound(id) && final(self)@ == old(self)@,
            },
    {
        self.users.remove(id)
    }

    /// Updates the given fields of a user.
    pub fn update(
        &mut self,
        id: u64,
        name: &Option<String>,
        password: &Option<String>,
        avatar_url: &Option<String>,
    ) -> (r: Result<bool, ServiceError>)
        requires
            old(self).wf(),
        ensures
            final(self).wf(),
            update_result(
                old(self)@,
                final(self)@,
                id,
                opt_text(*name),
                opt_text(*password),
                opt_text(*avatar_url),
                result_view(r),
            ),
    {
        if name.is_none() && password.is_none() && avatar_url.is_none() {
            return Err(ServiceError::InvalidArgument);
        }
        match (name, password, avatar_url) {
            (Some(n), Some(p), Some(a)) => {
                if is_blank(n.as_str()) || is_blank(p.as_str()) || is_blank(a.as_str()) {
                    return Err(ServiceError::InvalidArgument);
                }
            },
            _ => {},
        }
        let hashed = match password {
            Some(p) => Some(hash_password(p.as_str())),
            None => None,
        };
        let new_name = match name {
            Some(n) => Some(n.clone()),
            None => None,
        };
        let new_avatar = match avatar_url {
            Some(a) => Some(a.clone()),
            None => None,
        };
        self.users.update(id, new_name, hashed, new_avatar)
    }

    /// Completes a password reset of the user `user_id`, found by `email`,
    /// with a token that has been read and decoded (`None` when the stored
    /// blob did not decode).
    pub fn complete_reset(
        &mut self,
        email: &str,
        user_id: u64,
        token_id: &str,
        temporary_password: &str,
        new_password: &str,
        token: Option<PasswordToken>,
    ) -> (r: Result<bool, ServiceError>)
        requires
            old(self).wf(),
        ensures
            final(self).wf(),
            reset_step(
                old(self)@,
                final(self)@,
                email@,
                user_id,
                token_id@,
                temporary_password@,
                new_password@,
                password_view(token),
                result_view(r),
            ),
    {
        let token = match token {
            None => return Err(ServiceError::InvalidFormat),
            Some(t) => t,
        };
        if !(String::from_str(token_id).eq(&token.id) && String::from_str(temporary_password).eq(
            &token.password,
        )) {
            return Err(ServiceError::UserNotFound(String::from_str(email)));
        }
        let hash = hash_password(new_password);
        match self.users.update(user_id, None, Some(hash), None) {
            Ok(_) => {},
            Err(e) => return Err(e),
        }
        // The password is changed already: a failure to remove the token
        // leaves it to expire and does not undo the reset.
        let _ = self.tokens.delete(&TokenKey::password_reset(user_id));
        Ok(true)
    }

    /// Replaces the password of the user with this email, when `token_id`
    /// and `temporary_password` match the reset token stored for the user and
    /// that token has not expired by the current time.
    pub fn reset_password(
        &mut self,
        email: &str,
        token_id: &str,
        temporary_password: &str,
        new_password: &str,
    ) -> (r: Result<bool, ServiceError>)
        requires
            old(self).wf(),
        ensures
            final(self).wf(),
            exists|now: i64|
                reset(
                    old(self)@,
                    final(self)@,
                    email@,
                    token_id@,
                    temporary_password@,
                    new_password@,
                    now,
                    result_view(r),
                ),
    {
        let now = now_timestamp();
        self.reset_password_at(email, token_id, temporary_password, new_password, now)
    }

    /// Resets a password as `reset_password` does, with the token's expiry
    /// judged at time `now`.
    pub fn reset_password_at(
        &mut self,
        email: &str,
        token_id: &str,
        temporary_password: &str,
        new_password: &str,
        now: i64,
    ) -> (r: Result<bool, ServiceError>)
        requires
            old(self).wf(),
        ensures
            final(self).wf(),
            reset(
                old(self)@,
                final(self)@,
                email@,
                token_id@,
                temporary_password@,
                new_password@,
                now,
                result_view(r),
            ),
    {
        let user_id = match self.users.index_of_email(email) {
            Some(i) => {
                proof {
                    let rows = self@.users.rows;
                    let j = choose|j: int| 0 <= j < rows.len() && #[trigger] rows[j].email == email@;
                    self.users.lemma_unique(i as int, j);
                }
                self.users.row(i).id
            },
            None => return Err(ServiceError::UserNotFound(String::from_str(email))),
        };
        let key = TokenKey::password_reset(user_id);
        let blob = match self.tokens.find(&key, now) {
            Ok(b) => b,
            Err(e) => return Err(e),
        };
        let token = PasswordToken::decode(blob.as_str());
        self.complete_reset(email, user_id, token_id, temporary_password, new_password, token)
    }

    /// Logs a user in by email and password.
    pub fn login(&self, args: LoginArgs) -> (r: Result<UserSessionDTO, ServiceError>)
        requires
            self.wf(),
        ensures
            match r {
                Ok(s) => login_result(self@, args.email@, args.password@) == Ok::<UserSessionView, ErrorView>(s@),
                Err(e) => login_result(self@, args.email@, args.password@) == Err::<UserSessionView, ErrorView>(e@),
            },
    {
        match self.users.index_of_email(args.email.as_str()) {
            Some(i) => {
                proof {
                    let rows = self@.users.rows;
                    let j = choose|j: int| 0 <= j < rows.len() && #[trigger] rows[j].email == args.email@;
                    self.users.lemma_unique(i as int, j);
                }
                let user = self.users.row(i);
                if verify_password(args.password.as_str(), &user.password) {
                    Ok(UserSessionDTO { user_id: user.id, user_email: user.email.clone(), user_name: user.name.clone() })
                } else {
                    Err(ServiceError::Unauthorized)
                }
            },
            None => Err(ServiceError::UserNotFound(args.email)),
        }
    }
}

} // verus!
