use vstd::prelude::*;

use crate::error::{ErrorView, ServiceError};

verus! {

/// Where a token lives in the token store: a sign-up token under the key
/// that the caller chose, a password-reset token in the one slot of its user.
#[derive(Debug)]
pub enum TokenKey {
    SignUp(String),
    PasswordReset(u64),
}

/// The mathematical value of a `TokenKey`.
pub enum TokenKeyView {
    SignUp(Seq<char>),
    PasswordReset(u64),
}

impl View for TokenKey {
    type V = TokenKeyView;

    open spec fn view(&self) -> TokenKeyView {
        match self {
            TokenKey::SignUp(k) => TokenKeyView::SignUp(k@),
            TokenKey::PasswordReset(id) => TokenKeyView::PasswordReset(*id),
        }
    }
}

impl TokenKey {
    /// The key of a sign-up token.
    pub fn sign_up(token_key: &str) -> (r: TokenKey)
        ensures
            r@ == TokenKeyView::SignUp(token_key@),
    {
        TokenKey::SignUp(String::from_str(token_key))
    }

    /// The key of the password-reset token of a user.
    pub fn password_reset(user_id: u64) -> (r: TokenKey)
        ensures
            r@ == TokenKeyView::PasswordReset(user_id),
    {
        TokenKey::PasswordReset(user_id)
    }

    /// A copy of this key.
    pub fn duplicate(&self) -> (r: TokenKey)
        ensures
            r@ == self@,
    {
        match self {
            TokenKey::SignUp(k) => TokenKey::SignUp(k.clone()),
            TokenKey::PasswordReset(id) => TokenKey::PasswordReset(*id),
        }
    }

    /// Whether two keys name the same slot.
    pub fn same_as(&self, other: &TokenKey) -> (r: bool)
        ensures
            r == (self@ == other@),
    {
        match (self, other) {
            (TokenKey::SignUp(a), TokenKey::SignUp(b)) => a.eq(b),
            (TokenKey::PasswordReset(a), TokenKey::PasswordReset(b)) => *a == *b,
            _ => false,
        }
    }
}

/// What the store holds under a key: the serialized token and the time
/// (seconds since the Unix epoch) from which it has expired.
pub struct StoredToken {
    pub blob: Seq<char>,
    pub expires_at: i64,
}

/// A token is stored under `key` and has not expired at `now`.
pub open spec fn is_live(m: Map<TokenKeyView, StoredToken>, key: TokenKeyView, now: i64) -> bool {
    m.contains_key(key) && now < m[key].expires_at
}

/// A key-value store of serialized tokens with an expiry time each: at most
/// one entry per key.
pub struct TokenStore {
    entries: Vec<(TokenKey, String, i64)>,
}

impl View for TokenStore {
    type V = Map<TokenKeyView, StoredToken>;

    closed spec fn view(&self) -> Map<TokenKeyView, StoredToken> {
        Map::new(
            |k: TokenKeyView| exists|i: int| 0 <= i < self.entries@.len() && #[trigger] self.entries@[i].0@ == k,
            |k: TokenKeyView| Self::stored(self.entries@[choose|i: int| 0 <= i < self.entries@.len() && #[trigger] self.entries@[i].0@ == k]),
        )
    }
}

/// What deleting `key` from a store holding `m` returns.
pub open spec fn delete_result(m: Map<TokenKeyView, StoredToken>, key: TokenKeyView) -> Result<bool, ErrorView> {
    if m.contains_key(key) {
        Ok(true)
    } else {
        Err(ErrorView::TokenNotFound(key))
    }
}

impl TokenStore {
    /// The value of one entry.
    pub closed spec fn stored(e: (TokenKey, String, i64)) -> StoredToken {
        StoredToken { blob: e.1@, expires_at: e.2 }
    }

    /// No key appears twice.
    pub closed spec fn wf(&self) -> bool {
        forall|i: int, j: int|
            0 <= i < self.entries@.len() && 0 <= j < self.entries@.len() && i != j
                ==> #[trigger] self.entries@[i].0@ != #[trigger] self.entries@[j].0@
    }

    proof fn lemma_entry(&self, i: int)
        requires
            self.wf(),
            0 <= i < self.entries@.len(),
        ensures
            self@.contains_key(self.entries@[i].0@),
            self@[self.entries@[i].0@] == Self::stored(self.entries@[i]),
    {
        let k = self.entries@[i].0@;
        assert(self.entries@[i].0@ == k);
        let j = choose|j: int| 0 <= j < self.entries@.len() && #[trigger] self.entries@[j].0@ == k;
        assert(j == i);
    }

    /// An empty store.
    pub fn new() -> (r: TokenStore)
        ensures
            r.wf(),
            r@ == Map::<TokenKeyView, StoredToken>::empty(),
    {
        let r = TokenStore { entries: Vec::new() };
        assert(r@ =~= Map::<TokenKeyView, StoredToken>::empty());
        r
    }

    fn position(&self, key: &TokenKey) -> (r: Option<usize>)
        requires
            self.wf(),
        ensures
            match r {
                Some(i) => i < self.entries@.len() && self.entries@[i as int].0@ == key@,
                None => !self@.contains_key(key@),
            },
    {
        let mut i: usize = 0;
        while i < self.entries.len()
            invariant
                i <= self.entries@.len(),
                forall|j: int| 0 <= j < i ==> #[trigger] self.entries@[j].0@ != key@,
            decreases self.entries@.len() - i,
        {
            if self.entries[i].0.same_as(key) {
                return Some(i);
            }
            i = i + 1;
        }
        None
    }

    /// The blob stored under `key`, if there is one that has not expired at
    /// `now`.
    pub fn find(&self, key: &TokenKey, now: i64) -> (r: Result<String, ServiceError>)
        requires
            self.wf(),
        ensures
            match r {
                Ok(blob) => is_live(self@, key@, now) && blob@ == self@[key@].blob,
                Err(e) => !is_live(self@, key@, now) && e@ == ErrorView::TokenNotFound(key@),
            },
    {
        match self.position(key) {
            Some(i) => {
                proof {
                    self.lemma_entry(i as int);
                }
                if now < self.entries[i].2 {
                    Ok(self.entries[i].1.clone())
                } else {
                    Err(ServiceError::TokenNotFound(key.duplicate()))
                }
            },
            None => Err(ServiceError::TokenNotFound(key.duplicate())),
        }
    }

    /// Stores `blob` under `key` until `expires_at`, replacing what was there.
    pub fn put(&mut self, key: TokenKey, blob: String, expires_at: i64)
        requires
            old(self).wf(),
        ensures
            final(self).wf(),
            final(self)@ == old(self)@.insert(key@, StoredToken { blob: blob@, expires_at }),
    {
        let ghost k = key@;
        let ghost sv = StoredToken { blob: blob@, expires_at };
        match self.position(&key) {
            Some(i) => {
                self.entries.set(i, (key, blob, expires_at));
                assert forall|j: int, l: int|
                    0 <= j < self.entries@.len() && 0 <= l < self.entries@.len() && j != l
                        implies #[trigger] self.entries@[j].0@ != #[trigger] self.entries@[l].0@ by {
                    assert(old(self).entries@[j].0@ != old(self).entries@[l].0@);
                }
                assert forall|kk: TokenKeyView|
                    #[trigger] old(self)@.insert(k, sv).contains_key(kk)
                        implies self@.contains_key(kk) && self@[kk] == old(self)@.insert(k, sv)[kk] by {
                    if kk == k {
                        self.lemma_entry(i as int);
                    } else {
                        let j = choose|j: int| 0 <= j < old(self).entries@.len() && #[trigger] old(self).entries@[j].0@ == kk;
                        old(self).lemma_entry(j);
                        self.lemma_entry(j);
                    }
                }
                assert forall|kk: TokenKeyView| #[trigger] self@.contains_key(kk)
                    implies old(self)@.insert(k, sv).contains_key(kk) by {
                    let j = choose|j: int| 0 <= j < self.entries@.len() && #[trigger] self.entries@[j].0@ == kk;
                    if j != i {
                        old(self).lemma_entry(j);
                    }
                }
                assert(self@ =~= old(self)@.insert(k, sv));
            },
            None => {
                self.entries.push((key, blob, expires_at));
                let ghost n: int = self.entries@.len() - 1;
                assert forall|j: int, l: int|
                    0 <= j < self.entries@.len() && 0 <= l < self.entries@.len() && j != l
                        implies #[trigger] self.entries@[j].0@ != #[trigger] self.entries@[l].0@ by {
                    if j == n {
                        old(self).lemma_entry(l);
                    } else if l == n {
                        old(self).lemma_entry(j);
                    } else {
                        assert(old(self).entries@[j].0@ != old(self).entries@[l].0@);
                    }
                }
                assert forall|kk: TokenKeyView|
                    #[trigger] old(self)@.insert(k, sv).contains_key(kk)
                        implies self@.contains_key(kk) && self@[kk] == old(self)@.insert(k, sv)[kk] by {
                    if kk == k {
                        self.lemma_entry(n);
                    } else {
                        let j = choose|j: int| 0 <= j < old(self).entries@.len() && #[trigger] old(self).entries@[j].0@ == kk;
                        old(self).lemma_entry(j);
                        self.lemma_entry(j);
                    }
                }
                assert forall|kk: TokenKeyView| #[trigger] self@.contains_key(kk)
                    implies old(self)@.insert(k, sv).contains_key(kk) by {
                    let j = choose|j: int| 0 <= j < self.entries@.len() && #[trigger] self.entries@[j].0@ == kk;
                    if j != n {
                        old(self).lemma_entry(j);
                    }
                }
                assert(self@ =~= old(self)@.insert(k, sv));
            },
        }
    }

    /// Removes the blob under `key`; a key that holds nothing is reported,
    /// whether it never held a blob or its blob is already gone.
    pub fn delete(&mut self, key: &TokenKey) -> (r: Result<bool, ServiceError>)
        requires
            old(self).wf(),
        ensures
            final(self).wf(),
            crate::error::result_view(r) == delete_result(old(self)@, key@),
            final(self)@ == old(self)@.remove(key@),
    {
        match self.position(key) {
            Some(i) => {
                let ghost k = key@;
                proof {
                    old(self).lemma_entry(i as int);
                }
                self.entries.remove(i);
                assert forall|j: int, l: int|
                    0 <= j < self.entries@.len() && 0 <= l < self.entries@.len() && j != l
                        implies #[trigger] self.entries@[j].0@ != #[trigger] self.entries@[l].0@ by {
                    let oj = if j < i { j } else { j + 1 };
                    let ol = if l < i { l } else { l + 1 };
                    assert(old(self).entries@[oj].0@ != old(self).entries@[ol].0@);
                }
                assert forall|kk: TokenKeyView|
                    #[trigger] old(self)@.remove(k).contains_key(kk)
                        implies self@.contains_key(kk) && self@[kk] == old(self)@[kk] by {
                    let j = choose|j: int| 0 <= j < old(self).entries@.len() && #[trigger] old(self).entries@[j].0@ == kk;
                    old(self).lemma_entry(j);
                    let nj = if j < i { j } else { j - 1 };
                    assert(self.entries@[nj] == old(self).entries@[j]);
                    self.lemma_entry(nj);
                }
                assert forall|kk: TokenKeyView| #[trigger] self@.contains_key(kk)
                    implies old(self)@.remove(k).contains_key(kk) by {
                    let j = choose|j: int| 0 <= j < self.entries@.len() && #[trigger] self.entries@[j].0@ == kk;
                    let oj = if j < i { j } else { j + 1 };
                    assert(self.entries@[j] == old(self).entries@[oj]);
                    old(self).lemma_entry(oj);
                    assert(oj != i);
                }
                assert(self@ =~= old(self)@.remove(k));
                Ok(true)
            },
            None => {
                assert(self@ =~= old(self)@.remove(key@));
                Err(ServiceError::TokenNotFound(key.duplicate()))
            },
        }
    }
}

/// What `serde_json` reads as the string under `field` of the JSON object
/// `doc`: `None` when `doc` is not JSON, not an object, or holds no string there.
pub uninterp spec fn json_string_field(doc: Seq<char>, field: Seq<char>) -> Option<Seq<char>>;

/// Relies on serde_json::from_str into a `serde_json::Value`, then
/// `Value::get` and `Value::as_str`: the string under one field of an object.
#[verifier::external_body]
fn json_field(doc: &str, field: &str) -> (r: Option<String>)
    ensures
        match r {
            Some(s) => json_string_field(doc@, field@) == Some(s@),
            None => json_string_field(doc@, field@) is None,
        },
{
    let value: serde_json::Value = serde_json::from_str(doc).ok()?;
    value.get(field)?.as_str().map(|s| s.to_string())
}

/// A pending sign-up, stored until its pin is confirmed.
#[derive(Debug)]
pub struct SignUpToken {
    pub name: String,
    pub email: String,
    pub password: String,
    pub avatar_url: String,
    pub pin: String,
}

pub struct SignUpTokenView {
    pub name: Seq<char>,
    pub email: Seq<char>,
    pub password: Seq<char>,
    pub avatar_url: Seq<char>,
    pub pin: Seq<char>,
}

impl View for SignUpToken {
    type V = SignUpTokenView;

    open spec fn view(&self) -> SignUpTokenView {
        SignUpTokenView {
            name: self.name@,
            email: self.email@,
            password: self.password@,
            avatar_url: self.avatar_url@,
            pin: self.pin@,
        }
    }
}

/// The sign-up token that a stored blob encodes, if it encodes one.
pub open spec fn decode_sign_up(blob: Seq<char>) -> Option<SignUpTokenView> {
    match (
        json_string_field(blob, "name"@),
        json_string_field(blob, "email"@),
        json_string_field(blob, "password"@),
        json_string_field(blob, "avatar_url"@),
        json_string_field(blob, "pin"@),
    ) {
        (Some(name), Some(email), Some(password), Some(avatar_url), Some(pin)) => Some(
            SignUpTokenView { name, email, password, avatar_url, pin },
        ),
        _ => None,
    }
}

impl SignUpToken {
    /// Reads a sign-up token from its JSON form.
    pub fn decode(blob: &str) -> (r: Option<SignUpToken>)
        ensures
            match r {
                Some(t) => decode_sign_up(blob@) == Some(t@),
                None => decode_sign_up(blob@) is None,
            },
    {
        let name = json_field(blob, "name");
        let email = json_field(blob, "email");
        let password = json_field(blob, "password");
        let avatar_url = json_field(blob, "avatar_url");
        let pin = json_field(blob, "pin");
        match (name, email, password, avatar_url, pin) {
            (Some(name), Some(email), Some(password), Some(avatar_url), Some(pin)) => Some(
                SignUpToken { name, email, password, avatar_url, pin },
            ),
            _ => None,
        }
    }
}

/// A pending password reset: the token's id and the temporary password.
#[derive(Debug)]
pub struct PasswordToken {
    pub id: String,
    pub password: String,
}

pub struct PasswordTokenView {
    pub id: Seq<char>,
    pub password: Seq<char>,
}

impl View for PasswordToken {
    type V = PasswordTokenView;

    open spec fn view(&self) -> PasswordTokenView {
        PasswordTokenView { id: self.id@, password: self.password@ }
    }
}

/// The password-reset token that a stored blob encodes, if it encodes one.
pub open spec fn decode_password(blob: Seq<char>) -> Option<PasswordTokenView> {
    match (json_string_field(blob, "id"@), json_string_field(blob, "password"@)) {
        (Some(id), Some(password)) => Some(PasswordTokenView { id, password }),
        _ => None,
    }
}

impl PasswordToken {
    /// Reads a password-reset token from its JSON form.
    pub fn decode(blob: &str) -> (r: Option<PasswordToken>)
        ensures
            match r {
                Some(t) => decode_password(blob@) == Some(t@),
                None => decode_password(blob@) is None,
            },
    {
        let id = json_field(blob, "id");
        let password = json_field(blob, "password");
        match (id, password) {
            (Some(id), Some(password)) => Some(PasswordToken { id, password }),
            _ => None,
        }
    }
}

} // verus!
