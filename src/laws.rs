use vstd::prelude::*;

use crate::error::ErrorView;
use crate::password::hash_of;
use crate::service::{login_result, reset, sign_up, ServiceView, UserSessionView, id_of_email};
use crate::token::{decode_password, decode_sign_up, delete_result, is_live, StoredToken, TokenKeyView};
use crate::user::{has_email, UserKeyView, UserView};

verus! {

/// A sign-up with a valid token and its pin consumes the token, adds exactly
/// one user and exactly one key binding for it; a second sign-up with the
/// same token key then finds no token and changes nothing.
pub proof fn lemma_sign_up_consumes_token(
    s0: ServiceView,
    s1: ServiceView,
    s2: ServiceView,
    public_key: Seq<char>,
    token_key: Seq<char>,
    pin: Seq<char>,
    now: i64,
    later: i64,
    r1: Result<bool, ErrorView>,
    r2: Result<bool, ErrorView>,
)
    requires
        is_live(s0.tokens, TokenKeyView::SignUp(token_key), now),
        decode_sign_up(s0.tokens[TokenKeyView::SignUp(token_key)].blob) matches Some(t) && t.pin == pin
            && !has_email(s0.users.rows, t.email),
        s0.users.next_id < u64::MAX,
        sign_up(s0, s1, public_key, token_key, pin, now, r1),
        sign_up(s1, s2, public_key, token_key, pin, later, r2),
    ensures
        r1 == Ok::<bool, ErrorView>(true),
        !s1.tokens.contains_key(TokenKeyView::SignUp(token_key)),
        s1.users.rows.len() == s0.users.rows.len() + 1,
        s1.users.rows.drop_last() == s0.users.rows,
        s1.keys.len() == s0.keys.len() + 1,
        s1.keys.drop_last() == s0.keys,
        s1.keys.last() == (UserKeyView { user_id: s1.users.rows.last().id, public_key }),
        r2 == Err::<bool, ErrorView>(ErrorView::TokenNotFound(TokenKeyView::SignUp(token_key))),
        s2 == s1,
{
    assert(s1.keys.drop_last() =~= s0.keys);
}

/// A sign-up with a wrong pin leaves the token where it was and adds no
/// user and no key binding.
pub proof fn lemma_wrong_pin_keeps_token(
    s0: ServiceView,
    s1: ServiceView,
    public_key: Seq<char>,
    token_key: Seq<char>,
    pin: Seq<char>,
    now: i64,
    r: Result<bool, ErrorView>,
)
    requires
        is_live(s0.tokens, TokenKeyView::SignUp(token_key), now),
        decode_sign_up(s0.tokens[TokenKeyView::SignUp(token_key)].blob) matches Some(t) && t.pin != pin,
        sign_up(s0, s1, public_key, token_key, pin, now, r),
    ensures
        r == Err::<bool, ErrorView>(ErrorView::Unauthorized),
        s1.tokens.contains_key(TokenKeyView::SignUp(token_key)),
        s1.tokens[TokenKeyView::SignUp(token_key)] == s0.tokens[TokenKeyView::SignUp(token_key)],
        s1.users == s0.users,
        s1.keys == s0.keys,
{
}

/// A password reset with a wrong temporary password fails as an unknown
/// user and changes nothing, whatever token id is given; a wrong token id
/// with the right temporary password fails in exactly the same way.
pub proof fn lemma_reset_mismatch_indistinguishable(
    s0: ServiceView,
    s1: ServiceView,
    s2: ServiceView,
    email: Seq<char>,
    token_id: Seq<char>,
    wrong_token_id: Seq<char>,
    temporary_password: Seq<char>,
    new_password: Seq<char>,
    now: i64,
    r1: Result<bool, ErrorView>,
    r2: Result<bool, ErrorView>,
)
    requires
        has_email(s0.users.rows, email),
        is_live(s0.tokens, TokenKeyView::PasswordReset(id_of_email(s0.users.rows, email)), now),
        decode_password(s0.tokens[TokenKeyView::PasswordReset(id_of_email(s0.users.rows, email))].blob) matches Some(t)
            && t.password != temporary_password && t.id != wrong_token_id,
        reset(s0, s1, email, token_id, temporary_password, new_password, now, r1),
        reset(
            s0,
            s2,
            email,
            wrong_token_id,
            decode_password(s0.tokens[TokenKeyView::PasswordReset(id_of_email(s0.users.rows, email))].blob)->0.password,
            new_password,
            now,
            r2,
        ),
    ensures
        r1 == Err::<bool, ErrorView>(ErrorView::UserNotFound(email)),
        s1 == s0,
        r2 == r1,
        s2 == s0,
{
}

/// No two rows share an id or an email.
pub open spec fn unique_rows(rows: Seq<UserView>) -> bool {
    forall|i: int, j: int|
        0 <= i < rows.len() && 0 <= j < rows.len() && (#[trigger] rows[i].id == #[trigger] rows[j].id
            || rows[i].email == rows[j].email) ==> i == j
}

/// A successful password reset consumes the token: the same reset tried
/// again, at any time, finds no token for the user and changes nothing.
pub proof fn lemma_reset_consumes_token(
    s0: ServiceView,
    s1: ServiceView,
    s2: ServiceView,
    email: Seq<char>,
    token_id: Seq<char>,
    temporary_password: Seq<char>,
    new_password: Seq<char>,
    now: i64,
    later: i64,
    r2: Result<bool, ErrorView>,
)
    requires
        unique_rows(s0.users.rows),
        reset(s0, s1, email, token_id, temporary_password, new_password, now, Ok::<bool, ErrorView>(true)),
        reset(s1, s2, email, token_id, temporary_password, new_password, later, r2),
    ensures
        has_email(s0.users.rows, email),
        r2 == Err::<bool, ErrorView>(
            ErrorView::TokenNotFound(TokenKeyView::PasswordReset(id_of_email(s0.users.rows, email))),
        ),
        s2 == s1,
{
    let rows0 = s0.users.rows;
    let rows1 = s1.users.rows;
    let uid = id_of_email(rows0, email);
    let c = choose|c: int| 0 <= c < rows0.len() && #[trigger] rows0[c].email == email;
    let i = choose|i: int|
        0 <= i < rows0.len() && #[trigger] rows0[i].id == uid && rows1 == rows0.update(i, rows1[i])
            && crate::user::is_patched(rows0[i], rows1[i], None, Some(hash_of(new_password)), None);
    assert(rows0[c].id == uid);
    assert(i == c);
    assert(rows1[i].email == email);
    assert(has_email(rows1, email));
    let d = choose|d: int| 0 <= d < rows1.len() && #[trigger] rows1[d].email == email;
    if d != i {
        assert(rows1[d] == rows0[d]);
        assert(rows0[d].email == rows0[c].email);
    }
    assert(id_of_email(rows1, email) == uid);
}

/// After a sign-up, the token's password logs the new user in, and a
/// submitted password does so exactly when its hash is the stored hash.
pub proof fn lemma_login_after_sign_up(
    s0: ServiceView,
    s1: ServiceView,
    public_key: Seq<char>,
    token_key: Seq<char>,
    pin: Seq<char>,
    now: i64,
    r: Result<bool, ErrorView>,
    submitted: Seq<char>,
)
    requires
        sign_up(s0, s1, public_key, token_key, pin, now, r),
        r == Ok::<bool, ErrorView>(true),
    ensures
        ({
            let t = decode_sign_up(s0.tokens[TokenKeyView::SignUp(token_key)].blob)->0;
            &&& s1.users.rows.last().password == hash_of(t.password)
            &&& login_result(s1, t.email, t.password) == Ok::<UserSessionView, ErrorView>(
                UserSessionView { user_id: s1.users.rows.last().id, user_email: t.email, user_name: t.name },
            )
            &&& (login_result(s1, t.email, submitted) is Ok <==> hash_of(submitted) == hash_of(t.password))
        }),
{
    let t = decode_sign_up(s0.tokens[TokenKeyView::SignUp(token_key)].blob)->0;
    let rows = s1.users.rows;
    let last = rows.len() - 1;
    assert(rows[last].email == t.email);
    let j = choose|j: int| 0 <= j < rows.len() && #[trigger] rows[j].email == t.email;
    if j != last {
        assert(s0.users.rows[j] == rows.drop_last()[j]);
        assert(s0.users.rows[j].email == t.email);
    }
}

/// Deleting a token key a second time fails exactly as deleting a key that
/// never held a token.
pub proof fn lemma_delete_twice(
    m: Map<TokenKeyView, StoredToken>,
    never: Map<TokenKeyView, StoredToken>,
    key: TokenKeyView,
)
    requires
        !never.contains_key(key),
    ensures
        delete_result(m.remove(key), key) == delete_result(never, key),
        delete_result(never, key) == Err::<bool, ErrorView>(ErrorView::TokenNotFound(key)),
{
}

} // verus!
