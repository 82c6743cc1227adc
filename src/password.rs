use vstd::prelude::*;

verus! {

/// The SHA-256 digest of the UTF-8 encoding of a text.
pub uninterp spec fn sha256_of(text: Seq<char>) -> Seq<u8>;

/// Relies on sha2::Sha256 (through `Digest::digest`): the 32-byte digest of
/// the text's UTF-8 bytes.
#[verifier::external_body]
fn sha256(text: &str) -> (r: Vec<u8>)
    ensures
        r@ == sha256_of(text@),
        r@.len() == 32,
{
    <sha2::Sha256 as sha2::Digest>::digest(text.as_bytes()).to_vec()
}

/// The text that is hashed for a password: a fixed salt, then the password.
pub open spec fn salted(password: Seq<char>) -> Seq<char> {
    "auth_server:"@ + password
}

/// The stored hash of a password.
pub open spec fn hash_of(password: Seq<char>) -> Seq<u8> {
    sha256_of(salted(password))
}

/// Hashes a password for storage.
pub fn hash_password(password: &str) -> (r: Vec<u8>)
    ensures
        r@ == hash_of(password@),
        r@.len() == 32,
{
    let text = String::from_str("auth_server:").concat(password);
    sha256(text.as_str())
}

/// Whether a submitted password matches a stored hash: it is hashed and the
/// digests are compared.
pub fn verify_password(submitted: &str, stored: &Vec<u8>) -> (r: bool)
    ensures
        r == (hash_of(submitted@) == stored@),
{
    let digest = hash_password(submitted);
    if digest.len() != stored.len() {
        return false;
    }
    let mut i: usize = 0;
    while i < digest.len()
        invariant
            digest@ == hash_of(submitted@),
            digest@.len() == stored@.len(),
            i <= digest@.len(),
            forall|j: int| 0 <= j < i ==> digest@[j] == stored@[j],
        decreases digest@.len() - i,
    {
        if digest[i] != stored[i] {
            assert(digest@[i as int] != stored@[i as int]);
            return false;
        }
        i = i + 1;
    }
    assert(digest@ =~= stored@);
    true
}

} // verus!
