use vstd::prelude::*;

verus! {

/// What the password digest returns for a password and a salt; it depends
/// on those characters alone.
pub uninterp spec fn hash_of(pwd: Seq<char>, salt: Seq<char>) -> Seq<char>;

/// Relies on sha256::digest over the bytes of `pwd` followed by `salt`:
/// the hex digest of the concatenation.
#[verifier::external_body]
pub fn hash_password(pwd: &str, salt: &str) -> (r: String)
    ensures
        r@ == hash_of(pwd@, salt@),
{
    sha256::digest((pwd.to_string() + salt).into_bytes().as_slice())
}

} // verus!
