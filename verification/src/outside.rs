//! What the library takes from other crates and from the standard library
//! without proof.

use vstd::prelude::*;
use vstd::utf8::*;

verus! {

/// Whether the whole of `s` matches the pattern `p`, in which `?` stands for
/// exactly one character and `*` for any number of characters.
pub open spec fn wildcard(p: Seq<char>, s: Seq<char>) -> bool
    decreases p.len(), s.len(),
{
    if p.len() == 0 {
        s.len() == 0
    } else if p[0] == '*' {
        wildcard(p.drop_first(), s) || (s.len() > 0 && wildcard(p, s.drop_first()))
    } else {
        s.len() > 0 && (p[0] == '?' || p[0] == s[0]) && wildcard(p.drop_first(), s.drop_first())
    }
}

/// `ssh2_config::HostClause::intersects`, on a clause made by
/// `ssh2_config::HostClause::new` that is not negated: it tells whether the host
/// name as a whole matches the wildcard pattern of the clause, case and all.
#[verifier::external_body]
pub(crate) fn host_matches(pattern: &str, host: &str) -> (r: bool)
    ensures
        r == wildcard(pattern@, host@),
{
    ssh2_config::HostClause::new(pattern.to_string(), false).intersects(host)
}

/// What `str::to_lowercase` makes of a text.
pub uninterp spec fn lowercase(s: Seq<char>) -> Seq<char>;

/// An ASCII character in lower case.
pub open spec fn ascii_lower(c: char) -> char {
    if 'A' <= c <= 'Z' {
        (c as u32 + 32) as char
    } else {
        c
    }
}

/// `str::to_lowercase`, which depends on the text alone. A text of ASCII
/// characters keeps its length, with each of `A` to `Z` replaced by its small
/// letter.
#[verifier::external_body]
pub(crate) fn to_lowercase(s: &str) -> (r: String)
    ensures
        r@ == lowercase(s@),
        is_ascii_chars(s@) ==> r@ == s@.map_values(|c: char| ascii_lower(c)),
{
    s.to_lowercase()
}

/// The SHA-256 digest of a message.
pub uninterp spec fn sha256(data: Seq<u8>) -> Seq<u8>;

/// `sha2::Sha256::digest`, which depends on the message alone and is 32 bytes
/// long.
#[verifier::external_body]
pub(crate) fn sha256_digest(data: &Vec<u8>) -> (r: Vec<u8>)
    ensures
        r@ == sha256(data@),
        r@.len() == 32,
{
    <sha2::Sha256 as sha2::Digest>::digest(data).to_vec()
}

/// What `String::from_utf8_lossy` makes of a byte sequence.
pub uninterp spec fn utf8_lossy(bytes: Seq<u8>) -> Seq<char>;

/// `String::from_utf8_lossy`, which depends on the bytes alone, and decodes them
/// where they are valid UTF-8.
#[verifier::external_body]
pub(crate) fn from_utf8_lossy(bytes: &Vec<u8>) -> (r: String)
    ensures
        r@ == utf8_lossy(bytes@),
        valid_utf8(bytes@) ==> r@ == decode_utf8(bytes@),
{
    String::from_utf8_lossy(bytes).into_owned()
}

} // verus!
