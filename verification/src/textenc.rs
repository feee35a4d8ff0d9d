//! Percent-encoding variants of manifest file names.
//!
//! The manifest may reference a file name literally, percent-decoded, or
//! percent-encoded; the rewriter therefore tries all three forms. The two
//! transforms are computed by an outside crate and named here.

use vstd::prelude::*;

verus! {

/// What `urlencoding::encode` returns for the given text.
pub uninterp spec fn percent_encoded(s: Seq<char>) -> Seq<char>;

/// What `urlencoding::decode` returns for the given text, or the text
/// itself when decoding fails.
pub uninterp spec fn percent_decoded_or_self(s: Seq<char>) -> Seq<char>;

/// Relies on urlencoding::encode: percent-encodes every byte except ASCII
/// alphanumerics and `-`, `_`, `.`, `~`; the result depends on the input
/// characters alone.
#[verifier::external_body]
fn percent_encode(s: &str) -> (r: String)
    ensures
        r@ == percent_encoded(s@),
{
    urlencoding::encode(s).into_owned()
}

/// Relies on urlencoding::decode: decodes `%XX` escapes assuming UTF-8;
/// when decoding fails the input is kept unchanged, so the result depends
/// on the input characters alone.
#[verifier::external_body]
fn percent_decode_or_self(s: &str) -> (r: String)
    ensures
        r@ == percent_decoded_or_self(s@),
{
    match urlencoding::decode(s) {
        Ok(c) => c.into_owned(),
        Err(_) => s.to_string(),
    }
}

/// The form a file-name variant takes, as an index: 0 is the literal text,
/// 1 its percent-decoded form, 2 its percent-encoded form.
pub open spec fn spec_variant(name: Seq<char>, v: int) -> Seq<char> {
    if v == 0 {
        name
    } else if v == 1 {
        percent_decoded_or_self(name)
    } else {
        percent_encoded(name)
    }
}

/// The three encoding variants of a bare file name under which the manifest
/// may reference it: the literal text, its percent-decoded form, and its
/// percent-encoded form.
pub fn encoding_variants(name: &str) -> (r: Vec<String>)
    ensures
        r@.len() == 3,
        forall|v: int| 0 <= v < 3 ==> r@[v]@ == spec_variant(name@, v),
{
    let mut r: Vec<String> = Vec::new();
    r.push(name.to_owned());
    r.push(percent_decode_or_self(name));
    r.push(percent_encode(name));
    r
}

} // verus!
