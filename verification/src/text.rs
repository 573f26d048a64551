//! The text order that directory listings are sorted by.
//!
//! Names are compared without regard to case: both are lowercased, and the
//! results are compared byte by byte in their UTF-8 encoding.

use vstd::prelude::*;
use vstd::string::*;
use vstd::utf8::*;

verus! {

/// The characters of an optional text.
pub open spec fn text_of(text: Option<String>) -> Option<Seq<char>> {
    match text {
        Some(text) => Some(text@),
        None => None,
    }
}

/// The lowercase form of a text, as `str::to_lowercase` of the standard
/// library gives it. The mapping follows the Unicode tables that the library
/// is built with, so it is named here rather than written out.
pub uninterp spec fn lowercase(text: Seq<char>) -> Seq<char>;

/// Calls `str::to_lowercase`. Trusted: the result is the lowercase form of
/// the argument, by definition of [`lowercase`].
#[verifier::external_body]
pub(crate) fn lowercase_of(text: &str) -> (lowered: String)
    ensures
        lowered@ == lowercase(text@),
{
    text.to_lowercase()
}

/// Whether `a`, read from position `from` on, is no greater than `b` read
/// from the same position, in lexicographic order of the bytes. A sequence
/// that ends first is the smaller one.
pub open spec fn bytes_le_from(a: Seq<u8>, b: Seq<u8>, from: nat) -> bool
    decreases a.len() - from,
{
    if from >= a.len() {
        true
    } else if from >= b.len() {
        false
    } else if a[from as int] != b[from as int] {
        a[from as int] < b[from as int]
    } else {
        bytes_le_from(a, b, from + 1)
    }
}

/// Lexicographic order of byte sequences.
pub open spec fn bytes_le(a: Seq<u8>, b: Seq<u8>) -> bool {
    bytes_le_from(a, b, 0)
}

/// The bytes a name is sorted by: the UTF-8 encoding of its lowercase form.
pub open spec fn sort_key(name: Seq<char>) -> Seq<u8> {
    encode_utf8(lowercase(name))
}

/// Case-insensitive order of names: `a` sorts no later than `b`.
pub open spec fn name_le(a: Seq<char>, b: Seq<char>) -> bool {
    bytes_le(sort_key(a), sort_key(b))
}

/// Of any two byte sequences, one is no greater than the other.
pub proof fn lemma_bytes_le_total(a: Seq<u8>, b: Seq<u8>, from: nat)
    ensures
        bytes_le_from(a, b, from) || bytes_le_from(b, a, from),
    decreases a.len() - from,
{
    if from < a.len() && from < b.len() && a[from as int] == b[from as int] {
        lemma_bytes_le_total(a, b, from + 1);
    }
}

/// The byte order is transitive.
pub proof fn lemma_bytes_le_transitive(a: Seq<u8>, b: Seq<u8>, c: Seq<u8>, from: nat)
    requires
        bytes_le_from(a, b, from),
        bytes_le_from(b, c, from),
    ensures
        bytes_le_from(a, c, from),
    decreases a.len() - from,
{
    if from < a.len() {
        if a[from as int] == b[from as int] && b[from as int] == c[from as int] {
            lemma_bytes_le_transitive(a, b, c, from + 1);
        }
    }
}

/// Decides the byte order.
pub fn bytes_no_greater(a: &[u8], b: &[u8]) -> (le: bool)
    ensures
        le == bytes_le(a@, b@),
{
    let mut i: usize = 0;
    while i < a.len() && i < b.len() && a[i] == b[i]
        invariant
            i <= a.len(),
            i <= b.len(),
            bytes_le(a@, b@) == bytes_le_from(a@, b@, i as nat),
        decreases a.len() - i,
    {
        i += 1;
    }
    if i >= a.len() {
        true
    } else if i >= b.len() {
        false
    } else {
        a[i] < b[i]
    }
}

/// Decides the case-insensitive order of two names from their lowercase
/// forms.
pub(crate) fn key_no_greater(a: &String, b: &String) -> (le: bool)
    ensures
        le == bytes_le(encode_utf8(a@), encode_utf8(b@)),
{
    bytes_no_greater(a.as_str().as_bytes(), b.as_str().as_bytes())
}

/// Decides the case-insensitive order of two names.
pub fn name_no_greater(a: &str, b: &str) -> (le: bool)
    ensures
        le == name_le(a@, b@),
{
    let a_key = lowercase_of(a);
    let b_key = lowercase_of(b);
    key_no_greater(&a_key, &b_key)
}

} // verus!
