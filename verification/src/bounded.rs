//! Fixed-capacity text, backed by `heapless::String`.
//!
//! The buffer type belongs to the `heapless` crate. Its methods are reached
//! through the small functions at the end of this file, each of which states
//! what the method is taken to do.

use vstd::prelude::*;
use vstd::utf8::*;

verus! {

/// Number of bytes a status text may occupy.
pub const CAPACITY: usize = 20;

/// A text of at most [`CAPACITY`] bytes, stored without heap allocation.
pub type BoundedText = heapless::String<20>;

#[verifier::external_type_specification]
#[verifier::external_body]
pub struct ExHeaplessString<const N: usize>(heapless::String<N>);

/// The characters held by a bounded text.
pub uninterp spec fn text_of(s: heapless::String<20>) -> Seq<char>;

/// Length of `text` in bytes once encoded as UTF-8.
pub open spec fn utf8_len(text: Seq<char>) -> nat {
    encode_utf8(text).len()
}

/// Whether `text` can be stored in a bounded text.
pub open spec fn fits(text: Seq<char>) -> bool {
    utf8_len(text) <= CAPACITY
}

/// For plain ASCII text the byte length is the number of characters.
pub proof fn lemma_ascii_len(text: Seq<char>)
    requires
        is_ascii_chars(text),
    ensures
        utf8_len(text) == text.len(),
{
    is_ascii_chars_encode_utf8(text);
}

/// Every character takes at least one byte and at most four.
pub proof fn lemma_utf8_len_bounds(text: Seq<char>)
    ensures
        text.len() <= utf8_len(text) <= 4 * text.len(),
    decreases text.len(),
{
    if text.len() > 0 {
        lemma_utf8_len_bounds(text.drop_first());
        assert(1 <= encode_scalar(text[0] as u32).len() <= 4);
    }
}

/// A text was longer than a bounded text can hold. Nothing was stored.
#[derive(Clone, Copy, Debug, PartialEq, Eq, Structural)]
pub struct OverflowError;

/// Copies `text` into a fresh bounded text. A text that does not fit is
/// refused: no part of it is returned.
pub fn easy_format(text: &str) -> (r: Result<BoundedText, OverflowError>)
    ensures
        r is Ok <==> fits(text@),
        r matches Ok(out) ==> text_of(out) == text@,
{
    let mut out = new_text();
    assert(encode_utf8(Seq::<char>::empty()) =~= Seq::<u8>::empty());
    match push_str(&mut out, text) {
        Ok(()) => {
            assert(Seq::<char>::empty() + text@ =~= text@);
            Ok(out)
        },
        Err(()) => Err(OverflowError),
    }
}

/// `heapless::String::new`: the new string is empty.
#[verifier::external_body]
pub(crate) fn new_text() -> (s: BoundedText)
    ensures
        text_of(s) == Seq::<char>::empty(),
{
    heapless::String::new()
}

/// `heapless::String::push_str`: appends `text` when the bytes already stored
/// plus the bytes of `text` do not exceed the capacity, and otherwise reports
/// an error and leaves the string as it was.
#[verifier::external_body]
pub(crate) fn push_str(s: &mut BoundedText, text: &str) -> (r: Result<(), ()>)
    ensures
        r is Ok <==> utf8_len(text_of(*old(s))) + utf8_len(text@) <= CAPACITY,
        r is Ok ==> text_of(*final(s)) == text_of(*old(s)) + text@,
        r is Err ==> text_of(*final(s)) == text_of(*old(s)),
{
    s.push_str(text)
}

/// `Clone` for `heapless::String`: the copy holds the same text.
#[verifier::external_body]
pub(crate) fn copy_text(s: &BoundedText) -> (r: BoundedText)
    ensures
        text_of(r) == text_of(*s),
{
    s.clone()
}

} // verus!
