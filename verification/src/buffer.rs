//! The growing text buffer that tokens and rendered strings are built in.
use smartstring::{LazyCompact, SmartString};
use vstd::prelude::*;

verus! {

/// A text buffer kept in a `SmartString`, which stores short text inline. Nothing
/// inside it is visible here; its text goes by the name [`buffer_text`].
#[verifier::external_body]
pub struct TextBuffer {
    inner: SmartString<LazyCompact>,
}

/// The characters that a buffer holds, in order.
pub uninterp spec fn buffer_text(b: TextBuffer) -> Seq<char>;

/// Calls `SmartString::new`, which constructs an empty string.
#[verifier::external_body]
pub(crate) fn buffer_new() -> (b: TextBuffer)
    ensures
        buffer_text(b) == Seq::<char>::empty(),
{
    TextBuffer { inner: SmartString::new() }
}

/// Calls `SmartString::push`, which puts one character at the end of the string.
#[verifier::external_body]
pub(crate) fn buffer_push(b: &mut TextBuffer, c: char)
    ensures
        buffer_text(*final(b)) == buffer_text(*old(b)).push(c),
{
    b.inner.push(c)
}

/// Calls `SmartString::push_str`, which copies a string slice onto the end of the
/// string.
#[verifier::external_body]
pub(crate) fn buffer_push_str(b: &mut TextBuffer, s: &str)
    ensures
        buffer_text(*final(b)) == buffer_text(*old(b)) + s@,
{
    b.inner.push_str(s)
}

/// Calls `SmartString::as_str`, which lends the text as a string slice.
#[verifier::external_body]
pub(crate) fn buffer_as_str(b: &TextBuffer) -> (s: &str)
    ensures
        s@ == buffer_text(*b),
{
    b.inner.as_str()
}

/// Calls `String::from` on the `SmartString`, which hands its text over as a `String`.
#[verifier::external_body]
pub(crate) fn buffer_into_string(b: TextBuffer) -> (s: String)
    ensures
        s@ == buffer_text(b),
{
    String::from(b.inner)
}

} // verus!
