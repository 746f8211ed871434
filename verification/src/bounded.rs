//! The fixed-capacity buffers of the `heapless` crate that the UART line
//! assembly works with, and the contracts of the methods it calls.
use vstd::prelude::*;
use vstd::string::StringSliceAdditionalSpecFns;

verus! {

#[verifier::external_type_specification]
#[verifier::external_body]
pub struct ExHeaplessString<const N: usize>(heapless::String<N>);

#[verifier::external_type_specification]
#[verifier::external_body]
#[verifier::reject_recursive_types(T)]
pub struct ExHeaplessVec<T, const N: usize>(heapless::Vec<T, N>);

/// Capacity in bytes of the line buffer.
pub const LINE_CAP: usize = 32;

/// Capacity in bytes of a message handed to the display.
pub const MESSAGE_CAP: usize = 16;

/// The UTF-8 bytes held by a line buffer.
pub uninterp spec fn line_bytes(s: heapless::String<32>) -> Seq<u8>;

/// The bytes held by a message buffer.
pub uninterp spec fn message_bytes(v: heapless::Vec<u8, 16>) -> Seq<u8>;

/// `heapless::String::new`: an empty string.
#[verifier::external_body]
pub(crate) fn line_new() -> (s: heapless::String<32>)
    ensures
        line_bytes(s) == Seq::<u8>::empty(),
{
    heapless::String::new()
}

/// `heapless::String::push_str`: appends the bytes of `text` when they fit in the
/// capacity, and otherwise leaves the string as it was and returns an error.
#[verifier::external_body]
pub(crate) fn line_push_str(s: &mut heapless::String<32>, text: &str) -> (r: Result<(), ()>)
    ensures
        (r is Ok) <==> line_bytes(*old(s)).len() + text.spec_bytes().len() <= LINE_CAP,
        r is Ok ==> line_bytes(*final(s)) == line_bytes(*old(s)) + text.spec_bytes(),
        r is Err ==> line_bytes(*final(s)) == line_bytes(*old(s)),
{
    s.push_str(text)
}

/// `heapless::String::clear`: removes every byte.
#[verifier::external_body]
pub(crate) fn line_clear(s: &mut heapless::String<32>)
    ensures
        line_bytes(*final(s)) == Seq::<u8>::empty(),
{
    s.clear()
}

/// `heapless::String::as_str`: the string's contents, whose UTF-8 bytes are the held bytes.
#[verifier::external_body]
pub(crate) fn line_as_str(s: &heapless::String<32>) -> (r: &str)
    ensures
        r.spec_bytes() == line_bytes(*s),
{
    s.as_str()
}

/// `heapless::Vec::new`: an empty vector.
#[verifier::external_body]
pub(crate) fn message_new() -> (v: heapless::Vec<u8, 16>)
    ensures
        message_bytes(v) == Seq::<u8>::empty(),
{
    heapless::Vec::new()
}

/// `heapless::Vec::extend_from_slice`: appends `other` when it fits in the
/// capacity, and otherwise leaves the vector as it was and returns an error.
#[verifier::external_body]
pub(crate) fn message_extend_from_slice(v: &mut heapless::Vec<u8, 16>, other: &[u8]) -> (r: Result<(), ()>)
    ensures
        (r is Ok) <==> message_bytes(*old(v)).len() + other@.len() <= MESSAGE_CAP,
        r is Ok ==> message_bytes(*final(v)) == message_bytes(*old(v)) + other@,
        r is Err ==> message_bytes(*final(v)) == message_bytes(*old(v)),
{
    v.extend_from_slice(other)
}

} // verus!
