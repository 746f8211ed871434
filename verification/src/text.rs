//! Decoding of received bytes as UTF-8 text.
use vstd::prelude::*;
use vstd::string::StringSliceAdditionalSpecFns;
use vstd::utf8::*;

verus! {

#[verifier::external_type_specification]
#[verifier::external_body]
pub struct ExUtf8Error(core::str::Utf8Error);

/// `core::str::from_utf8`: succeeds exactly on valid UTF-8, and then returns the
/// text whose UTF-8 encoding is the given bytes.
#[verifier::external_body]
pub(crate) fn str_from_utf8(bytes: &[u8]) -> (r: Result<&str, core::str::Utf8Error>)
    ensures
        (r is Ok) <==> valid_utf8(bytes@),
        r matches Ok(s) ==> s.spec_bytes() == bytes@,
{
    core::str::from_utf8(bytes)
}

/// A byte below 0x80: the one-byte encodings of UTF-8, which are ASCII.
pub open spec fn is_ascii_byte(b: u8) -> bool {
    b < 0x80
}

/// The characters that a sequence of ASCII bytes stands for.
pub open spec fn ascii_chars(bytes: Seq<u8>) -> Seq<char> {
    bytes.map_values(|b: u8| b as char)
}

/// A single byte is valid UTF-8 exactly when it is an ASCII byte.
pub proof fn lemma_single_byte_utf8(b: u8)
    ensures
        valid_utf8(seq![b]) <==> is_ascii_byte(b),
{
    let s = seq![b];
    reveal_with_fuel(valid_utf8, 2);
    if is_ascii_byte(b) {
        assert(valid_first_scalar(s));
        assert(pop_first_scalar(s) =~= Seq::<u8>::empty());
    }
}

/// Bytes that are all ASCII are valid UTF-8 and decode to one character per byte.
pub proof fn lemma_ascii_decodes(bytes: Seq<u8>)
    requires
        forall|i: int| 0 <= i < bytes.len() ==> is_ascii_byte(#[trigger] bytes[i]),
    ensures
        valid_utf8(bytes),
        decode_utf8(bytes) == ascii_chars(bytes),
    decreases bytes.len(),
{
    if bytes.len() > 0 {
        let rest = bytes.subrange(1, bytes.len() as int);
        let b0 = bytes[0];
        assert(b0 & 0x7f == b0) by (bit_vector)
            requires
                b0 < 0x80,
        ;
        assert(valid_first_scalar(bytes));
        assert(length_of_first_scalar(bytes) == 1);
        assert(pop_first_scalar(bytes) =~= rest);
        lemma_ascii_decodes(rest);
        assert(decode_first_scalar(bytes) == bytes[0] as u32);
        assert(decode_utf8(bytes) =~= ascii_chars(bytes));
    } else {
        assert(decode_utf8(bytes) =~= ascii_chars(bytes));
    }
}

} // verus!
