//! Bytes and text.
use vstd::prelude::*;
use vstd::utf8::*;

verus! {

/// The text that a lossy UTF-8 reading makes of bytes.
pub uninterp spec fn lossy_text(bytes: Seq<u8>) -> Seq<char>;

/// Reads bytes as UTF-8, with a replacement character for what is invalid.
///
/// Calls `String::from_utf8_lossy`: the result depends on the bytes alone, and
/// on valid UTF-8 it is the text that the bytes encode.
#[verifier::external_body]
pub(crate) fn text_lossy(bytes: &[u8]) -> (out: String)
    ensures
        out@ == lossy_text(bytes@),
        valid_utf8(bytes@) ==> out@ == decode_utf8(bytes@),
{
    String::from_utf8_lossy(bytes).into_owned()
}

/// Reads bytes as UTF-8.
///
/// Calls `std::str::from_utf8`: the text that the bytes encode, or `None`
/// where they are no valid UTF-8.
#[verifier::external_body]
pub(crate) fn text_from_utf8(bytes: &[u8]) -> (out: Option<String>)
    ensures
        out is Some <==> valid_utf8(bytes@),
        out matches Some(text) ==> text@ == decode_utf8(bytes@),
{
    std::str::from_utf8(bytes).ok().map(String::from)
}

/// The order in which the bytes of a number are laid out.
#[derive(Clone, Copy, PartialEq, Eq, Debug, Structural)]
pub enum ByteOrder {
    Little,
    Big,
}

/// The two bytes of a 16-bit number in the machine's own order.
///
/// Calls `u16::to_ne_bytes`: the low byte comes first or last, as the machine
/// has it.
#[verifier::external_body]
fn native_bytes(value: u16) -> (out: [u8; 2])
    ensures
        (out@[0] == value % 256 && out@[1] == value / 256) || (out@[1] == value % 256 && out@[0]
            == value / 256),
{
    value.to_ne_bytes()
}

/// The machine's own byte order.
pub(crate) fn native_order() -> (out: ByteOrder) {
    let probe = native_bytes(1);
    if probe[0] == 1 {
        ByteOrder::Little
    } else {
        ByteOrder::Big
    }
}

/// Whether a number stands for a character.
pub open spec fn is_scalar(code: u32) -> bool {
    code < 0xd800 || 0xe000 <= code <= 0x10ffff
}

/// The character of a number.
///
/// Calls `char::from_u32`: every number up to the last character stands for
/// one, but for the surrogates.
#[verifier::external_body]
pub(crate) fn char_of(code: u32) -> (out: Option<char>)
    ensures
        (out is Some) == is_scalar(code),
        out matches Some(c) ==> c == code as char,
{
    char::from_u32(code)
}

} // verus!
