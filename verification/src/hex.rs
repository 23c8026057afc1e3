//! Colours written as hexadecimal digits.

use vstd::prelude::*;
use rustc_serialize::hex::{FromHex, FromHexError};

verus! {

/// The error of `rustc_serialize`'s hexadecimal decoder. Nothing is known of a
/// value but what [`hex_error`] reads from it.
#[verifier::external_type_specification]
#[verifier::external_body]
pub struct ExFromHexError(FromHexError);

/// Why a text is not hexadecimal.
#[derive(Debug, Clone, Copy, PartialEq, Eq, Structural)]
pub enum HexError {
    /// The character, at the byte offset, is no hexadecimal digit.
    InvalidHexCharacter(char, usize),
    /// The number of digits is odd, or not the number that was asked for.
    InvalidHexLength,
}

/// The bytes that `rustc_serialize` decodes from a text of hexadecimal
/// digits, or `None` where it refuses the text.
pub uninterp spec fn hex_bytes(text: Seq<char>) -> Option<Seq<u8>>;

/// Calls `rustc_serialize::hex::FromHex::from_hex` on the text. The decoder
/// reads nothing but the text, so what it returns is a function of the text:
/// the contract names the decoded bytes [`hex_bytes`] and says no more of them.
#[verifier::external_body]
fn decode_hex(text: &str) -> (r: Result<Vec<u8>, FromHexError>)
    ensures
        match r {
            Ok(bytes) => hex_bytes(text@) == Some(bytes@),
            Err(_) => hex_bytes(text@) is None,
        },
{
    text.from_hex()
}

/// Tells the two variants of `rustc_serialize::hex::FromHexError` apart and
/// moves the fields over. Nothing is claimed of which variant an error is.
#[verifier::external_body]
fn hex_error(error: FromHexError) -> HexError {
    match error {
        FromHexError::InvalidHexCharacter(character, offset) => HexError::InvalidHexCharacter(
            character,
            offset,
        ),
        FromHexError::InvalidHexLength => HexError::InvalidHexLength,
    }
}

/// The colour that decoded bytes stand for: exactly four bytes, red first.
pub open spec fn spec_color(decoded: Option<Seq<u8>>) -> Option<[u8; 4]> {
    match decoded {
        Some(bytes) => if bytes.len() == 4 {
            Some([bytes[0], bytes[1], bytes[2], bytes[3]])
        } else {
            None
        },
        None => None,
    }
}

/// Turns what the decoder returned into a colour. Four bytes are a colour;
/// any other number is [`HexError::InvalidHexLength`]; a decoder's error is
/// handed on.
pub fn color_from_decoded(decoded: Result<Vec<u8>, HexError>) -> (r: Result<[u8; 4], HexError>)
    ensures
        match decoded {
            Ok(bytes) => if bytes@.len() == 4 {
                r == Ok::<[u8; 4], HexError>([bytes@[0], bytes@[1], bytes@[2], bytes@[3]])
            } else {
                r == Err::<[u8; 4], HexError>(HexError::InvalidHexLength)
            },
            Err(e) => r == Err::<[u8; 4], HexError>(e),
        },
{
    match decoded {
        Ok(bytes) => {
            if bytes.len() != 4 {
                Err(HexError::InvalidHexLength)
            } else {
                let color = [bytes[0], bytes[1], bytes[2], bytes[3]];
                assert(color@ =~= seq![bytes@[0], bytes@[1], bytes@[2], bytes@[3]]);
                Ok(color)
            }
        },
        Err(e) => Err(e),
    }
}

/// Reads a colour of eight hexadecimal digits, red first.
pub fn parse_color(text: &str) -> (r: Result<[u8; 4], HexError>)
    ensures
        match r {
            Ok(color) => spec_color(hex_bytes(text@)) == Some(color),
            Err(e) => spec_color(hex_bytes(text@)) is None && (hex_bytes(text@) is Some ==> e
                == HexError::InvalidHexLength),
        },
{
    let decoded = match decode_hex(text) {
        Ok(bytes) => Ok(bytes),
        Err(e) => Err(hex_error(e)),
    };
    color_from_decoded(decoded)
}

} // verus!
