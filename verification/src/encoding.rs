use crate::text::{decimal, decimal_string};
use vstd::prelude::*;
use vstd::string::StringExecFns;

verus! {

/// Why a text is no valid Base64, with the place and the byte where the
/// decoder names them.
#[derive(Debug, Clone, Copy, PartialEq, Eq, Structural)]
pub enum DecodeFailure {
    InvalidByte(usize, u8),
    InvalidLength,
    InvalidLastSymbol(usize, u8),
    InvalidPadding,
}

/// What `base64::decode` makes of a text: the bytes that it stands for in
/// the standard alphabet with padding, or why it stands for none.
pub uninterp spec fn base64_decoding(text: Seq<char>) -> Result<Seq<u8>, DecodeFailure>;

pub open spec fn decoding_model(r: Result<Vec<u8>, DecodeFailure>) -> Result<Seq<u8>, DecodeFailure> {
    match r {
        Ok(bytes) => Ok(bytes@),
        Err(e) => Err(e),
    }
}

/// Decodes Base64 with `decode` of the crate `base64`, which uses the
/// standard alphabet and wants canonical padding. The contract claims
/// only that the outcome is a function of the text handed in.
#[verifier::external_body]
pub(crate) fn decode(text: &str) -> (r: Result<Vec<u8>, DecodeFailure>)
    ensures
        decoding_model(r) == base64_decoding(text@),
{
    #[allow(deprecated)]
    match base64::decode(text) {
        Ok(bytes) => Ok(bytes),
        Err(base64::DecodeError::InvalidByte(at, byte)) => Err(DecodeFailure::InvalidByte(at, byte)),
        Err(base64::DecodeError::InvalidLength) => Err(DecodeFailure::InvalidLength),
        Err(base64::DecodeError::InvalidLastSymbol(at, byte)) => Err(
            DecodeFailure::InvalidLastSymbol(at, byte),
        ),
        Err(base64::DecodeError::InvalidPadding) => Err(DecodeFailure::InvalidPadding),
    }
}

/// A failure to decode as a line of text.
pub open spec fn failure_text(e: DecodeFailure) -> Seq<char> {
    match e {
        DecodeFailure::InvalidByte(at, byte) => "Invalid byte "@ + decimal(byte as nat)
            + ", offset "@ + decimal(at as nat) + "."@,
        DecodeFailure::InvalidLength => "Encoded text cannot have a 6-bit remainder."@,
        DecodeFailure::InvalidLastSymbol(at, byte) => "Invalid last symbol "@ + decimal(
            byte as nat,
        ) + ", offset "@ + decimal(at as nat) + "."@,
        DecodeFailure::InvalidPadding => "Invalid padding"@,
    }
}

impl DecodeFailure {
    /// The failure as a line of text.
    pub fn message(&self) -> (text: String)
        ensures
            text@ == failure_text(*self),
    {
        match self {
            DecodeFailure::InvalidByte(at, byte) => "Invalid byte ".to_owned().concat(
                decimal_string(*byte as usize).as_str(),
            ).concat(", offset ").concat(decimal_string(*at).as_str()).concat("."),
            DecodeFailure::InvalidLength => "Encoded text cannot have a 6-bit remainder.".to_owned(),
            DecodeFailure::InvalidLastSymbol(at, byte) => "Invalid last symbol ".to_owned().concat(
                decimal_string(*byte as usize).as_str(),
            ).concat(", offset ").concat(decimal_string(*at).as_str()).concat("."),
            DecodeFailure::InvalidPadding => "Invalid padding".to_owned(),
        }
    }
}

} // verus!
