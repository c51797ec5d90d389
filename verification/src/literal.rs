//! The message an APPEND uploads: a binary literal when the server has the
//! BINARY extension, else a plain literal, which may not hold a NUL byte.
use vstd::prelude::*;

pub use imap_next::imap_types::error::ValidationError;

verus! {

#[verifier::external_type_specification]
#[verifier::external_body]
pub struct ExValidationError(imap_next::imap_types::error::ValidationError);

/// No byte of `data` is NUL.
pub open spec fn without_nul(data: Seq<u8>) -> bool {
    forall|i: int| 0 <= i < data.len() ==> data[i] != 0
}

/// Calls `imap_types::core::Literal::validate`, which accepts data that
/// holds no NUL byte and rejects any other. The error it gives (which byte,
/// where) is not stated.
#[verifier::external_body]
fn validate_literal(data: &[u8]) -> (r: Result<(), ValidationError>)
    ensures
        r is Ok <==> without_nul(data@),
{
    imap_next::imap_types::core::Literal::validate(data)
}

/// A message as APPEND sends it; both kinds are synchronizing literals.
#[derive(Debug, Clone)]
pub enum MessageLiteral {
    /// `~{n}`: any bytes.
    Literal8(Vec<u8>),
    /// `{n}`: bytes without NUL.
    Literal(Vec<u8>),
}

/// The literal a message is appended as: binary when the server announced
/// BINARY; else a plain literal, refused when the message holds a NUL byte.
pub fn to_static_literal(message: &[u8], ext_binary_supported: bool) -> (r: Result<
    MessageLiteral,
    ValidationError,
>)
    ensures
        ext_binary_supported ==> (r matches Ok(MessageLiteral::Literal8(d)) && d@ == message@),
        !ext_binary_supported ==> (r is Ok <==> without_nul(message@)),
        !ext_binary_supported ==> (r is Ok ==> (r matches Ok(MessageLiteral::Literal(d)) && d@
            == message@)),
{
    if ext_binary_supported {
        Ok(MessageLiteral::Literal8(vstd::slice::slice_to_vec(message)))
    } else {
        match validate_literal(message) {
            Ok(()) => Ok(MessageLiteral::Literal(vstd::slice::slice_to_vec(message))),
            Err(e) => Err(e),
        }
    }
}

} // verus!
