//! Binary payloads as base64 text, as `cosmwasm_std::Binary` writes and
//! reads them.

use vstd::prelude::*;
use vstd::string::*;

verus! {

/// The base64 text that `cosmwasm_std::Binary::to_base64` writes for bytes.
pub uninterp spec fn base64_text(bytes: Seq<u8>) -> Seq<char>;

/// The error of `cosmwasm_std`, carried through as it comes.
#[verifier::external_type_specification]
#[verifier::external_body]
pub struct ExStdError(cosmwasm_std::StdError);

/// `cosmwasm_std::Binary::to_base64`: the bytes in the standard alphabet,
/// with padding. The text is a function of the bytes alone.
#[verifier::external_body]
pub(crate) fn to_base64(bytes: &Vec<u8>) -> (r: String)
    ensures
        r@ == base64_text(bytes@),
{
    cosmwasm_std::Binary::from(bytes.as_slice()).to_base64()
}

/// `cosmwasm_std::Binary::from_base64`: the bytes that the text stands for,
/// or an error where the text is not base64. It reads back what
/// `to_base64` wrote: the text of some bytes gives those bytes. Of any
/// other text nothing is claimed.
#[verifier::external_body]
pub(crate) fn from_base64(text: &str) -> (r: Result<Vec<u8>, cosmwasm_std::StdError>)
    ensures
        forall|b: Seq<u8>| base64_text(b) == text@ ==> r is Ok && r->Ok_0@ == b,
{
    match cosmwasm_std::Binary::from_base64(text) {
        Ok(b) => Ok(b.0),
        Err(e) => Err(e),
    }
}

} // verus!
