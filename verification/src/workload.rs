//! The benchmark workload: converting the WebAssembly text format into a
//! binary module, and validating a binary module.
//!
//! Both operations are performed by outside crates. Their results are pure
//! functions of the input bytes, named here by uninterpreted spec functions;
//! everything the library proves about the sandboxed and the native paths is
//! stated over those names.

use crate::GuestFault;
use vstd::prelude::*;

verus! {

/// What the text-format parser produces for the given input bytes: the binary
/// module, or nothing when the input is malformed. The parse is a function of
/// the bytes alone.
pub uninterp spec fn wat_output(s: Seq<u8>) -> Option<Seq<u8>>;

/// Whether the given bytes are a well-formed binary module under the
/// validator's default feature set. Validation is a function of the bytes
/// alone.
pub uninterp spec fn wasm_valid(s: Seq<u8>) -> bool;

/// Relies on wat::parse_bytes: it parses the bytes as the WebAssembly text
/// format and returns the encoded binary module, failing exactly on malformed
/// input. With default parser settings the result depends on the input bytes
/// alone.
#[verifier::external_body]
pub(crate) fn parse_wat(bytes: &[u8]) -> (r: Option<Vec<u8>>)
    ensures
        r is Some <==> wat_output(bytes@) is Some,
        r is Some ==> r->0@ == wat_output(bytes@)->0,
{
    match wat::parse_bytes(bytes) {
        Ok(out) => Some(out.into_owned()),
        Err(_) => None,
    }
}

/// Relies on wasmparser::Validator::validate_all: it checks that the bytes
/// are a well-formed binary module. With the default feature set the outcome
/// depends on the input bytes alone.
#[verifier::external_body]
pub(crate) fn validate_wasm(bytes: &[u8]) -> (r: bool)
    ensures
        r == wasm_valid(bytes@),
{
    wasmparser::Validator::new().validate_all(bytes).is_ok()
}

/// The native baseline conversion: parse the input bytes on the host, outside
/// any sandbox. Succeeds exactly when the input parses, returning the binary
/// module.
pub fn convert_native(input: &[u8]) -> (r: Result<Vec<u8>, GuestFault>)
    ensures
        r is Ok <==> wat_output(input@) is Some,
        r is Ok ==> r->Ok_0@ == wat_output(input@)->0,
        r is Err ==> r->Err_0 == GuestFault::Malformed,
{
    match parse_wat(input) {
        Some(out) => Ok(out),
        None => Err(GuestFault::Malformed),
    }
}

/// The native baseline validation: check the input bytes as a binary module
/// on the host, outside any sandbox. Succeeds exactly when the module is
/// well-formed.
pub fn validate_native(input: &[u8]) -> (r: Result<(), GuestFault>)
    ensures
        r is Ok <==> wasm_valid(input@),
        r is Err ==> r->Err_0 == GuestFault::Invalid,
{
    if validate_wasm(input) {
        Ok(())
    } else {
        Err(GuestFault::Invalid)
    }
}

} // verus!
