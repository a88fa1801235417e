//! The per-configuration benchmark protocol.
//!
//! For one configuration, the driver instantiates a fresh guest, copies the
//! workload input into guest memory through the allocation interface, invokes
//! the conversion entry point, releases the input buffer, reads the result
//! back for correctness checking, and releases the result — in that order,
//! exactly once each, so double-release and use-after-release cannot occur.
//! The wall clock around the protocol and the virtual machine carrying the
//! real guest binary live outside the library; what is proved here is that
//! the protocol is well-ordered and that its outcome is the parser's output
//! for the input bytes, independent of the configuration.

use crate::config::BenchConfig;
use crate::guest::Guest;
use crate::workload::{wasm_valid, wat_output};
use crate::GuestFault;
use vstd::prelude::*;

verus! {

/// What the sandboxed conversion path produces for an input under a
/// configuration: the binary module, or nothing when the input is malformed.
/// The configuration decides how the sandbox is built, never what the
/// workload computes, so the outcome does not depend on it.
pub open spec fn sandboxed_output(config: BenchConfig, input: Seq<u8>) -> Option<Seq<u8>> {
    wat_output(input)
}

/// What the native baseline path produces for an input: the binary module,
/// or nothing when the input is malformed.
pub open spec fn native_output(input: Seq<u8>) -> Option<Seq<u8>> {
    wat_output(input)
}

/// Law: round-trip equivalence. Converting one input through the sandboxed
/// path yields the same bytes under every configuration — across pointer
/// widths, bounds-check strategies and mitigation settings — and those bytes
/// are identical to the native parse of the same input.
pub proof fn lemma_round_trip_equivalence(c1: BenchConfig, c2: BenchConfig, input: Seq<u8>)
    ensures
        sandboxed_output(c1, input) == sandboxed_output(c2, input),
        sandboxed_output(c1, input) == native_output(input),
{
}

/// Law: failure agreement. An input the native path rejects is rejected by
/// the sandboxed path under every configuration, and the other way round: no
/// configuration can succeed where another path fails and silently produce
/// divergent output.
pub proof fn lemma_failure_agreement(c: BenchConfig, input: Seq<u8>)
    ensures
        sandboxed_output(c, input) is None <==> native_output(input) is None,
{
}

/// One full benchmark invocation of the conversion workload under one
/// configuration: allocate, copy in, convert, release the input buffer,
/// query the result's address and length, copy the result out, release the
/// result. Returns the converted binary module; fails with
/// [`GuestFault::Malformed`] exactly when the input does not parse, and the
/// result never depends on the configuration.
pub fn run(config: &BenchConfig, input: &Vec<u8>) -> (r: Result<Vec<u8>, GuestFault>)
    requires
        input@.len() + 8 <= usize::MAX,
    ensures
        r is Ok ==> sandboxed_output(*config, input@) == Some(r->Ok_0@),
        (r matches Err(f) && f == GuestFault::Malformed) <==> sandboxed_output(
            *config,
            input@,
        ) is None,
        r matches Err(f) ==> f == GuestFault::Malformed || f == GuestFault::OutOfMemory,
        r matches Err(f) && f == GuestFault::OutOfMemory ==> sandboxed_output(*config, input@)
            is Some && input@.len() + sandboxed_output(*config, input@)->0.len() + 16
            > usize::MAX,
    {
    let mut guest = Guest::new();
    let len = input.len();
    let p = guest.malloc(len);
    guest.write(p, input.as_slice());
    proof {
        assert(guest.mem_bytes().subrange(p as int, p + len) == input@);
    }
    let handle = match guest.wat2wasm(p, len) {
        Ok(h) => h,
        Err(f) => {
            return Err(f);
        },
    };
    guest.free(p, len);
    let rp = guest.wasm_ptr(handle);
    let rl = guest.wasm_len(handle);
    let out = guest.read(rp, rl);
    proof {
        assert(guest.result_region(handle as int) == Some((rp, rl)));
        assert(guest.result_bytes(handle as int) == Some(out@));
    }
    guest.wasm_free(handle);
    Ok(out)
}

/// One full benchmark invocation of the validate-only workload under one
/// configuration: allocate, copy in, validate in place, release the buffer.
/// Succeeds exactly when the input bytes are a well-formed binary module;
/// like the conversion, the outcome never depends on the configuration.
pub fn run_validate(config: &BenchConfig, input: &Vec<u8>) -> (r: Result<(), GuestFault>)
    requires
        input@.len() + 8 <= usize::MAX,
    ensures
        r is Ok <==> wasm_valid(input@),
        r is Err ==> r->Err_0 == GuestFault::Invalid,
{
    let mut guest = Guest::new();
    let len = input.len();
    let p = guest.malloc(len);
    guest.write(p, input.as_slice());
    let outcome = guest.validate(p, len);
    guest.free(p, len);
    outcome
}

} // verus!
