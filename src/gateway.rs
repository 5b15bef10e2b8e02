//! The decisions of the boundary gateway: which key a command is signed
//! with, what the caller is told for each outcome of the dispatch, and the
//! bounds-checked copy of the result into the caller's buffer.
use crate::light_client::{LightClientCommand, LightClientResult};
use crate::types::Address;
use vstd::prelude::*;

verus! {

/// Parameters of a boundary call that do not belong to the command itself.
pub struct CommandParams {
    /// Where the key manager keeps the enclave's key material.
    pub home: String,
}

/// A command as it crosses the boundary.
pub struct ECallCommand {
    pub params: CommandParams,
    pub cmd: LightClientCommand,
}

impl ECallCommand {
    /// The signer whose key the command must be executed with.
    pub fn get_enclave_key(&self) -> (r: Option<Address>)
        ensures
            r == self.cmd.spec_enclave_key(),
    {
        self.cmd.get_enclave_key()
    }
}

/// What a boundary call hands back to the caller in its buffer: the result,
/// or the description of the failure.
pub enum CommandResult {
    LightClient(LightClientResult),
    CommandError(String),
}

/// The coarse status of a boundary call.
#[derive(Clone, Copy, Debug, PartialEq, Eq, Structural)]
pub enum EcallStatus {
    Success,
    Unexpected,
}

/// Why a result could not be handed back.
#[derive(Clone, Copy, Debug, PartialEq, Eq, Structural)]
pub enum BoundaryError {
    /// The caller's buffer is shorter than the encoded result.
    BufferTooSmall,
    /// The encoded result is longer than a 32-bit length can report.
    ResultTooLarge,
}

/// Turns the outcome of a dispatched command into the status of the call and
/// the result to hand back. The outer `Result` says whether the call itself
/// ran; the inner one whether the command succeeded. A command that ran
/// returns the success status, with its result or, for a business failure
/// (an unknown client, an unregistered signer, a height that does not
/// increase), with the failure's description. Only a call that could not run
/// returns the unexpected-error status, with its description.
pub fn complete_command(outcome: Result<Result<LightClientResult, String>, String>) -> (r: (
    EcallStatus,
    CommandResult,
))
    ensures
        match outcome {
            Ok(Ok(res)) => r.0 == EcallStatus::Success && r.1 == CommandResult::LightClient(res),
            Ok(Err(msg)) => r.0 == EcallStatus::Success && r.1 == CommandResult::CommandError(msg),
            Err(msg) => r.0 == EcallStatus::Unexpected && r.1 == CommandResult::CommandError(msg),
        },
{
    match outcome {
        Ok(Ok(res)) => (EcallStatus::Success, CommandResult::LightClient(res)),
        Ok(Err(msg)) => (EcallStatus::Success, CommandResult::CommandError(msg)),
        Err(msg) => (EcallStatus::Unexpected, CommandResult::CommandError(msg)),
    }
}

/// Copies the encoded result `res` to the start of the caller's buffer and
/// gives the number of bytes written. A buffer shorter than the result is
/// refused and left as it was.
pub fn copy_result(res: &[u8], output_buf: &mut [u8]) -> (r: Result<u32, BoundaryError>)
    ensures
        res@.len() > old(output_buf)@.len() ==> r == Err::<u32, BoundaryError>(
            BoundaryError::BufferTooSmall,
        ),
        res@.len() <= old(output_buf)@.len() && res@.len() > u32::MAX ==> r == Err::<
            u32,
            BoundaryError,
        >(BoundaryError::ResultTooLarge),
        res@.len() <= old(output_buf)@.len() && res@.len() <= u32::MAX ==> r == Ok::<
            u32,
            BoundaryError,
        >(res@.len() as u32),
        r is Ok ==> final(output_buf)@ == res@ + old(output_buf)@.subrange(
            res@.len() as int,
            old(output_buf)@.len() as int,
        ),
        r is Err ==> final(output_buf)@ == old(output_buf)@,
{
    if res.len() > output_buf.len() {
        return Err(BoundaryError::BufferTooSmall);
    }
    if res.len() > u32::MAX as usize {
        return Err(BoundaryError::ResultTooLarge);
    }
    let mut i: usize = 0;
    while i < res.len()
        invariant
            i <= res@.len() <= output_buf@.len(),
            output_buf@.len() == old(output_buf)@.len(),
            output_buf@ == res@.subrange(0, i as int) + old(output_buf)@.subrange(
                i as int,
                old(output_buf)@.len() as int,
            ),
        decreases res@.len() - i,
    {
        output_buf[i] = res[i];
        i = i + 1;
        assert(output_buf@ =~= res@.subrange(0, i as int) + old(output_buf)@.subrange(
            i as int,
            old(output_buf)@.len() as int,
        ));
    }
    assert(res@.subrange(0, i as int) =~= res@);
    Ok(res.len() as u32)
}

}
