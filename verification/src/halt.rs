//! Termination. Every way in which an invocation ends goes through one
//! sequence: name the data to hand back, halt with a status, and mark the
//! point behind the halt as unreachable.

use vstd::prelude::*;
use crate::binary::Binary;
use crate::emit::{host, lowered, word};
use crate::host::Primitive;
use crate::ir::{Args, CompileError, Instr, Operand};
use crate::target::LachainTarget;

verus! {

/// Status of an invocation that ended well.
pub const STATUS_SUCCESS: u32 = 0;

/// Status of an invocation that was reverted.
pub const STATUS_REVERT: u32 = 1;

/// The termination sequence: hand back `len` bytes at `data` and halt with
/// `status`.
pub open spec fn halt_code(status: u32, data: Operand, len: Operand) -> Seq<Instr> {
    seq![
        host(Primitive::SetReturn, Args::Two(data, len)),
        host(Primitive::SystemHalt, Args::One(word(status))),
        Instr::Unreachable,
    ]
}

/// A revert that hands back nothing.
pub open spec fn bail_code() -> Seq<Instr> {
    halt_code(STATUS_REVERT, Operand::Null, word(0))
}

/// The primitives that termination calls.
pub open spec fn halt_needs() -> Seq<Primitive> {
    seq![Primitive::SetReturn, Primitive::SystemHalt]
}

/// The termination sequence as instructions.
pub(crate) fn halt_instrs(status: u32, data: Operand, len: Operand) -> (out: Vec<Instr>)
    ensures
        out@ == halt_code(status, data, len),
{
    let out = vec![
        host(Primitive::SetReturn, Args::Two(data, len)),
        host(Primitive::SystemHalt, Args::One(word(status))),
        Instr::Unreachable,
    ];
    assert(out@ =~= halt_code(status, data, len));
    out
}

impl LachainTarget {
    /// The single termination path.
    fn halt(&self, binary: &mut Binary, status: u32, data: Operand, len: Operand) -> (out: Result<
        (),
        CompileError,
    >)
        ensures
            lowered(
                out,
                *old(binary),
                *final(binary),
                old(binary).refusal(halt_needs(), 0),
                (),
                halt_code(status, data, len),
                0,
            ),
    {
        let ghost before = *binary;
        let needs = vec![Primitive::SetReturn, Primitive::SystemHalt];
        assert(needs@ =~= halt_needs());
        match binary.begin(needs, 0) {
            Err(e) => Err(e),
            Ok(_) => {
                binary.finish(halt_instrs(status, data, len), Ghost(before), Ghost(0));
                Ok(())
            },
        }
    }

    /// Ends the invocation successfully, handing back nothing.
    pub fn return_empty_abi(&self, binary: &mut Binary) -> (out: Result<(), CompileError>)
        ensures
            lowered(
                out,
                *old(binary),
                *final(binary),
                old(binary).refusal(halt_needs(), 0),
                (),
                halt_code(STATUS_SUCCESS, Operand::Null, word(0)),
                0,
            ),
    {
        self.halt(binary, STATUS_SUCCESS, Operand::Null, word(0))
    }

    /// Ends the invocation successfully, handing back `length` bytes at `data`.
    pub fn return_abi(&self, binary: &mut Binary, data: Operand, length: Operand) -> (out: Result<
        (),
        CompileError,
    >)
        ensures
            lowered(
                out,
                *old(binary),
                *final(binary),
                old(binary).refusal(halt_needs(), 0),
                (),
                halt_code(STATUS_SUCCESS, data, length),
                0,
            ),
    {
        self.halt(binary, STATUS_SUCCESS, data, length)
    }

    /// Ends the invocation on behalf of a function body that returned a
    /// code. The entry point of this target hands back no code of its own,
    /// so this is a revert with no data, whatever `ret` is.
    pub fn return_code(&self, binary: &mut Binary, ret: Operand) -> (out: Result<(), CompileError>)
        ensures
            lowered(
                out,
                *old(binary),
                *final(binary),
                old(binary).refusal(halt_needs(), 0),
                (),
                bail_code(),
                0,
            ),
    {
        self.assert_failure(binary, Operand::Null, word(0))
    }

    /// Reverts the invocation, handing back `len` bytes at `data`.
    pub fn assert_failure(&self, binary: &mut Binary, data: Operand, len: Operand) -> (out: Result<
        (),
        CompileError,
    >)
        ensures
            lowered(
                out,
                *old(binary),
                *final(binary),
                old(binary).refusal(halt_needs(), 0),
                (),
                halt_code(STATUS_REVERT, data, len),
                0,
            ),
    {
        self.halt(binary, STATUS_REVERT, data, len)
    }
}

} // verus!
