//! Persistent storage. A slot is a 32-byte key. It holds either a fixed
//! value of 1 to 256 bits, kept as one 32-byte word with the value in the
//! low-order bytes, or a byte string, kept by the host length and all. A
//! fixed value lies in memory in whole bytes: its width rounded up.

use vstd::prelude::*;
use crate::binary::{Binary, VECTOR_HEADER};
use crate::emit::{helper, host, host_to, lowered, malloc, reg, word};
use crate::host::Primitive;
use crate::ir::{Args, ArithOp, CompileError, Feature, Helper, Instr, Operand};
use crate::target::LachainTarget;

verus! {

/// Writes the fixed value of `bits` bits at `dest` to `slot`. A full word is
/// written as it stands; a narrower value is laid over a zeroed word first.
pub open spec fn set_storage_code(slot: Operand, dest: Operand, bits: u32, r: usize) -> Seq<
    Instr,
> {
    if bits == 256 {
        seq![host(Primitive::SaveStorage, Args::Two(slot, dest))]
    } else {
        seq![
            Instr::Alloca { dst: r, bytes: 32 },
            helper(Helper::Bzero8, Args::Two(reg(r, 0), word(4))),
            Instr::Load { dst: (r + 1) as usize, ptr: dest, bytes: width_bytes(bits) },
            Instr::Store { ptr: reg(r, 0), value: reg(r, 1) },
            host(Primitive::SaveStorage, Args::Two(slot, reg(r, 0))),
        ]
    }
}

/// Registers that `set_storage_code` binds.
pub open spec fn set_storage_regs(bits: u32) -> nat {
    if bits == 256 {
        0
    } else {
        2
    }
}

/// Reads the fixed value of `bits` bits in `slot` into register `r + 1`.
pub open spec fn get_storage_int_code(slot: Operand, bits: u32, r: usize) -> Seq<Instr> {
    seq![
        Instr::Alloca { dst: r, bytes: 32 },
        host(Primitive::LoadStorage, Args::Two(slot, reg(r, 0))),
        Instr::Load { dst: (r + 1) as usize, ptr: reg(r, 0), bytes: width_bytes(bits) },
    ]
}

/// Clears `slot` by writing a zeroed word.
pub open spec fn storage_delete_code(slot: Operand, r: usize) -> Seq<Instr> {
    seq![
        Instr::Alloca { dst: r, bytes: 32 },
        helper(Helper::Bzero8, Args::Two(reg(r, 0), word(4))),
        host(Primitive::SaveStorage, Args::Two(slot, reg(r, 0))),
    ]
}

/// Stores the length-prefixed buffer at `dest` as the byte string of `slot`.
pub open spec fn set_storage_string_code(slot: Operand, dest: Operand, r: usize) -> Seq<Instr> {
    seq![
        Instr::Load { dst: r, ptr: dest, bytes: 4 },
        Instr::Offset { dst: (r + 1) as usize, base: dest, delta: word(VECTOR_HEADER) },
        host(Primitive::SaveStorageString, Args::Three(slot, reg(r, 1), reg(r, 0))),
    ]
}

/// Reads the byte string of `slot` into a fresh length-prefixed buffer, to
/// which register `r + 2` points.
pub open spec fn get_storage_string_code(slot: Operand, r: usize) -> Seq<Instr> {
    seq![
        host_to(r, Primitive::GetStorageStringSize, Args::One(slot)),
        Instr::Arith {
            dst: (r + 1) as usize,
            op: ArithOp::Add,
            lhs: reg(r, 0),
            rhs: word(VECTOR_HEADER),
        },
        malloc((r + 2) as usize, reg(r, 1)),
        Instr::Store { ptr: reg(r, 2), value: reg(r, 0) },
        Instr::Offset { dst: (r + 3) as usize, base: reg(r, 2), delta: word(4) },
        Instr::Store { ptr: reg(r, 3), value: reg(r, 0) },
        Instr::Offset { dst: (r + 4) as usize, base: reg(r, 2), delta: word(VECTOR_HEADER) },
        host(Primitive::LoadStorageString, Args::Two(slot, reg(r, 4))),
    ]
}

/// A width that a fixed storage value can have: 1 to 256 bits.
pub open spec fn storage_width(bits: u32) -> bool {
    1 <= bits <= 256
}

/// The bytes that a value of `bits` bits takes in memory and in its
/// storage word: the width rounded up to whole bytes.
pub open spec fn spec_width_bytes(bits: u32) -> u32 {
    ((bits + 7) / 8) as u32
}

/// The bytes that a value of `bits` bits takes in memory and in its
/// storage word: the width rounded up to whole bytes.
#[verifier::when_used_as_spec(spec_width_bytes)]
pub fn width_bytes(bits: u32) -> (out: u32)
    requires
        bits <= 256,
    ensures
        out == spec_width_bytes(bits),
{
    (bits + 7) / 8
}

/// Why a lowering that handles a value of `bits` bits fails, if it does.
pub open spec fn width_refusal(b: Binary, bits: u32, needs: Seq<Primitive>, regs: nat) -> Option<
    CompileError,
> {
    if !storage_width(bits) {
        Some(CompileError::BadWidth(bits))
    } else {
        b.refusal(needs, regs)
    }
}

/// Whether `bits` is a width that a fixed storage value can have.
pub fn width_ok(bits: u32) -> (out: bool)
    ensures
        out == storage_width(bits),
{
    1 <= bits && bits <= 256
}

impl LachainTarget {
    /// Clears a slot. The host has no primitive for deleting: the slot is
    /// overwritten with a zeroed word.
    pub fn storage_delete_single_slot(&self, binary: &mut Binary, slot: Operand) -> (out: Result<
        (),
        CompileError,
    >)
        ensures
            lowered(
                out,
                *old(binary),
                *final(binary),
                old(binary).refusal(seq![Primitive::SaveStorage], 1),
                (),
                storage_delete_code(slot, old(binary).next_reg),
                1,
            ),
    {
        let ghost before = *binary;
        let needs = vec![Primitive::SaveStorage];
        assert(needs@ =~= seq![Primitive::SaveStorage]);
        match binary.begin(needs, 1) {
            Err(e) => Err(e),
            Ok(r) => {
                let code = vec![
                    Instr::Alloca { dst: r, bytes: 32 },
                    helper(Helper::Bzero8, Args::Two(reg(r, 0), word(4))),
                    host(Primitive::SaveStorage, Args::Two(slot, reg(r, 0))),
                ];
                assert(code@ =~= storage_delete_code(slot, r));
                binary.finish(code, Ghost(before), Ghost(1));
                Ok(())
            },
        }
    }

    /// Stores the length-prefixed buffer at `dest` as the byte string of
    /// `slot`: the host gets the key, the data behind the header, and the
    /// length from the header.
    pub fn set_storage_string(&self, binary: &mut Binary, slot: Operand, dest: Operand) -> (out:
        Result<(), CompileError>)
        ensures
            lowered(
                out,
                *old(binary),
                *final(binary),
                old(binary).refusal(seq![Primitive::SaveStorageString], 2),
                (),
                set_storage_string_code(slot, dest, old(binary).next_reg),
                2,
            ),
    {
        let ghost before = *binary;
        let needs = vec![Primitive::SaveStorageString];
        assert(needs@ =~= seq![Primitive::SaveStorageString]);
        match binary.begin(needs, 2) {
            Err(e) => Err(e),
            Ok(r) => {
                let code = vec![
                    Instr::Load { dst: r, ptr: dest, bytes: 4 },
                    Instr::Offset { dst: r + 1, base: dest, delta: word(VECTOR_HEADER) },
                    host(Primitive::SaveStorageString, Args::Three(slot, reg(r, 1), reg(r, 0))),
                ];
                assert(code@ =~= set_storage_string_code(slot, dest, r));
                binary.finish(code, Ghost(before), Ghost(2));
                Ok(())
            },
        }
    }

    /// Reads the byte string of `slot`: asks the host for its length,
    /// allocates a buffer of header and data, fills in the header, and lets
    /// the host load the data behind it. Answers the pointer to the buffer.
    pub fn get_storage_string(&self, binary: &mut Binary, slot: Operand) -> (out: Result<
        Operand,
        CompileError,
    >)
        ensures
            lowered(
                out,
                *old(binary),
                *final(binary),
                old(binary).refusal(
                    seq![Primitive::GetStorageStringSize, Primitive::LoadStorageString],
                    5,
                ),
                reg(old(binary).next_reg, 2),
                get_storage_string_code(slot, old(binary).next_reg),
                5,
            ),
    {
        let ghost before = *binary;
        let needs = vec![Primitive::GetStorageStringSize, Primitive::LoadStorageString];
        assert(needs@ =~= seq![Primitive::GetStorageStringSize, Primitive::LoadStorageString]);
        match binary.begin(needs, 5) {
            Err(e) => Err(e),
            Ok(r) => {
                let code = vec![
                    host_to(r, Primitive::GetStorageStringSize, Args::One(slot)),
                    Instr::Arith {
                        dst: r + 1,
                        op: ArithOp::Add,
                        lhs: reg(r, 0),
                        rhs: word(VECTOR_HEADER),
                    },
                    malloc(r + 2, reg(r, 1)),
                    Instr::Store { ptr: reg(r, 2), value: reg(r, 0) },
                    Instr::Offset { dst: r + 3, base: reg(r, 2), delta: word(4) },
                    Instr::Store { ptr: reg(r, 3), value: reg(r, 0) },
                    Instr::Offset { dst: r + 4, base: reg(r, 2), delta: word(VECTOR_HEADER) },
                    host(Primitive::LoadStorageString, Args::Two(slot, reg(r, 4))),
                ];
                assert(code@ =~= get_storage_string_code(slot, r));
                binary.finish(code, Ghost(before), Ghost(5));
                Ok(reg(r, 2))
            },
        }
    }

    /// External function pointers in storage are not lowered on this target.
    pub fn set_storage_extfunc(&self, binary: &mut Binary, slot: Operand, dest: Operand) -> (out:
        Result<(), CompileError>)
        ensures
            out == Err::<(), CompileError>(
                CompileError::Unsupported(Feature::StorageExternalFunction),
            ),
            *final(binary) == *old(binary),
    {
        Err(CompileError::Unsupported(Feature::StorageExternalFunction))
    }

    /// External function pointers in storage are not lowered on this target.
    pub fn get_storage_extfunc(&self, binary: &mut Binary, slot: Operand) -> (out: Result<
        Operand,
        CompileError,
    >)
        ensures
            out == Err::<Operand, CompileError>(
                CompileError::Unsupported(Feature::StorageExternalFunction),
            ),
            *final(binary) == *old(binary),
    {
        Err(CompileError::Unsupported(Feature::StorageExternalFunction))
    }

    /// Element reads on a byte string in storage are not lowered on this
    /// target.
    pub fn get_storage_bytes_subscript(
        &self,
        binary: &mut Binary,
        slot: Operand,
        index: Operand,
    ) -> (out: Result<Operand, CompileError>)
        ensures
            out == Err::<Operand, CompileError>(
                CompileError::Unsupported(Feature::StorageBytesSubscript),
            ),
            *final(binary) == *old(binary),
    {
        Err(CompileError::Unsupported(Feature::StorageBytesSubscript))
    }

    /// Element writes on a byte string in storage are not lowered on this
    /// target.
    pub fn set_storage_bytes_subscript(
        &self,
        binary: &mut Binary,
        slot: Operand,
        index: Operand,
        val: Operand,
    ) -> (out: Result<(), CompileError>)
        ensures
            out == Err::<(), CompileError>(
                CompileError::Unsupported(Feature::StorageBytesSubscript),
            ),
            *final(binary) == *old(binary),
    {
        Err(CompileError::Unsupported(Feature::StorageBytesSubscript))
    }

    /// `push` on a storage array is not lowered on this target.
    pub fn storage_push(&self, binary: &mut Binary, slot: Operand, val: Operand) -> (out: Result<
        Operand,
        CompileError,
    >)
        ensures
            out == Err::<Operand, CompileError>(CompileError::Unsupported(Feature::StoragePush)),
            *final(binary) == *old(binary),
    {
        Err(CompileError::Unsupported(Feature::StoragePush))
    }

    /// `pop` on a storage array is not lowered on this target.
    pub fn storage_pop(&self, binary: &mut Binary, slot: Operand) -> (out: Result<
        Operand,
        CompileError,
    >)
        ensures
            out == Err::<Operand, CompileError>(CompileError::Unsupported(Feature::StoragePop)),
            *final(binary) == *old(binary),
    {
        Err(CompileError::Unsupported(Feature::StoragePop))
    }

    /// Writes the fixed value of `bits` bits at `dest` to `slot`.
    pub fn set_storage(&self, binary: &mut Binary, slot: Operand, dest: Operand, bits: u32) -> (out:
        Result<(), CompileError>)
        ensures
            lowered(
                out,
                *old(binary),
                *final(binary),
                width_refusal(
                    *old(binary),
                    bits,
                    seq![Primitive::SaveStorage],
                    set_storage_regs(bits),
                ),
                (),
                set_storage_code(slot, dest, bits, old(binary).next_reg),
                set_storage_regs(bits),
            ),
    {
        let ghost before = *binary;
        if !width_ok(bits) {
            return Err(CompileError::BadWidth(bits));
        }
        let needs = vec![Primitive::SaveStorage];
        assert(needs@ =~= seq![Primitive::SaveStorage]);
        if bits == 256 {
            match binary.begin(needs, 0) {
                Err(e) => Err(e),
                Ok(r) => {
                    let code = vec![host(Primitive::SaveStorage, Args::Two(slot, dest))];
                    assert(code@ =~= set_storage_code(slot, dest, bits, r));
                    binary.finish(code, Ghost(before), Ghost(0));
                    Ok(())
                },
            }
        } else {
            match binary.begin(needs, 2) {
                Err(e) => Err(e),
                Ok(r) => {
                    let code = vec![
                        Instr::Alloca { dst: r, bytes: 32 },
                        helper(Helper::Bzero8, Args::Two(reg(r, 0), word(4))),
                        Instr::Load { dst: r + 1, ptr: dest, bytes: width_bytes(bits) },
                        Instr::Store { ptr: reg(r, 0), value: reg(r, 1) },
                        host(Primitive::SaveStorage, Args::Two(slot, reg(r, 0))),
                    ];
                    assert(code@ =~= set_storage_code(slot, dest, bits, r));
                    binary.finish(code, Ghost(before), Ghost(2));
                    Ok(())
                },
            }
        }
    }

    /// Reads the fixed value of `bits` bits in `slot`: loads the word into a
    /// scratch buffer and reads the value from its low-order bytes. Answers
    /// the register that holds the value.
    pub fn get_storage_int(&self, binary: &mut Binary, slot: Operand, bits: u32) -> (out: Result<
        Operand,
        CompileError,
    >)
        ensures
            lowered(
                out,
                *old(binary),
                *final(binary),
                width_refusal(*old(binary), bits, seq![Primitive::LoadStorage], 2),
                reg(old(binary).next_reg, 1),
                get_storage_int_code(slot, bits, old(binary).next_reg),
                2,
            ),
    {
        let ghost before = *binary;
        if !width_ok(bits) {
            return Err(CompileError::BadWidth(bits));
        }
        let needs = vec![Primitive::LoadStorage];
        assert(needs@ =~= seq![Primitive::LoadStorage]);
        match binary.begin(needs, 2) {
            Err(e) => Err(e),
            Ok(r) => {
                let code = vec![
                    Instr::Alloca { dst: r, bytes: 32 },
                    host(Primitive::LoadStorage, Args::Two(slot, reg(r, 0))),
                    Instr::Load { dst: r + 1, ptr: reg(r, 0), bytes: width_bytes(bits) },
                ];
                assert(code@ =~= get_storage_int_code(slot, bits, r));
                binary.finish(code, Ghost(before), Ghost(2));
                Ok(reg(r, 1))
            },
        }
    }
}

} // verus!
