//! Shorthand for the instructions that every lowering is made of, and the
//! shape that the contract of a lowering takes.

use vstd::prelude::*;
use crate::binary::Binary;
use crate::host::Primitive;
use crate::ir::{Args, Callee, CompileError, Helper, Instr, Operand};

verus! {

/// A 32-bit constant.
pub open spec fn spec_word(v: u32) -> Operand {
    Operand::Const { bits: 32, value: v as u64 }
}

/// A 32-bit constant.
#[verifier::when_used_as_spec(spec_word)]
pub fn word(v: u32) -> (out: Operand)
    ensures
        out == spec_word(v),
{
    Operand::Const { bits: 32, value: v as u64 }
}

/// Zero, at a width of `bytes` bytes.
pub open spec fn spec_zero(bytes: u32) -> Operand {
    Operand::Const { bits: (8 * bytes) as u32, value: 0 }
}

/// Zero, at a width of `bytes` bytes.
#[verifier::when_used_as_spec(spec_zero)]
pub fn zero(bytes: u32) -> (out: Operand)
    requires
        8 * bytes <= u32::MAX,
    ensures
        out == spec_zero(bytes),
{
    Operand::Const { bits: 8 * bytes, value: 0 }
}

/// Register `base + k`.
pub open spec fn spec_reg(base: usize, k: usize) -> Operand {
    Operand::Reg((base + k) as usize)
}

/// Register `base + k`.
#[verifier::when_used_as_spec(spec_reg)]
pub fn reg(base: usize, k: usize) -> (out: Operand)
    requires
        base + k <= usize::MAX,
    ensures
        out == spec_reg(base, k),
{
    Operand::Reg(base + k)
}

/// A call of a host primitive whose result, if any, is dropped.
pub open spec fn spec_host(p: Primitive, args: Args) -> Instr {
    Instr::Call { result: None, callee: Callee::Host(p), args }
}

/// A call of a host primitive whose result, if any, is dropped.
#[verifier::when_used_as_spec(spec_host)]
pub fn host(p: Primitive, args: Args) -> (out: Instr)
    ensures
        out == spec_host(p, args),
{
    Instr::Call { result: None, callee: Callee::Host(p), args }
}

/// A call of a host primitive whose result goes to register `dst`.
pub open spec fn spec_host_to(dst: usize, p: Primitive, args: Args) -> Instr {
    Instr::Call { result: Some(dst), callee: Callee::Host(p), args }
}

/// A call of a host primitive whose result goes to register `dst`.
#[verifier::when_used_as_spec(spec_host_to)]
pub fn host_to(dst: usize, p: Primitive, args: Args) -> (out: Instr)
    ensures
        out == spec_host_to(dst, p, args),
{
    Instr::Call { result: Some(dst), callee: Callee::Host(p), args }
}

/// A call of a runtime helper that returns nothing.
pub open spec fn spec_helper(h: Helper, args: Args) -> Instr {
    Instr::Call { result: None, callee: Callee::Runtime(h), args }
}

/// A call of a runtime helper that returns nothing.
#[verifier::when_used_as_spec(spec_helper)]
pub fn helper(h: Helper, args: Args) -> (out: Instr)
    ensures
        out == spec_helper(h, args),
{
    Instr::Call { result: None, callee: Callee::Runtime(h), args }
}

/// A call of the allocator for `size` bytes; register `dst` takes the buffer.
pub open spec fn spec_malloc(dst: usize, size: Operand) -> Instr {
    Instr::Call { result: Some(dst), callee: Callee::Runtime(Helper::Malloc), args: Args::One(size) }
}

/// A call of the allocator for `size` bytes; register `dst` takes the buffer.
#[verifier::when_used_as_spec(spec_malloc)]
pub fn malloc(dst: usize, size: Operand) -> (out: Instr)
    ensures
        out == spec_malloc(dst, size),
{
    Instr::Call { result: Some(dst), callee: Callee::Runtime(Helper::Malloc), args: Args::One(size) }
}

/// The contract of a lowering: where `refusal` names an error, the lowering
/// answers it and leaves the module alone; else it answers `value`, appends
/// `code` to the function body and binds `regs` registers.
pub open spec fn lowered<T>(
    out: Result<T, CompileError>,
    before: Binary,
    after: Binary,
    refusal: Option<CompileError>,
    value: T,
    code: Seq<Instr>,
    regs: nat,
) -> bool {
    match refusal {
        Some(e) => out == Err::<T, CompileError>(e) && after == before,
        None => out == Ok::<T, CompileError>(value) && after.extends(before, code, regs),
    }
}

/// Two extensions in a row are one.
pub proof fn lemma_extends_chain(
    a: Binary,
    b: Binary,
    c: Binary,
    first: Seq<Instr>,
    second: Seq<Instr>,
    r1: nat,
    r2: nat,
)
    requires
        b.extends(a, first, r1),
        c.extends(b, second, r2),
    ensures
        c.extends(a, first + second, r1 + r2),
{
    assert((a.code@ + first) + second =~= a.code@ + (first + second));
}

impl Binary {
    /// Checks that the module declares every primitive of `needs`, and binds
    /// `regs` fresh registers, the first of which it answers.
    pub fn begin(&mut self, needs: Vec<Primitive>, regs: usize) -> (out: Result<
        usize,
        CompileError,
    >)
        ensures
            lowered(
                out,
                *old(self),
                *final(self),
                old(self).refusal(needs@, regs as nat),
                old(self).next_reg,
                Seq::empty(),
                regs as nat,
            ),
    {
        match self.check(&needs, regs) {
            Err(e) => Err(e),
            Ok(()) => self.take_regs(regs),
        }
    }

    /// Appends `code`, which `regs` registers were bound for just before.
    pub(crate) fn finish(&mut self, code: Vec<Instr>, Ghost(before): Ghost<Binary>, Ghost(regs): Ghost<nat>)
        requires
            old(self).extends(before, Seq::empty(), regs),
        ensures
            final(self).extends(before, code@, regs),
    {
        let ghost mid = *self;
        self.append(code);
        proof {
            lemma_extends_chain(before, mid, *self, Seq::empty(), code@, regs, 0);
            assert(Seq::<Instr>::empty() + code@ =~= code@);
        }
    }
}

} // verus!
