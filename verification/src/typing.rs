//! A check of emitted code before it is rendered: every register is bound
//! once and before it is used, every operand has the kind that its place
//! asks for, every call has the arguments of its callee, and every callee
//! is declared.

use vstd::prelude::*;
use crate::binary::Binary;
use crate::host::ParamTy;
use crate::ir::{Args, Callee, Helper, Instr, Operand, Predicate};
use crate::machine::valid_width;

verus! {

/// What a register holds.
#[derive(Clone, Copy, Debug, PartialEq, Eq, Structural)]
pub enum Kind {
    /// Nothing yet.
    Unbound,
    /// A pointer into linear memory.
    Pointer,
    /// An integer of this many bits.
    Int(u32),
    /// The outcome of a comparison.
    Flag,
}

/// Why code does not pass the check.
#[derive(Clone, Copy, Debug, PartialEq, Eq, Structural)]
pub enum Reason {
    /// A register is used before it is bound.
    UnboundRegister,
    /// A register is bound a second time.
    ReboundRegister,
    /// A pointer is asked for, and the operand is neither a pointer nor a
    /// 32-bit integer.
    NotAPointer,
    /// A 32-bit integer is asked for, and the operand is neither that nor a
    /// pointer.
    NotAWord,
    /// The condition of a skip is not the outcome of a comparison.
    NotAFlag,
    /// A width is not a whole number of bytes between 1 and 32.
    BadWidth,
    /// The two sides of a comparison differ in width, or an unsigned
    /// comparison is not on 32-bit words.
    WidthMismatch,
    /// A call has not as many arguments as its callee has parameters.
    Arity,
    /// An argument has not the type of its parameter.
    BadArgument,
    /// The module does not declare the primitive.
    Undeclared,
    /// A result register stands on a callee that returns nothing.
    NoResult,
    /// The codec has no job with this index.
    UnknownJob,
    /// The module has no datum with this index.
    UnknownGlobal,
    /// A skip leaves the code.
    SkipTooFar,
}

/// Where and why code does not pass the check.
#[derive(Clone, Copy, Debug, PartialEq, Eq, Structural)]
pub struct TypeError {
    /// Index of the instruction.
    pub pc: usize,
    pub reason: Reason,
}

/// Whether a value of this kind can stand where a pointer or a 32-bit
/// integer is asked for: pointers are 32 bits wide on this target.
pub open spec fn word_like(k: Kind) -> bool {
    k == Kind::Pointer || k == Kind::Int(32)
}

/// The width in bits of a value that can be compared.
pub open spec fn width_of(k: Kind) -> Option<u32> {
    match k {
        Kind::Pointer => Some(32u32),
        Kind::Int(n) => Some(n),
        _ => None,
    }
}

/// Whether register `r` is still to be bound.
pub open spec fn is_free(kinds: Seq<Kind>, r: usize) -> bool {
    r >= kinds.len() || kinds[r as int] == Kind::Unbound
}

/// The kinds with register `r` bound to `k`.
pub open spec fn bound(kinds: Seq<Kind>, r: usize, k: Kind) -> Seq<Kind> {
    if r < kinds.len() {
        kinds.update(r as int, k)
    } else {
        kinds + Seq::new((r - kinds.len()) as nat, |i: int| Kind::Unbound) + seq![k]
    }
}

/// Binding register `r` to `k`, which is only possible once.
pub open spec fn binding(kinds: Seq<Kind>, r: usize, k: Kind) -> Result<Seq<Kind>, Reason> {
    if is_free(kinds, r) {
        Ok(bound(kinds, r, k))
    } else {
        Err(Reason::ReboundRegister)
    }
}

/// The kind of an operand.
pub open spec fn operand_kind(kinds: Seq<Kind>, op: Operand, b: Binary) -> Result<Kind, Reason> {
    match op {
        Operand::Reg(r) => if r < kinds.len() && kinds[r as int] != Kind::Unbound {
            Ok(kinds[r as int])
        } else {
            Err(Reason::UnboundRegister)
        },
        Operand::Const { bits, value } => if valid_width(bits) {
            Ok(Kind::Int(bits))
        } else {
            Err(Reason::BadWidth)
        },
        Operand::Null => Ok(Kind::Pointer),
        Operand::Global(g) => if g < b.globals@.len() {
            Ok(Kind::Pointer)
        } else {
            Err(Reason::UnknownGlobal)
        },
    }
}

/// Why `op` cannot stand where a value that passes `accepts` is asked
/// for, if it cannot; `otherwise` is the reason for a value of another
/// kind.
pub open spec fn operand_fault(
    kinds: Seq<Kind>,
    op: Operand,
    b: Binary,
    accepts: spec_fn(Kind) -> bool,
    otherwise: Reason,
) -> Option<Reason> {
    match operand_kind(kinds, op, b) {
        Ok(k) => if accepts(k) {
            None
        } else {
            Some(otherwise)
        },
        Err(e) => Some(e),
    }
}

/// Why `op` cannot stand where a pointer is asked for, if it cannot.
pub open spec fn pointer_fault(kinds: Seq<Kind>, op: Operand, b: Binary) -> Option<Reason> {
    operand_fault(kinds, op, b, |k: Kind| word_like(k), Reason::NotAPointer)
}

/// Why `op` cannot stand where a 32-bit integer is asked for, if it
/// cannot.
pub open spec fn word_fault(kinds: Seq<Kind>, op: Operand, b: Binary) -> Option<Reason> {
    operand_fault(kinds, op, b, |k: Kind| word_like(k), Reason::NotAWord)
}

/// Why `op` cannot be the argument for a parameter of type `ty`, if it
/// cannot.
pub open spec fn argument_fault(kinds: Seq<Kind>, op: Operand, ty: ParamTy, b: Binary) -> Option<
    Reason,
> {
    match ty {
        ParamTy::U8 => operand_fault(kinds, op, b, |k: Kind| k == Kind::Int(8), Reason::BadArgument),
        _ => operand_fault(kinds, op, b, |k: Kind| word_like(k), Reason::BadArgument),
    }
}

/// The first fault among the arguments from index `i` on.
pub open spec fn arguments_fault(
    kinds: Seq<Kind>,
    args: Seq<Operand>,
    params: Seq<ParamTy>,
    b: Binary,
    i: nat,
) -> Option<Reason>
    decreases args.len() - i,
{
    if i >= args.len() || i >= params.len() {
        None
    } else {
        match argument_fault(kinds, args[i as int], params[i as int], b) {
            Some(e) => Some(e),
            None => arguments_fault(kinds, args, params, b, i + 1),
        }
    }
}

/// The parameters of a callee.
pub open spec fn callee_params(callee: Callee) -> Seq<ParamTy> {
    match callee {
        Callee::Host(p) => p.params_of(),
        Callee::Runtime(h) => h.params_of(),
    }
}

/// What a callee returns.
pub open spec fn callee_result(callee: Callee) -> Kind {
    match callee {
        Callee::Host(p) => if p.returns_word() {
            Kind::Int(32)
        } else {
            Kind::Unbound
        },
        Callee::Runtime(h) => if h.returns_pointer() {
            Kind::Pointer
        } else {
            Kind::Unbound
        },
    }
}

/// Checks a call: the callee is declared, the arguments are those of its
/// parameters, and a result register stands only on a callee that returns
/// something.
pub open spec fn call_kinds(
    kinds: Seq<Kind>,
    result: Option<usize>,
    callee: Callee,
    args: Args,
    b: Binary,
) -> Result<Seq<Kind>, Reason> {
    if callee matches Callee::Host(p) && !b.declares(p) {
        Err(Reason::Undeclared)
    } else if args.list().len() != callee_params(callee).len() {
        Err(Reason::Arity)
    } else {
        match arguments_fault(kinds, args.list(), callee_params(callee), b, 0) {
            Some(e) => Err(e),
            None => match result {
                None => Ok(kinds),
                Some(r) => if callee_result(callee) == Kind::Unbound {
                    Err(Reason::NoResult)
                } else {
                    binding(kinds, r, callee_result(callee))
                },
            },
        }
    }
}

/// Checks a comparison.
pub open spec fn compare_kinds(
    kinds: Seq<Kind>,
    dst: usize,
    pred: Predicate,
    lhs: Operand,
    rhs: Operand,
    b: Binary,
) -> Result<Seq<Kind>, Reason> {
    match (operand_kind(kinds, lhs, b), operand_kind(kinds, rhs, b)) {
        (Err(e), _) => Err(e),
        (_, Err(e)) => Err(e),
        (Ok(x), Ok(y)) => if width_of(x).is_none() || width_of(x) != width_of(y) || (pred
            == Predicate::Uge && width_of(x) != Some(32u32)) {
            Err(Reason::WidthMismatch)
        } else {
            binding(kinds, dst, Kind::Flag)
        },
    }
}

/// Checks the instruction at index `pc` and answers the kinds behind it.
pub open spec fn instr_kinds(kinds: Seq<Kind>, instr: Instr, b: Binary, pc: nat) -> Result<
    Seq<Kind>,
    Reason,
> {
    match instr {
        Instr::Alloca { dst, bytes } => if bytes < 1 {
            Err(Reason::BadWidth)
        } else {
            binding(kinds, dst, Kind::Pointer)
        },
        Instr::Load { dst, ptr, bytes } => match pointer_fault(kinds, ptr, b) {
            Some(e) => Err(e),
            None => if 1 <= bytes <= 32 {
                binding(kinds, dst, Kind::Int((8 * bytes) as u32))
            } else {
                Err(Reason::BadWidth)
            },
        },
        Instr::Store { ptr, value } => match pointer_fault(kinds, ptr, b) {
            Some(e) => Err(e),
            None => match operand_kind(kinds, value, b) {
                Ok(k) => if width_of(k).is_some() {
                    Ok(kinds)
                } else {
                    Err(Reason::BadWidth)
                },
                Err(e) => Err(e),
            },
        },
        Instr::Offset { dst, base, delta } => match pointer_fault(kinds, base, b) {
            Some(e) => Err(e),
            None => match word_fault(kinds, delta, b) {
                Some(e) => Err(e),
                None => binding(kinds, dst, Kind::Pointer),
            },
        },
        Instr::Arith { dst, op, lhs, rhs } => match word_fault(kinds, lhs, b) {
            Some(e) => Err(e),
            None => match word_fault(kinds, rhs, b) {
                Some(e) => Err(e),
                None => binding(kinds, dst, Kind::Int(32)),
            },
        },
        Instr::Compare { dst, pred, lhs, rhs } => compare_kinds(kinds, dst, pred, lhs, rhs, b),
        Instr::Call { result, callee, args } => call_kinds(kinds, result, callee, args, b),
        Instr::EncodedLength { dst, job } => if job < b.jobs@.len() {
            binding(kinds, dst, Kind::Int(32))
        } else {
            Err(Reason::UnknownJob)
        },
        Instr::Encode { dest, job } => if job < b.jobs@.len() {
            match pointer_fault(kinds, dest, b) {
                Some(e) => Err(e),
                None => Ok(kinds),
            }
        } else {
            Err(Reason::UnknownJob)
        },
        Instr::EncodeVector { dst, job } => if job < b.jobs@.len() {
            binding(kinds, dst, Kind::Pointer)
        } else {
            Err(Reason::UnknownJob)
        },
        Instr::Decode { first, data, len, job } => if job < b.jobs@.len() {
            match pointer_fault(kinds, data, b) {
                Some(e) => Err(e),
                None => match word_fault(kinds, len, b) {
                    Some(e) => Err(e),
                    None => Ok(kinds),
                },
            }
        } else {
            Err(Reason::UnknownJob)
        },
        Instr::Invoke { function, first, count } => Ok(kinds),
        Instr::SkipIf { cond, count } => match operand_fault(
            kinds,
            cond,
            b,
            |k: Kind| k == Kind::Flag,
            Reason::NotAFlag,
        ) {
            Some(e) => Err(e),
            None => if pc + 1 + count <= b.code@.len() {
                Ok(kinds)
            } else {
                Err(Reason::SkipTooFar)
            },
        },
        Instr::Unreachable => Ok(kinds),
    }
}

/// Checks the code of `b` from instruction `pc` on, with the registers of
/// `kinds` bound.
pub open spec fn code_kinds(b: Binary, pc: nat, kinds: Seq<Kind>) -> Result<Seq<Kind>, TypeError>
    decreases b.code@.len() - pc,
{
    if pc >= b.code@.len() {
        Ok(kinds)
    } else {
        match instr_kinds(kinds, b.code@[pc as int], b, pc) {
            Ok(next) => code_kinds(b, pc + 1, next),
            Err(reason) => Err(TypeError { pc: pc as usize, reason }),
        }
    }
}

/// Binds register `r` to `k`.
fn bind(kinds: &mut Vec<Kind>, r: usize, k: Kind) -> (out: Result<(), Reason>)
    ensures
        match binding(old(kinds)@, r, k) {
            Ok(next) => out is Ok && final(kinds)@ == next,
            Err(e) => out == Err::<(), Reason>(e) && final(kinds)@ == old(kinds)@,
        },
{
    if r < kinds.len() {
        match kinds[r] {
            Kind::Unbound => {
                kinds.set(r, k);
                Ok(())
            },
            _ => Err(Reason::ReboundRegister),
        }
    } else {
        while kinds.len() < r
            invariant
                old(kinds)@.len() <= kinds@.len() <= r,
                kinds@ =~= old(kinds)@ + Seq::new(
                    (kinds@.len() - old(kinds)@.len()) as nat,
                    |i: int| Kind::Unbound,
                ),
            decreases r - kinds@.len(),
        {
            kinds.push(Kind::Unbound);
        }
        kinds.push(k);
        assert(kinds@ =~= bound(old(kinds)@, r, k));
        Ok(())
    }
}

/// The kind of an operand.
fn kind_of(kinds: &Vec<Kind>, op: Operand, b: &Binary) -> (out: Result<Kind, Reason>)
    ensures
        out == operand_kind(kinds@, op, *b),
{
    match op {
        Operand::Reg(r) => {
            if r < kinds.len() {
                match kinds[r] {
                    Kind::Unbound => Err(Reason::UnboundRegister),
                    k => Ok(k),
                }
            } else {
                Err(Reason::UnboundRegister)
            }
        },
        Operand::Const { bits, value } => {
            if bits % 8 == 0 && 8 <= bits && bits <= 256 {
                Ok(Kind::Int(bits))
            } else {
                Err(Reason::BadWidth)
            }
        },
        Operand::Null => Ok(Kind::Pointer),
        Operand::Global(g) => {
            if g < b.globals.len() {
                Ok(Kind::Pointer)
            } else {
                Err(Reason::UnknownGlobal)
            }
        },
    }
}

/// Whether a value of this kind can stand where a pointer or a 32-bit
/// integer is asked for.
pub fn is_word_like(k: Kind) -> (out: bool)
    ensures
        out == word_like(k),
{
    match k {
        Kind::Pointer => true,
        Kind::Int(n) => n == 32,
        _ => false,
    }
}

/// Checks that `op` can stand where a pointer or a word is asked for.
fn need_word(kinds: &Vec<Kind>, op: Operand, b: &Binary, otherwise: Reason) -> (out: Option<Reason>)
    ensures
        out == operand_fault(kinds@, op, *b, |k: Kind| word_like(k), otherwise),
{
    match kind_of(kinds, op, b) {
        Ok(k) => if is_word_like(k) {
            None
        } else {
            Some(otherwise)
        },
        Err(e) => Some(e),
    }
}

/// Checks that `op` can be the argument for a parameter of type `ty`.
fn need_argument(kinds: &Vec<Kind>, op: Operand, ty: ParamTy, b: &Binary) -> (out: Option<Reason>)
    ensures
        out == argument_fault(kinds@, op, ty, *b),
{
    match ty {
        ParamTy::U8 => match kind_of(kinds, op, b) {
            Ok(k) => match k {
                Kind::Int(8) => None,
                _ => Some(Reason::BadArgument),
            },
            Err(e) => Some(e),
        },
        _ => need_word(kinds, op, b, Reason::BadArgument),
    }
}

/// The width in bits of a value that can be compared.
fn width(k: Kind) -> (out: Option<u32>)
    ensures
        out == width_of(k),
{
    match k {
        Kind::Pointer => Some(32),
        Kind::Int(n) => Some(n),
        _ => None,
    }
}

/// Checks a call.
fn check_call(
    kinds: &mut Vec<Kind>,
    result: Option<usize>,
    callee: Callee,
    args: Args,
    b: &Binary,
) -> (out: Result<(), Reason>)
    ensures
        match call_kinds(old(kinds)@, result, callee, args, *b) {
            Ok(next) => out is Ok && final(kinds)@ == next,
            Err(e) => out == Err::<(), Reason>(e),
        },
{
    let (params, yields): (Vec<ParamTy>, Kind) = match callee {
        Callee::Host(p) => {
            if !b.is_declared(p) {
                return Err(Reason::Undeclared);
            }
            (
                p.params(),
                match p.ret() {
                    crate::host::RetTy::U32 => Kind::Int(32),
                    crate::host::RetTy::Void => Kind::Unbound,
                },
            )
        },
        Callee::Runtime(h) => (
            h.params(),
            match h {
                Helper::Malloc => Kind::Pointer,
                _ => Kind::Unbound,
            },
        ),
    };
    let list = args.to_vec();
    if list.len() != params.len() {
        return Err(Reason::Arity);
    }
    let mut i: usize = 0;
    while i < list.len()
        invariant
            i <= list@.len(),
            list@.len() == params@.len(),
            list@ == args.list(),
            params@ == callee_params(callee),
            !(callee matches Callee::Host(p) && !b.declares(p)),
            kinds@ == old(kinds)@,
            arguments_fault(kinds@, list@, params@, *b, 0) == arguments_fault(
                kinds@,
                list@,
                params@,
                *b,
                i as nat,
            ),
        decreases list@.len() - i,
    {
        let fault = need_argument(kinds, list[i], params[i], b);
        assert(arguments_fault(kinds@, list@, params@, *b, i as nat) == (match fault {
            Some(e) => Some(e),
            None => arguments_fault(kinds@, list@, params@, *b, (i + 1) as nat),
        }));
        match fault {
            Some(e) => {
                return Err(e);
            },
            None => {},
        }
        i += 1;
    }
    match result {
        None => Ok(()),
        Some(r) => match yields {
            Kind::Unbound => Err(Reason::NoResult),
            _ => bind(kinds, r, yields),
        },
    }
}

/// Checks the instruction at index `pc`.
fn check_instr(kinds: &mut Vec<Kind>, instr: &Instr, b: &Binary, pc: usize) -> (out: Result<
    (),
    Reason,
>)
    requires
        pc < b.code@.len(),
    ensures
        match instr_kinds(old(kinds)@, *instr, *b, pc as nat) {
            Ok(next) => out is Ok && final(kinds)@ == next,
            Err(e) => out == Err::<(), Reason>(e),
        },
{
    match instr {
        Instr::Alloca { dst, bytes } => {
            if *bytes < 1 {
                return Err(Reason::BadWidth);
            }
            bind(kinds, *dst, Kind::Pointer)
        },
        Instr::Load { dst, ptr, bytes } => {
            match need_word(kinds, *ptr, b, Reason::NotAPointer) {
                Some(e) => {
                    return Err(e);
                },
                None => {},
            }
            if *bytes < 1 || *bytes > 32 {
                return Err(Reason::BadWidth);
            }
            bind(kinds, *dst, Kind::Int(8 * *bytes))
        },
        Instr::Store { ptr, value } => {
            match need_word(kinds, *ptr, b, Reason::NotAPointer) {
                Some(e) => {
                    return Err(e);
                },
                None => {},
            }
            match kind_of(kinds, *value, b) {
                Ok(k) => match width(k) {
                    Some(_) => Ok(()),
                    None => Err(Reason::BadWidth),
                },
                Err(e) => Err(e),
            }
        },
        Instr::Offset { dst, base, delta } => {
            match need_word(kinds, *base, b, Reason::NotAPointer) {
                Some(e) => {
                    return Err(e);
                },
                None => {},
            }
            match need_word(kinds, *delta, b, Reason::NotAWord) {
                Some(e) => {
                    return Err(e);
                },
                None => {},
            }
            bind(kinds, *dst, Kind::Pointer)
        },
        Instr::Arith { dst, op, lhs, rhs } => {
            match need_word(kinds, *lhs, b, Reason::NotAWord) {
                Some(e) => {
                    return Err(e);
                },
                None => {},
            }
            match need_word(kinds, *rhs, b, Reason::NotAWord) {
                Some(e) => {
                    return Err(e);
                },
                None => {},
            }
            bind(kinds, *dst, Kind::Int(32))
        },
        Instr::Compare { dst, pred, lhs, rhs } => {
            let x = match kind_of(kinds, *lhs, b) {
                Ok(k) => k,
                Err(e) => {
                    return Err(e);
                },
            };
            let y = match kind_of(kinds, *rhs, b) {
                Ok(k) => k,
                Err(e) => {
                    return Err(e);
                },
            };
            match (width(x), width(y)) {
                (Some(m), Some(n)) => {
                    let unsigned = match pred {
                        Predicate::Uge => true,
                        _ => false,
                    };
                    if m != n || (unsigned && m != 32) {
                        Err(Reason::WidthMismatch)
                    } else {
                        bind(kinds, *dst, Kind::Flag)
                    }
                },
                _ => Err(Reason::WidthMismatch),
            }
        },
        Instr::Call { result, callee, args } => check_call(kinds, *result, *callee, *args, b),
        Instr::EncodedLength { dst, job } => {
            if *job >= b.jobs.len() {
                return Err(Reason::UnknownJob);
            }
            bind(kinds, *dst, Kind::Int(32))
        },
        Instr::Encode { dest, job } => {
            if *job >= b.jobs.len() {
                return Err(Reason::UnknownJob);
            }
            match need_word(kinds, *dest, b, Reason::NotAPointer) {
                Some(e) => Err(e),
                None => Ok(()),
            }
        },
        Instr::EncodeVector { dst, job } => {
            if *job >= b.jobs.len() {
                return Err(Reason::UnknownJob);
            }
            bind(kinds, *dst, Kind::Pointer)
        },
        Instr::Decode { first, data, len, job } => {
            if *job >= b.jobs.len() {
                return Err(Reason::UnknownJob);
            }
            match need_word(kinds, *data, b, Reason::NotAPointer) {
                Some(e) => {
                    return Err(e);
                },
                None => {},
            }
            match need_word(kinds, *len, b, Reason::NotAWord) {
                Some(e) => Err(e),
                None => Ok(()),
            }
        },
        Instr::Invoke { function, first, count } => Ok(()),
        Instr::SkipIf { cond, count } => {
            match kind_of(kinds, *cond, b) {
                Ok(k) => match k {
                    Kind::Flag => {},
                    _ => {
                        return Err(Reason::NotAFlag);
                    },
                },
                Err(e) => {
                    return Err(e);
                },
            }
            if *count > b.code.len() - pc - 1 {
                Err(Reason::SkipTooFar)
            } else {
                Ok(())
            }
        },
        Instr::Unreachable => Ok(()),
    }
}

impl Binary {
    /// Checks the code of the module, with the registers of `params` bound
    /// on entry. Answers the kinds of all registers behind the code.
    pub fn typecheck(&self, params: &Vec<Kind>) -> (out: Result<Vec<Kind>, TypeError>)
        ensures
            match code_kinds(*self, 0, params@) {
                Ok(kinds) => out is Ok && out.unwrap()@ == kinds,
                Err(e) => out == Err::<Vec<Kind>, TypeError>(e),
            },
    {
        let mut kinds: Vec<Kind> = Vec::new();
        let mut k: usize = 0;
        while k < params.len()
            invariant
                k <= params@.len(),
                kinds@ =~= params@.subrange(0, k as int),
            decreases params@.len() - k,
        {
            kinds.push(params[k]);
            k += 1;
        }
        assert(params@.subrange(0, params@.len() as int) =~= params@);
        let mut pc: usize = 0;
        while pc < self.code.len()
            invariant
                pc <= self.code@.len(),
                code_kinds(*self, 0, params@) == code_kinds(*self, pc as nat, kinds@),
            decreases self.code@.len() - pc,
        {
            match check_instr(&mut kinds, &self.code[pc], self, pc) {
                Ok(()) => {},
                Err(reason) => {
                    return Err(TypeError { pc, reason });
                },
            }
            pc += 1;
        }
        Ok(kinds)
    }
}

} // verus!
