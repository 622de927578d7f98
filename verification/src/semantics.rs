//! Facts about the reference machine that the laws of the lowerings rest
//! on: what binding a register leaves alone, what survives when code runs
//! in a larger state, and how the run of two pieces of code in a row is made
//! of the runs of the pieces.

use vstd::prelude::*;
use crate::bytes::{
    filler,
    le_bytes,
    lemma_le_bytes_len,
    lemma_read_after_write,
    lemma_read_other,
    lemma_word_round_trip,
    write_range,
    zeros,
};
use crate::ir::{Instr, Operand};
use crate::machine::{run, Outcome, State, Step, ADDRESS_SPACE};

verus! {

impl Operand {
    /// The operand does not name a register from `r` on, so code that binds
    /// registers from `r` on leaves its value alone.
    pub open spec fn below(self, r: usize) -> bool {
        match self {
            Operand::Reg(x) => x < r,
            _ => true,
        }
    }
}

/// `t` keeps what `s` has: the memory of `s` is the start of the memory of
/// `t`, and the registers below `r`, the module-level data and the codec's
/// answers are the same.
pub open spec fn keeps(s: State, t: State, r: usize) -> bool {
    &&& s.mem.len() <= t.mem.len()
    &&& t.mem.subrange(0, s.mem.len() as int) == s.mem
    &&& forall|x: usize| x < r ==> t.reg(x) == s.reg(x)
    &&& t.globals == s.globals
    &&& t.encodings == s.encodings
    &&& t.decodings == s.decodings
}

/// Binding a register changes that register and nothing else.
pub proof fn lemma_bind(s: State, r: usize, v: Seq<u8>)
    requires
        v.len() > 0,
    ensures
        s.bind(r, v).reg(r) == Some(v),
        forall|x: usize| x != r ==> s.bind(r, v).reg(x) == s.reg(x),
        forall|op: Operand| op != Operand::Reg(r) ==> #[trigger] s.bind(r, v).eval(op) == s.eval(op),
        s.bind(r, v).eval(Operand::Reg(r)) == Some(v),
        s.bind(r, v).mem == s.mem,
        s.bind(r, v).host == s.host,
        s.bind(r, v).globals == s.globals,
        s.bind(r, v).encodings == s.encodings,
        s.bind(r, v).decodings == s.decodings,
{
    let t = s.bind(r, v);
    assert forall|x: usize| x != r implies t.reg(x) == s.reg(x) by {
        if r >= s.regs.len() && x >= s.regs.len() && x < t.regs.len() {
            assert(t.regs[x as int].len() == 0);
        }
    }
    assert forall|op: Operand| op != Operand::Reg(r) implies #[trigger] t.eval(op) == s.eval(
        op,
    ) by {
        match op {
            Operand::Reg(x) => {
                assert(t.reg(x) == s.reg(x));
            },
            _ => {},
        }
    }
}

/// Binding a register to a pointer makes the register evaluate to it.
pub proof fn lemma_bind_word(s: State, r: usize, v: nat)
    requires
        v < ADDRESS_SPACE,
    ensures
        s.bind(r, le_bytes(v, 4)).eval_word(Operand::Reg(r)) == Some(v),
        forall|op: Operand|
            op != Operand::Reg(r) ==> #[trigger] s.bind(r, le_bytes(v, 4)).eval_word(op)
                == s.eval_word(op),
        forall|op: Operand, n: nat|
            op != Operand::Reg(r) ==> #[trigger] s.bind(r, le_bytes(v, 4)).read_at(op, n)
                == s.read_at(op, n),
{
    lemma_le_bytes_len(v, 4);
    lemma_word_round_trip(v);
    lemma_bind(s, r, le_bytes(v, 4));
    let t = s.bind(r, le_bytes(v, 4));
    assert forall|op: Operand| op != Operand::Reg(r) implies #[trigger] t.eval_word(op)
        == s.eval_word(op) by {
        assert(t.eval(op) == s.eval(op));
    }
    assert forall|op: Operand, n: nat| op != Operand::Reg(r) implies #[trigger] t.read_at(op, n)
        == s.read_at(op, n) by {
        assert(t.eval_word(op) == s.eval_word(op));
    }
}

/// Constants, the null pointer and registers below `r` mean the same in a
/// state that keeps what the other has; so does what they point to.
pub proof fn lemma_keeps(s: State, t: State, r: usize, op: Operand)
    requires
        keeps(s, t, r),
        op.below(r),
    ensures
        t.eval(op) == s.eval(op),
        t.eval_word(op) == s.eval_word(op),
        forall|n: nat| s.read_at(op, n).is_some() ==> #[trigger] t.read_at(op, n) == s.read_at(op, n),
{
    match op {
        Operand::Reg(x) => {
            assert(t.reg(x) == s.reg(x));
        },
        _ => {},
    }
    assert forall|n: nat| s.read_at(op, n).is_some() implies #[trigger] t.read_at(op, n)
        == s.read_at(op, n) by {
        let p = s.eval_word(op).unwrap();
        assert(t.mem.subrange(p as int, (p + n) as int) =~= t.mem.subrange(
            0,
            s.mem.len() as int,
        ).subrange(p as int, (p + n) as int));
    }
}

/// Keeping is transitive.
pub proof fn lemma_keeps_chain(s: State, t: State, u: State, r: usize)
    requires
        keeps(s, t, r),
        keeps(t, u, r),
    ensures
        keeps(s, u, r),
{
    assert(u.mem.subrange(0, s.mem.len() as int) =~= u.mem.subrange(
        0,
        t.mem.len() as int,
    ).subrange(0, s.mem.len() as int));
}

/// Zero at any width is all zero bytes.
pub proof fn lemma_le_bytes_zero(n: nat)
    ensures
        le_bytes(0, n) == zeros(n),
    decreases n,
{
    if n > 0 {
        lemma_le_bytes_zero((n - 1) as nat);
        assert(0nat / 256 == 0);
        assert(le_bytes(0, n) =~= zeros(n));
    } else {
        assert(le_bytes(0, n) =~= zeros(n));
    }
}

/// Code behind the end of the first piece runs as the second piece does.
pub proof fn lemma_run_shift(a: Seq<Instr>, b: Seq<Instr>, k: nat, s: State)
    requires
        k <= b.len(),
    ensures
        run(a + b, a.len() + k, s) == run(b, k, s),
    decreases b.len() - k,
{
    let ab = a + b;
    if k < b.len() {
        assert(ab[(a.len() + k) as int] == b[k as int]);
        match s.step(b[k as int]) {
            Step::Next(t) => {
                lemma_run_shift(a, b, k + 1, t);
            },
            Step::Skip(t, n) => {
                if k + 1 + n <= b.len() {
                    lemma_run_shift(a, b, k + 1 + n, t);
                }
            },
            _ => {},
        }
    }
}

/// Where the first piece of code does not trap, two pieces in a row run as
/// the first and then, if control reaches its end, the second.
pub proof fn lemma_run_concat(a: Seq<Instr>, b: Seq<Instr>, pc: nat, s: State)
    requires
        pc <= a.len(),
        !(run(a, pc, s) is Trapped),
    ensures
        run(a + b, pc, s) == (match run(a, pc, s) {
            Outcome::Completed(t) => run(b, 0, t),
            other => other,
        }),
    decreases a.len() - pc,
{
    let ab = a + b;
    if pc == a.len() {
        lemma_run_shift(a, b, 0, s);
    } else {
        assert(ab[pc as int] == a[pc as int]);
        match s.step(a[pc as int]) {
            Step::Next(t) => {
                lemma_run_concat(a, b, pc + 1, t);
            },
            Step::Skip(t, n) => {
                lemma_run_concat(a, b, pc + 1 + n, t);
            },
            _ => {},
        }
    }
}

/// Reading through an operand that does not name register `r` is the same
/// after register `r` was bound to a fresh buffer at the end of the memory.
pub proof fn lemma_fresh_buffer(s: State, r: usize, n: nat)
    requires
        s.has_room(n),
    ensures
        ({
            let t = s.grown(n).bind(r, le_bytes(s.mem.len(), 4));
            &&& t.eval_word(Operand::Reg(r)) == Some(s.mem.len())
            &&& t.mem == s.mem + filler(n)
            &&& t.host == s.host
            &&& keeps(s, t, r)
            &&& forall|op: Operand| op != Operand::Reg(r) ==> #[trigger] t.eval(op) == s.eval(op)
            &&& forall|op: Operand, k: nat|
                op != Operand::Reg(r) && s.read_at(op, k).is_some() ==> #[trigger] t.read_at(op, k)
                    == s.read_at(op, k)
        }),
{
    let a = s.mem.len();
    let s0 = s.grown(n);
    let t = s0.bind(r, le_bytes(a, 4));
    lemma_bind_word(s0, r, a);
    lemma_bind(s0, r, le_bytes(a, 4));
    lemma_le_bytes_len(a, 4);
    assert(t.mem.subrange(0, a as int) =~= s.mem);
    assert forall|op: Operand, k: nat|
        op != Operand::Reg(r) && s.read_at(op, k).is_some() implies #[trigger] t.read_at(op, k)
        == s.read_at(op, k) by {
        assert(t.read_at(op, k) == s0.read_at(op, k));
        assert(s0.eval_word(op) == s.eval_word(op));
        let p = s.eval_word(op).unwrap();
        assert(s0.mem.subrange(p as int, (p + k) as int) =~= s.mem.subrange(
            p as int,
            (p + k) as int,
        ));
    }
}

/// Writing through a pointer changes the bytes written and no others.
pub proof fn lemma_written(s: State, ptr: Operand, data: Seq<u8>)
    requires
        s.eval_word(ptr).is_some(),
        s.eval_word(ptr).unwrap() + data.len() <= s.mem.len(),
    ensures
        s.write_at(ptr, data) matches Some(t) && {
            &&& t == State { mem: write_range(s.mem, s.eval_word(ptr).unwrap(), data).unwrap(), ..s }
            &&& t.mem.len() == s.mem.len()
            &&& t.read_at(ptr, data.len()) == Some(data)
            &&& forall|op: Operand| #[trigger] t.eval(op) == s.eval(op)
            &&& forall|op: Operand, k: nat|
                s.read_at(op, k).is_some() && (s.eval_word(op).unwrap() + k <= s.eval_word(
                    ptr,
                ).unwrap() || s.eval_word(ptr).unwrap() + data.len() <= s.eval_word(op).unwrap())
                    ==> #[trigger] t.read_at(op, k) == s.read_at(op, k)
        },
{
    let p = s.eval_word(ptr).unwrap();
    let t = s.write_at(ptr, data).unwrap();
    lemma_read_after_write(s.mem, p, data);
    assert forall|op: Operand, k: nat|
        s.read_at(op, k).is_some() && (s.eval_word(op).unwrap() + k <= p || p + data.len()
            <= s.eval_word(op).unwrap()) implies #[trigger] t.read_at(op, k) == s.read_at(
        op,
        k,
    ) by {
        lemma_read_other(s.mem, p, data, s.eval_word(op).unwrap(), k);
    }
}

} // verus!
