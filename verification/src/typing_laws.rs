//! The entry point that `build` emits passes the check of `typecheck`: its
//! registers are bound once and before use, and every operand has the kind
//! that its place asks for.

use vstd::prelude::*;
use crate::binary::{Binary, DispatchEntry, Namespace};
use crate::builtins::single_value_code;
use crate::emit::{host, host_to, word, zero};
use crate::entry::{
    body_len,
    case_code,
    case_regs,
    checks_value,
    dispatch_code,
    dispatch_regs,
    prelude_base,
    prelude_code,
    selector_code,
    table_code,
    table_regs,
    value_check_code,
};
use crate::halt::bail_code;
use crate::host::Primitive;
use crate::ir::{Args, Instr, Operand, Predicate};
use crate::typing::{
    arguments_fault,
    binding,
    bound,
    code_kinds,
    instr_kinds,
    is_free,
    operand_kind,
    Kind,
    Reason,
};

verus! {

/// Checks the piece of code `a`, which stands at index `base` in the code of
/// `b`, from its instruction `k` on.
pub open spec fn piece_kinds(a: Seq<Instr>, k: nat, kinds: Seq<Kind>, b: Binary, base: nat) -> Result<
    Seq<Kind>,
    Reason,
>
    decreases a.len() - k,
{
    if k >= a.len() {
        Ok(kinds)
    } else {
        match instr_kinds(kinds, a[k as int], b, base + k) {
            Ok(next) => piece_kinds(a, k + 1, next, b, base),
            Err(e) => Err(e),
        }
    }
}

/// The piece `a` stands at index `base` in the code of `b`.
pub open spec fn stands_at(b: Binary, base: nat, a: Seq<Instr>) -> bool {
    &&& base + a.len() <= b.code@.len()
    &&& b.code@.subrange(base as int, (base + a.len()) as int) == a
}

/// No register from `r` on is bound.
pub open spec fn fresh_from(kinds: Seq<Kind>, r: usize) -> bool {
    forall|x: usize| x >= r ==> is_free(kinds, x)
}

/// A piece that passes the check lets the check of the whole code go on
/// behind it.
pub proof fn lemma_piece(b: Binary, base: nat, a: Seq<Instr>, k: nat, kinds: Seq<Kind>)
    requires
        stands_at(b, base, a),
        k <= a.len(),
        piece_kinds(a, k, kinds, b, base) is Ok,
    ensures
        code_kinds(b, base + k, kinds) == code_kinds(
            b,
            base + a.len(),
            piece_kinds(a, k, kinds, b, base).unwrap(),
        ),
    decreases a.len() - k,
{
    if k < a.len() {
        assert(b.code@[(base + k) as int] == a[k as int]) by {
            assert(b.code@.subrange(base as int, (base + a.len()) as int)[k as int] == a[k as int]);
        }
        let next = instr_kinds(kinds, a[k as int], b, base + k).unwrap();
        lemma_piece(b, base, a, k + 1, next);
    }
}

/// Binding a free register changes the kind of that register and of no
/// other operand.
pub proof fn lemma_bound(kinds: Seq<Kind>, r: usize, k: Kind, b: Binary)
    requires
        is_free(kinds, r),
        k != Kind::Unbound,
    ensures
        binding(kinds, r, k) == Ok::<Seq<Kind>, Reason>(bound(kinds, r, k)),
        operand_kind(bound(kinds, r, k), Operand::Reg(r), b) == Ok::<Kind, Reason>(k),
        forall|op: Operand|
            op != Operand::Reg(r) ==> #[trigger] operand_kind(bound(kinds, r, k), op, b)
                == operand_kind(kinds, op, b),
        forall|x: usize| x != r ==> #[trigger] is_free(bound(kinds, r, k), x) == is_free(kinds, x),
{
    let after = bound(kinds, r, k);
    assert forall|x: usize| x != r implies #[trigger] is_free(after, x) == is_free(kinds, x) by {
        if r >= kinds.len() && x >= kinds.len() && x < after.len() {
            assert(after[x as int] == Kind::Unbound);
        }
    }
    assert forall|op: Operand| op != Operand::Reg(r) implies #[trigger] operand_kind(after, op, b)
        == operand_kind(kinds, op, b) by {
        match op {
            Operand::Reg(x) => {
                assert(is_free(after, x) == is_free(kinds, x));
                if x < kinds.len() {
                    assert(after[x as int] == kinds[x as int]);
                }
            },
            _ => {},
        }
    }
}

/// The bail-out passes the check where the module declares the two
/// primitives of termination, and binds nothing.
pub proof fn lemma_bail_kinds(b: Binary, base: nat, kinds: Seq<Kind>)
    requires
        b.declares(Primitive::SetReturn),
        b.declares(Primitive::SystemHalt),
    ensures
        piece_kinds(bail_code(), 0, kinds, b, base) == Ok::<Seq<Kind>, Reason>(kinds),
{
    let a = bail_code();
    assert(instr_kinds(kinds, a[0], b, base) == Ok::<Seq<Kind>, Reason>(kinds)) by {
        reveal_with_fuel(arguments_fault, 4);
    }
    assert(instr_kinds(kinds, a[1], b, base + 1) == Ok::<Seq<Kind>, Reason>(kinds)) by {
        reveal_with_fuel(arguments_fault, 4);
    }
    assert(instr_kinds(kinds, a[2], b, base + 2) == Ok::<Seq<Kind>, Reason>(kinds));
    assert(piece_kinds(a, 3, kinds, b, base) == Ok::<Seq<Kind>, Reason>(kinds));
    assert(piece_kinds(a, 2, kinds, b, base) == Ok::<Seq<Kind>, Reason>(kinds));
    assert(piece_kinds(a, 1, kinds, b, base) == Ok::<Seq<Kind>, Reason>(kinds));
}

/// Two pieces in a row pass the check where the first does and the second
/// does behind it.
pub proof fn lemma_pieces(
    first: Seq<Instr>,
    second: Seq<Instr>,
    k: nat,
    kinds: Seq<Kind>,
    b: Binary,
    base: nat,
)
    requires
        k <= first.len(),
        piece_kinds(first, k, kinds, b, base) is Ok,
    ensures
        piece_kinds(first + second, k, kinds, b, base) == piece_kinds(
            second,
            0,
            piece_kinds(first, k, kinds, b, base).unwrap(),
            b,
            base + first.len(),
        ),
    decreases first.len() + second.len() - k,
{
    let all = first + second;
    if k < first.len() {
        assert(all[k as int] == first[k as int]);
        let next = instr_kinds(kinds, first[k as int], b, base + k).unwrap();
        lemma_pieces(first, second, k + 1, next, b, base);
    } else {
        lemma_shifted(first, second, 0, kinds, b, base);
    }
}

/// The second of two pieces is checked as it is when it stands alone
/// behind the first.
pub proof fn lemma_shifted(
    first: Seq<Instr>,
    second: Seq<Instr>,
    j: nat,
    kinds: Seq<Kind>,
    b: Binary,
    base: nat,
)
    requires
        j <= second.len(),
    ensures
        piece_kinds(first + second, first.len() + j, kinds, b, base) == piece_kinds(
            second,
            j,
            kinds,
            b,
            base + first.len(),
        ),
    decreases second.len() - j,
{
    let all = first + second;
    if j < second.len() {
        assert(all[(first.len() + j) as int] == second[j as int]);
        match instr_kinds(kinds, second[j as int], b, base + first.len() + j) {
            Ok(next) => {
                lemma_shifted(first, second, j + 1, next, b, base);
            },
            Err(_) => {},
        }
    }
}

/// What a module has to hold for the entry point to pass the check: the
/// chain's widths are sound, the standard table is declared, and the two
/// call-data variables exist.
pub open spec fn entry_env(b: Binary, ns: Namespace) -> bool {
    &&& ns.wf()
    &&& b.globals@.len() >= 2
    &&& forall|p: Primitive| p.is_standard() ==> b.declares(p)
}

/// `after` has everything that `kinds` has for the operands below `r`, and
/// no register from `end` on is bound in it.
pub open spec fn carries(kinds: Seq<Kind>, after: Seq<Kind>, r: usize, end: usize, b: Binary) -> bool {
    &&& fresh_from(after, end)
    &&& forall|op: Operand|
        op.below(r) ==> #[trigger] operand_kind(after, op, b) == operand_kind(kinds, op, b)
}

/// Carrying composes.
pub proof fn lemma_carries(
    k0: Seq<Kind>,
    k1: Seq<Kind>,
    k2: Seq<Kind>,
    r: usize,
    mid: usize,
    end: usize,
    b: Binary,
)
    requires
        r <= mid,
        carries(k0, k1, r, mid, b),
        carries(k1, k2, mid, end, b),
    ensures
        carries(k0, k2, r, end, b),
{
    assert forall|op: Operand| op.below(r) implies #[trigger] operand_kind(k2, op, b)
        == operand_kind(k0, op, b) by {
        assert(op.below(mid));
        assert(operand_kind(k2, op, b) == operand_kind(k1, op, b));
    }
}

/// The value check passes the check and binds three registers.
#[verifier::rlimit(60)]
pub proof fn lemma_value_check_kinds(b: Binary, base: nat, kinds: Seq<Kind>, ns: Namespace, r: usize)
    requires
        entry_env(b, ns),
        fresh_from(kinds, r),
        r + 3 <= usize::MAX,
        base + 8 <= b.code@.len(),
    ensures
        piece_kinds(value_check_code(ns, r), 0, kinds, b, base) matches Ok(after) && carries(
            kinds,
            after,
            r,
            (r + 3) as usize,
            b,
        ),
{
    let n = ns.value_length as u32;
    let r1 = (r + 1) as usize;
    let r2 = (r + 2) as usize;
    let head = single_value_code(Primitive::GetMsgValue, n, r) + seq![
        Instr::Compare { dst: r2, pred: Predicate::Eq, lhs: Operand::Reg(r1), rhs: zero(n) },
        Instr::SkipIf { cond: Operand::Reg(r2), count: 3 },
    ];
    assert(value_check_code(ns, r) =~= head + bail_code());
    assert(Primitive::GetMsgValue.is_standard() && Primitive::SetReturn.is_standard()
        && Primitive::SystemHalt.is_standard());
    let k1 = bound(kinds, r, Kind::Pointer);
    lemma_bound(kinds, r, Kind::Pointer, b);
    assert(instr_kinds(kinds, head[0], b, base) == Ok::<Seq<Kind>, Reason>(k1));
    assert(instr_kinds(k1, head[1], b, base + 1) == Ok::<Seq<Kind>, Reason>(k1)) by {
        reveal_with_fuel(arguments_fault, 4);
    }
    let k2 = bound(k1, r1, Kind::Int((8 * n) as u32));
    lemma_bound(k1, r1, Kind::Int((8 * n) as u32), b);
    assert(instr_kinds(k1, head[2], b, base + 2) == Ok::<Seq<Kind>, Reason>(k2));
    let k3 = bound(k2, r2, Kind::Flag);
    lemma_bound(k2, r2, Kind::Flag, b);
    assert(operand_kind(k2, zero(n), b) == Ok::<Kind, Reason>(Kind::Int((8 * n) as u32)));
    assert(instr_kinds(k2, head[3], b, base + 3) == Ok::<Seq<Kind>, Reason>(k3));
    assert(instr_kinds(k3, head[4], b, base + 4) == Ok::<Seq<Kind>, Reason>(k3));
    assert(piece_kinds(head, 5, k3, b, base) == Ok::<Seq<Kind>, Reason>(k3));
    assert(piece_kinds(head, 4, k3, b, base) == Ok::<Seq<Kind>, Reason>(k3));
    assert(piece_kinds(head, 3, k2, b, base) == Ok::<Seq<Kind>, Reason>(k3));
    assert(piece_kinds(head, 2, k1, b, base) == Ok::<Seq<Kind>, Reason>(k3));
    assert(piece_kinds(head, 1, k1, b, base) == Ok::<Seq<Kind>, Reason>(k3));
    assert(piece_kinds(head, 0, kinds, b, base) == Ok::<Seq<Kind>, Reason>(k3));
    lemma_pieces(head, bail_code(), 0, kinds, b, base);
    lemma_bail_kinds(b, base + 5, k3);
    assert forall|op: Operand| op.below(r) implies #[trigger] operand_kind(k3, op, b)
        == operand_kind(kinds, op, b) by {
        assert(operand_kind(k1, op, b) == operand_kind(kinds, op, b));
        assert(operand_kind(k2, op, b) == operand_kind(k1, op, b));
    }
    assert forall|x: usize| x >= r + 3 implies is_free(k3, x) by {
        assert(is_free(k1, x) == is_free(kinds, x));
        assert(is_free(k2, x) == is_free(k1, x));
        assert(is_free(k3, x) == is_free(k2, x));
    }
}

/// The prelude proper passes the check; behind it the register of the
/// length holds a 32-bit integer and that of the buffer a pointer.
#[verifier::rlimit(60)]
pub proof fn lemma_prelude_proper_kinds(
    b: Binary,
    base: nat,
    kinds: Seq<Kind>,
    ns: Namespace,
    q: usize,
)
    requires
        entry_env(b, ns),
        fresh_from(kinds, q),
        q + 2 <= usize::MAX,
    ensures
        piece_kinds(prelude_code(false, ns, q), 0, kinds, b, base) matches Ok(after) && {
            &&& fresh_from(after, (q + 2) as usize)
            &&& operand_kind(after, Operand::Reg(q), b) == Ok::<Kind, Reason>(Kind::Int(32))
            &&& operand_kind(after, Operand::Reg((q + 1) as usize), b) == Ok::<Kind, Reason>(
                Kind::Pointer,
            )
        },
{
    let q1 = (q + 1) as usize;
    let len = Operand::Reg(q);
    let buf = Operand::Reg(q1);
    let proper = seq![
        crate::emit::helper(crate::ir::Helper::InitHeap, Args::Empty),
        host_to(q, Primitive::GetCallSize, Args::Empty),
        Instr::Store { ptr: Operand::Global(crate::binary::CALLDATA_LEN), value: len },
        crate::emit::malloc(q1, len),
        Instr::Store { ptr: Operand::Global(crate::binary::CALLDATA_DATA), value: buf },
        host(Primitive::CopyCallValue, Args::Three(word(0), len, buf)),
    ];
    assert(prelude_code(false, ns, q) =~= proper);
    assert(Primitive::GetCallSize.is_standard() && Primitive::CopyCallValue.is_standard());
    let k0 = kinds;
    assert(instr_kinds(k0, proper[0], b, base) == Ok::<Seq<Kind>, Reason>(k0)) by {
        reveal_with_fuel(arguments_fault, 4);
    }
    let k1 = bound(k0, q, Kind::Int(32));
    lemma_bound(k0, q, Kind::Int(32), b);
    assert(instr_kinds(k0, proper[1], b, base + 1) == Ok::<Seq<Kind>, Reason>(k1)) by {
        reveal_with_fuel(arguments_fault, 4);
    }
    assert(instr_kinds(k1, proper[2], b, base + 2) == Ok::<Seq<Kind>, Reason>(k1));
    let k2 = bound(k1, q1, Kind::Pointer);
    lemma_bound(k1, q1, Kind::Pointer, b);
    assert(instr_kinds(k1, proper[3], b, base + 3) == Ok::<Seq<Kind>, Reason>(k2)) by {
        reveal_with_fuel(arguments_fault, 4);
    }
    assert(operand_kind(k2, len, b) == Ok::<Kind, Reason>(Kind::Int(32)));
    assert(instr_kinds(k2, proper[4], b, base + 4) == Ok::<Seq<Kind>, Reason>(k2));
    assert(instr_kinds(k2, proper[5], b, base + 5) == Ok::<Seq<Kind>, Reason>(k2)) by {
        reveal_with_fuel(arguments_fault, 4);
    }
    assert(piece_kinds(proper, 6, k2, b, base) == Ok::<Seq<Kind>, Reason>(k2));
    assert(piece_kinds(proper, 5, k2, b, base) == Ok::<Seq<Kind>, Reason>(k2));
    assert(piece_kinds(proper, 4, k2, b, base) == Ok::<Seq<Kind>, Reason>(k2));
    assert(piece_kinds(proper, 3, k1, b, base) == Ok::<Seq<Kind>, Reason>(k2));
    assert(piece_kinds(proper, 2, k1, b, base) == Ok::<Seq<Kind>, Reason>(k2));
    assert(piece_kinds(proper, 1, k0, b, base) == Ok::<Seq<Kind>, Reason>(k2));
    assert(piece_kinds(proper, 0, k0, b, base) == Ok::<Seq<Kind>, Reason>(k2));
    assert forall|x: usize| x >= q + 2 implies is_free(k2, x) by {
        assert(is_free(k1, x) == is_free(k0, x));
        assert(is_free(k2, x) == is_free(k1, x));
    }
}

/// The prelude passes the check; behind it the register of the length
/// holds a 32-bit integer and that of the buffer a pointer.
pub proof fn lemma_prelude_kinds(b: Binary, early_abort: bool, ns: Namespace)
    requires
        entry_env(b, ns),
        prelude_code(early_abort, ns, 0).len() <= b.code@.len(),
    ensures
        piece_kinds(prelude_code(early_abort, ns, 0), 0, Seq::empty(), b, 0) matches Ok(after) && {
            let q = prelude_base(early_abort, 0);
            &&& fresh_from(after, (q + 2) as usize)
            &&& operand_kind(after, Operand::Reg(q), b) == Ok::<Kind, Reason>(Kind::Int(32))
            &&& operand_kind(after, Operand::Reg((q + 1) as usize), b) == Ok::<Kind, Reason>(
                Kind::Pointer,
            )
        },
{
    let empty = Seq::<Kind>::empty();
    assert(fresh_from(empty, 0));
    if early_abort {
        let check = value_check_code(ns, 0);
        let proper = prelude_code(false, ns, 3);
        assert(prelude_code(true, ns, 0) =~= check + proper) by {
            assert(proper =~= Seq::<Instr>::empty() + proper);
        }
        lemma_value_check_kinds(b, 0, empty, ns, 0);
        let k0 = piece_kinds(check, 0, empty, b, 0).unwrap();
        lemma_prelude_proper_kinds(b, check.len(), k0, ns, 3);
        lemma_pieces(check, proper, 0, empty, b, 0);
    } else {
        lemma_prelude_proper_kinds(b, 0, empty, ns, 0);
    }
}

/// Reading the selector passes the check; behind it the selector register
/// holds a 32-bit integer, the register of the rest a pointer, and that of
/// its length a 32-bit integer.
#[verifier::rlimit(60)]
pub proof fn lemma_selector_kinds(
    b: Binary,
    base: nat,
    kinds: Seq<Kind>,
    ns: Namespace,
    args: Operand,
    len: Operand,
    d: usize,
)
    requires
        entry_env(b, ns),
        fresh_from(kinds, d),
        args.below(d),
        len.below(d),
        operand_kind(kinds, args, b) == Ok::<Kind, Reason>(Kind::Pointer),
        operand_kind(kinds, len, b) == Ok::<Kind, Reason>(Kind::Int(32)),
        d + 5 <= usize::MAX,
        base + 10 <= b.code@.len(),
    ensures
        piece_kinds(selector_code(args, len, d), 0, kinds, b, base) matches Ok(after) && {
            &&& fresh_from(after, (d + 5) as usize)
            &&& operand_kind(after, Operand::Reg((d + 2) as usize), b) == Ok::<Kind, Reason>(
                Kind::Int(32),
            )
            &&& operand_kind(after, Operand::Reg((d + 3) as usize), b) == Ok::<Kind, Reason>(
                Kind::Pointer,
            )
            &&& operand_kind(after, Operand::Reg((d + 4) as usize), b) == Ok::<Kind, Reason>(
                Kind::Int(32),
            )
        },
{
    let d1 = (d + 1) as usize;
    let d2 = (d + 2) as usize;
    let d3 = (d + 3) as usize;
    let d4 = (d + 4) as usize;
    let head = seq![
        Instr::Compare { dst: d, pred: Predicate::Uge, lhs: len, rhs: word(4) },
        Instr::SkipIf { cond: Operand::Reg(d), count: 3 },
    ];
    let tail = seq![
        Instr::Alloca { dst: d1, bytes: 4 },
        crate::emit::helper(
            crate::ir::Helper::BeNToLeN,
            Args::Three(args, Operand::Reg(d1), word(4)),
        ),
        Instr::Load { dst: d2, ptr: Operand::Reg(d1), bytes: 4 },
        Instr::Offset { dst: d3, base: args, delta: word(4) },
        Instr::Arith { dst: d4, op: crate::ir::ArithOp::Sub, lhs: len, rhs: word(4) },
    ];
    assert(selector_code(args, len, d) =~= head + bail_code() + tail);
    assert(Primitive::SetReturn.is_standard() && Primitive::SystemHalt.is_standard());
    let k1 = bound(kinds, d, Kind::Flag);
    lemma_bound(kinds, d, Kind::Flag, b);
    assert(instr_kinds(kinds, head[0], b, base) == Ok::<Seq<Kind>, Reason>(k1));
    assert(instr_kinds(k1, head[1], b, base + 1) == Ok::<Seq<Kind>, Reason>(k1));
    assert(piece_kinds(head, 2, k1, b, base) == Ok::<Seq<Kind>, Reason>(k1));
    assert(piece_kinds(head, 1, k1, b, base) == Ok::<Seq<Kind>, Reason>(k1));
    assert(piece_kinds(head, 0, kinds, b, base) == Ok::<Seq<Kind>, Reason>(k1));
    lemma_bail_kinds(b, base + 2, k1);
    lemma_pieces(head, bail_code(), 0, kinds, b, base);
    assert(piece_kinds(head + bail_code(), 0, kinds, b, base) == Ok::<Seq<Kind>, Reason>(k1));
    let at = base + 5;
    let k2 = bound(k1, d1, Kind::Pointer);
    lemma_bound(k1, d1, Kind::Pointer, b);
    assert(is_free(k1, d1));
    assert(instr_kinds(k1, tail[0], b, at) == Ok::<Seq<Kind>, Reason>(k2));
    assert(operand_kind(k2, args, b) == Ok::<Kind, Reason>(Kind::Pointer)) by {
        assert(operand_kind(k1, args, b) == operand_kind(kinds, args, b));
    }
    assert(operand_kind(k2, len, b) == Ok::<Kind, Reason>(Kind::Int(32))) by {
        assert(operand_kind(k1, len, b) == operand_kind(kinds, len, b));
    }
    assert(instr_kinds(k2, tail[1], b, at + 1) == Ok::<Seq<Kind>, Reason>(k2)) by {
        reveal_with_fuel(arguments_fault, 4);
    }
    let k3 = bound(k2, d2, Kind::Int(32));
    lemma_bound(k2, d2, Kind::Int(32), b);
    assert(is_free(k2, d2)) by {
        assert(is_free(k1, d2) == is_free(kinds, d2));
    }
    assert(instr_kinds(k2, tail[2], b, at + 2) == Ok::<Seq<Kind>, Reason>(k3));
    let k4 = bound(k3, d3, Kind::Pointer);
    lemma_bound(k3, d3, Kind::Pointer, b);
    assert(is_free(k3, d3)) by {
        assert(is_free(k1, d3) == is_free(kinds, d3));
        assert(is_free(k2, d3) == is_free(k1, d3));
    }
    assert(instr_kinds(k3, tail[3], b, at + 3) == Ok::<Seq<Kind>, Reason>(k4));
    let k5 = bound(k4, d4, Kind::Int(32));
    lemma_bound(k4, d4, Kind::Int(32), b);
    assert(is_free(k4, d4)) by {
        assert(is_free(k1, d4) == is_free(kinds, d4));
        assert(is_free(k2, d4) == is_free(k1, d4));
        assert(is_free(k3, d4) == is_free(k2, d4));
    }
    assert(operand_kind(k4, len, b) == Ok::<Kind, Reason>(Kind::Int(32))) by {
        assert(operand_kind(k3, len, b) == operand_kind(k2, len, b));
    }
    assert(instr_kinds(k4, tail[4], b, at + 4) == Ok::<Seq<Kind>, Reason>(k5));
    assert(piece_kinds(tail, 5, k5, b, at) == Ok::<Seq<Kind>, Reason>(k5));
    assert(piece_kinds(tail, 4, k4, b, at) == Ok::<Seq<Kind>, Reason>(k5));
    assert(piece_kinds(tail, 3, k3, b, at) == Ok::<Seq<Kind>, Reason>(k5));
    assert(piece_kinds(tail, 2, k2, b, at) == Ok::<Seq<Kind>, Reason>(k5));
    assert(piece_kinds(tail, 1, k2, b, at) == Ok::<Seq<Kind>, Reason>(k5));
    assert(piece_kinds(tail, 0, k1, b, at) == Ok::<Seq<Kind>, Reason>(k5));
    lemma_pieces(head + bail_code(), tail, 0, kinds, b, base);
    assert forall|x: usize| x >= d + 5 implies is_free(k5, x) by {
        assert(is_free(k1, x) == is_free(kinds, x));
        assert(is_free(k2, x) == is_free(k1, x));
        assert(is_free(k3, x) == is_free(k2, x));
        assert(is_free(k4, x) == is_free(k3, x));
        assert(is_free(k5, x) == is_free(k4, x));
    }
    assert(operand_kind(k5, Operand::Reg(d2), b) == Ok::<Kind, Reason>(Kind::Int(32))) by {
        assert(operand_kind(k4, Operand::Reg(d2), b) == operand_kind(k3, Operand::Reg(d2), b));
    }
}

/// In the state of the check in which the cases of the dispatch stand:
/// the selector is a 32-bit integer, the rest of the call data a pointer
/// and its length a 32-bit integer, and no register from `bb` on is bound.
pub open spec fn table_kinds(
    kinds: Seq<Kind>,
    sel: Operand,
    rest: Operand,
    rest_len: Operand,
    bb: usize,
    b: Binary,
) -> bool {
    &&& fresh_from(kinds, bb)
    &&& sel.below(bb)
    &&& rest.below(bb)
    &&& rest_len.below(bb)
    &&& operand_kind(kinds, sel, b) == Ok::<Kind, Reason>(Kind::Int(32))
    &&& operand_kind(kinds, rest, b) == Ok::<Kind, Reason>(Kind::Pointer)
    &&& operand_kind(kinds, rest_len, b) == Ok::<Kind, Reason>(Kind::Int(32))
}

/// One case of the dispatch passes the check.
#[verifier::rlimit(60)]
pub proof fn lemma_case_kinds(
    b: Binary,
    base: nat,
    kinds: Seq<Kind>,
    selector: u32,
    check: bool,
    function: usize,
    count: usize,
    sel: Operand,
    rest: Operand,
    rest_len: Operand,
    ns: Namespace,
    job: usize,
    bb: usize,
)
    requires
        entry_env(b, ns),
        table_kinds(kinds, sel, rest, rest_len, bb, b),
        job < b.jobs@.len(),
        bb + (if check {
            4int
        } else {
            1int
        }) <= usize::MAX,
        base + case_code(
            selector,
            check,
            function,
            count,
            sel,
            rest,
            rest_len,
            ns,
            job,
            bb,
        ).len() <= b.code@.len(),
    ensures
        piece_kinds(
            case_code(selector, check, function, count, sel, rest, rest_len, ns, job, bb),
            0,
            kinds,
            b,
            base,
        ) matches Ok(after) && carries(
            kinds,
            after,
            bb,
            (bb + (if check {
                4int
            } else {
                1int
            })) as usize,
            b,
        ),
{
    let code = case_code(selector, check, function, count, sel, rest, rest_len, ns, job, bb);
    let first = if check {
        (bb + 4) as usize
    } else {
        (bb + 1) as usize
    };
    let head = seq![
        Instr::Compare { dst: bb, pred: Predicate::Ne, lhs: sel, rhs: word(selector) },
        Instr::SkipIf { cond: Operand::Reg(bb), count: body_len(check) as usize },
    ];
    let tail = seq![
        Instr::Decode { first, data: rest, len: rest_len, job },
        Instr::Invoke { function, first, count },
        Instr::Unreachable,
    ];
    let check_code = if check {
        value_check_code(ns, (bb + 1) as usize)
    } else {
        Seq::empty()
    };
    assert(code =~= head + check_code + tail);
    let k1 = bound(kinds, bb, Kind::Flag);
    lemma_bound(kinds, bb, Kind::Flag, b);
    assert(instr_kinds(kinds, head[0], b, base) == Ok::<Seq<Kind>, Reason>(k1));
    assert(instr_kinds(k1, head[1], b, base + 1) == Ok::<Seq<Kind>, Reason>(k1));
    assert(piece_kinds(head, 2, k1, b, base) == Ok::<Seq<Kind>, Reason>(k1));
    assert(piece_kinds(head, 1, k1, b, base) == Ok::<Seq<Kind>, Reason>(k1));
    assert(piece_kinds(head, 0, kinds, b, base) == Ok::<Seq<Kind>, Reason>(k1));
    assert(carries(kinds, k1, bb, (bb + 1) as usize, b)) by {
        assert forall|x: usize| x >= bb + 1 implies is_free(k1, x) by {
            assert(is_free(k1, x) == is_free(kinds, x));
        }
    }
    if check {
        lemma_value_check_kinds(b, base + 2, k1, ns, (bb + 1) as usize);
    }
    lemma_pieces(head, check_code, 0, kinds, b, base);
    let k2 = piece_kinds(check_code, 0, k1, b, base + 2).unwrap();
    let mid = (bb + 1) as usize;
    let end = (bb + (if check {
        4int
    } else {
        1int
    })) as usize;
    assert(carries(k1, k2, mid, end, b));
    lemma_carries(kinds, k1, k2, bb, mid, end, b);
    let at = base + 2 + check_code.len();
    assert(operand_kind(k2, rest, b) == operand_kind(kinds, rest, b));
    assert(operand_kind(k2, rest_len, b) == operand_kind(kinds, rest_len, b));
    assert(instr_kinds(k2, tail[0], b, at) == Ok::<Seq<Kind>, Reason>(k2));
    assert(instr_kinds(k2, tail[1], b, at + 1) == Ok::<Seq<Kind>, Reason>(k2)) by {
        reveal_with_fuel(arguments_fault, 4);
    }
    assert(instr_kinds(k2, tail[2], b, at + 2) == Ok::<Seq<Kind>, Reason>(k2));
    assert(piece_kinds(tail, 3, k2, b, at) == Ok::<Seq<Kind>, Reason>(k2));
    assert(piece_kinds(tail, 2, k2, b, at) == Ok::<Seq<Kind>, Reason>(k2));
    assert(piece_kinds(tail, 1, k2, b, at) == Ok::<Seq<Kind>, Reason>(k2));
    assert(piece_kinds(tail, 0, k2, b, at) == Ok::<Seq<Kind>, Reason>(k2));
    lemma_pieces(head + check_code, tail, 0, kinds, b, base);
}

/// The cases of the dispatch pass the check.
pub proof fn lemma_table_kinds(
    b: Binary,
    base: nat,
    kinds: Seq<Kind>,
    entries: Seq<DispatchEntry>,
    early_abort: bool,
    sel: Operand,
    rest: Operand,
    rest_len: Operand,
    ns: Namespace,
    job: usize,
    bb: usize,
)
    requires
        entry_env(b, ns),
        b.declares(Primitive::SetReturn),
        table_kinds(kinds, sel, rest, rest_len, bb, b),
        job + entries.len() <= b.jobs@.len(),
        bb + table_regs(entries, early_abort) <= usize::MAX,
        base + table_code(entries, early_abort, sel, rest, rest_len, ns, job, bb).len()
            <= b.code@.len(),
    ensures
        piece_kinds(
            table_code(entries, early_abort, sel, rest, rest_len, ns, job, bb),
            0,
            kinds,
            b,
            base,
        ) is Ok,
    decreases entries.len(),
{
    assert(Primitive::SetReturn.is_standard() && Primitive::SystemHalt.is_standard());
    if entries.len() == 0 {
        lemma_bail_kinds(b, base, kinds);
    } else {
        let e = entries[0];
        let check = checks_value(e, early_abort);
        let case = case_code(
            e.selector,
            check,
            e.function,
            e.params@.len() as usize,
            sel,
            rest,
            rest_len,
            ns,
            job,
            bb,
        );
        let b2 = (bb + case_regs(e, early_abort)) as usize;
        let others = table_code(
            entries.skip(1),
            early_abort,
            sel,
            rest,
            rest_len,
            ns,
            (job + 1) as usize,
            b2,
        );
        assert(table_code(entries, early_abort, sel, rest, rest_len, ns, job, bb) == case + others);
        assert(table_regs(entries, early_abort) == case_regs(e, early_abort) + table_regs(
            entries.skip(1),
            early_abort,
        ));
        lemma_case_kinds(
            b,
            base,
            kinds,
            e.selector,
            check,
            e.function,
            e.params@.len() as usize,
            sel,
            rest,
            rest_len,
            ns,
            job,
            bb,
        );
        let k1 = piece_kinds(case, 0, kinds, b, base).unwrap();
        assert(table_kinds(k1, sel, rest, rest_len, b2, b));
        lemma_table_kinds(
            b,
            base + case.len(),
            k1,
            entries.skip(1),
            early_abort,
            sel,
            rest,
            rest_len,
            ns,
            (job + 1) as usize,
            b2,
        );
        lemma_pieces(case, others, 0, kinds, b, base);
    }
}

/// The entry point passes the check in every module that declares the
/// standard table, has the two call-data variables, and holds a decoding
/// job for every function.
pub proof fn law_entry_point_is_well_typed(
    b: Binary,
    entries: Seq<DispatchEntry>,
    early_abort: bool,
    ns: Namespace,
)
    requires
        entry_env(b, ns),
        b.code@ == dispatch_code(entries, early_abort, ns, 0, 0),
        entries.len() <= b.jobs@.len(),
        dispatch_regs(entries, early_abort) <= usize::MAX,
    ensures
        code_kinds(b, 0, Seq::empty()) is Ok,
{
    let q = prelude_base(early_abort, 0);
    let d = (q + 2) as usize;
    let args = Operand::Reg((q + 1) as usize);
    let len = Operand::Reg(q);
    let sel = Operand::Reg((d + 2) as usize);
    let rest = Operand::Reg((d + 3) as usize);
    let rest_len = Operand::Reg((d + 4) as usize);
    let prelude = prelude_code(early_abort, ns, 0);
    let selector = selector_code(args, len, d);
    let table = table_code(entries, early_abort, sel, rest, rest_len, ns, 0, (d + 5) as usize);
    let code = dispatch_code(entries, early_abort, ns, 0, 0);
    assert(code == prelude + selector + table);
    assert(Primitive::SetReturn.is_standard());
    let empty = Seq::<Kind>::empty();
    lemma_prelude_kinds(b, early_abort, ns);
    let k1 = piece_kinds(prelude, 0, empty, b, 0).unwrap();
    lemma_selector_kinds(b, prelude.len(), k1, ns, args, len, d);
    let k2 = piece_kinds(selector, 0, k1, b, prelude.len()).unwrap();
    lemma_pieces(prelude, selector, 0, empty, b, 0);
    lemma_table_kinds(
        b,
        prelude.len() + selector.len(),
        k2,
        entries,
        early_abort,
        sel,
        rest,
        rest_len,
        ns,
        0,
        (d + 5) as usize,
    );
    lemma_pieces(prelude + selector, table, 0, empty, b, 0);
    assert(b.code@.subrange(0, code.len() as int) =~= code);
    lemma_piece(b, 0, code, 0, empty);
}

} // verus!
