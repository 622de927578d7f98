//! The entry point of a deployed contract. The host invokes one routine,
//! `start`, which runs three stages in a row: the prelude copies the call
//! data into memory, the selector is read from its first four bytes, and the
//! dispatch tests it against the functions of the contract, one after the
//! other.

use vstd::prelude::*;
use crate::binary::{
    Binary,
    Contract,
    DispatchEntry,
    Namespace,
    OptLevel,
    CALLDATA_DATA,
    CALLDATA_LEN,
};
use crate::builtins::{single_value_code, single_value_instrs};
use crate::codec::copy_types;
use crate::emit::{helper, host, host_to, malloc, reg, word, zero};
use crate::halt::{bail_code, halt_instrs, STATUS_REVERT};
use crate::host::{
    lemma_standard_table,
    standard_primitives,
    standard_table,
    ParamTy,
    Primitive,
    RetTy,
};
use crate::ir::{Args, ArithOp, CodecJob, CompileError, Helper, Instr, JobSpec, Operand, Predicate};
use crate::target::LachainTarget;

verus! {

/// The routine that the host invokes: its name, and that it takes nothing
/// and returns nothing. It ends the invocation itself, on every path.
pub struct EntryRoutine {
    pub name: &'static str,
    pub params: Vec<ParamTy>,
    pub ret: RetTy,
}

/// Name of the routine that the host invokes.
pub open spec fn entry_name() -> Seq<char> {
    "start"@
}

/// Refuses value: reads the value sent along into register `r + 1`, and
/// reverts with no data unless it is zero.
pub open spec fn value_check_code(ns: Namespace, r: usize) -> Seq<Instr> {
    single_value_code(Primitive::GetMsgValue, ns.value_length as u32, r) + seq![
        Instr::Compare {
            dst: (r + 2) as usize,
            pred: Predicate::Eq,
            lhs: reg(r, 1),
            rhs: zero(ns.value_length as u32),
        },
        Instr::SkipIf { cond: reg(r, 2), count: 3 },
    ] + bail_code()
}

/// Registers that the prelude binds.
pub open spec fn prelude_regs(early_abort: bool) -> nat {
    if early_abort {
        5
    } else {
        2
    }
}

/// The first register of the prelude proper, behind those of the value
/// check.
pub open spec fn prelude_base(early_abort: bool, r: usize) -> usize {
    if early_abort {
        (r + 3) as usize
    } else {
        r
    }
}

/// The primitives that the prelude calls.
pub open spec fn prelude_needs(early_abort: bool) -> Seq<Primitive> {
    if early_abort {
        seq![
            Primitive::GetMsgValue,
            Primitive::SetReturn,
            Primitive::SystemHalt,
            Primitive::GetCallSize,
            Primitive::CopyCallValue,
        ]
    } else {
        seq![Primitive::GetCallSize, Primitive::CopyCallValue]
    }
}

/// The prelude: refuse value where no function takes any, set up the heap,
/// ask for the length of the call data, allocate a buffer of that length
/// and copy the call data into it. Length and buffer are also kept in the
/// module's two call-data variables.
pub open spec fn prelude_code(early_abort: bool, ns: Namespace, r: usize) -> Seq<Instr> {
    let q = prelude_base(early_abort, r);
    (if early_abort {
        value_check_code(ns, r)
    } else {
        Seq::empty()
    }) + seq![
        helper(Helper::InitHeap, Args::Empty),
        host_to(q, Primitive::GetCallSize, Args::Empty),
        Instr::Store { ptr: Operand::Global(CALLDATA_LEN), value: reg(q, 0) },
        malloc((q + 1) as usize, reg(q, 0)),
        Instr::Store { ptr: Operand::Global(CALLDATA_DATA), value: reg(q, 1) },
        host(Primitive::CopyCallValue, Args::Three(word(0), reg(q, 0), reg(q, 1))),
    ]
}

/// Reads the selector: call data of fewer than four bytes reverts with no
/// data; else the first four bytes, read as a big-endian number, go to
/// register `d + 2`, the pointer behind them to `d + 3`, and the number of
/// bytes behind them to `d + 4`.
pub open spec fn selector_code(args: Operand, len: Operand, d: usize) -> Seq<Instr> {
    seq![
        Instr::Compare { dst: d, pred: Predicate::Uge, lhs: len, rhs: word(4) },
        Instr::SkipIf { cond: reg(d, 0), count: 3 },
    ] + bail_code() + seq![
        Instr::Alloca { dst: (d + 1) as usize, bytes: 4 },
        helper(Helper::BeNToLeN, Args::Three(args, reg(d, 1), word(4))),
        Instr::Load { dst: (d + 2) as usize, ptr: reg(d, 1), bytes: 4 },
        Instr::Offset { dst: (d + 3) as usize, base: args, delta: word(4) },
        Instr::Arith { dst: (d + 4) as usize, op: ArithOp::Sub, lhs: len, rhs: word(4) },
    ]
}

/// Whether the case of `e` refuses value itself: the function is not
/// payable, and value was not refused on entry already.
pub open spec fn checks_value(e: DispatchEntry, early_abort: bool) -> bool {
    !early_abort && !e.payable
}

/// Registers that the case of `e` binds: one for the test, three for a
/// value check, one for each decoded argument.
pub open spec fn case_regs(e: DispatchEntry, early_abort: bool) -> nat {
    1 + (if checks_value(e, early_abort) {
        3nat
    } else {
        0nat
    }) + e.params@.len()
}

/// Number of instructions of a case behind its test.
pub open spec fn body_len(check: bool) -> nat {
    if check {
        11
    } else {
        3
    }
}

/// One case of the dispatch: unless the selector is that of the function,
/// go on behind the case; else refuse value where the function takes none,
/// only then decode the arguments, and enter the function.
pub open spec fn case_code(
    selector: u32,
    check: bool,
    function: usize,
    count: usize,
    sel: Operand,
    rest: Operand,
    rest_len: Operand,
    ns: Namespace,
    job: usize,
    b: usize,
) -> Seq<Instr> {
    let first = if check {
        (b + 4) as usize
    } else {
        (b + 1) as usize
    };
    seq![
        Instr::Compare { dst: b, pred: Predicate::Ne, lhs: sel, rhs: word(selector) },
        Instr::SkipIf { cond: reg(b, 0), count: body_len(check) as usize },
    ] + (if check {
        value_check_code(ns, (b + 1) as usize)
    } else {
        Seq::empty()
    }) + seq![
        Instr::Decode { first, data: rest, len: rest_len, job },
        Instr::Invoke { function, first, count },
        Instr::Unreachable,
    ]
}

/// The cases of `entries` in order, and behind them the revert with no
/// data for a selector that matches none.
pub open spec fn table_code(
    entries: Seq<DispatchEntry>,
    early_abort: bool,
    sel: Operand,
    rest: Operand,
    rest_len: Operand,
    ns: Namespace,
    job: usize,
    b: usize,
) -> Seq<Instr>
    decreases entries.len(),
{
    if entries.len() == 0 {
        bail_code()
    } else {
        case_code(
            entries[0].selector,
            checks_value(entries[0], early_abort),
            entries[0].function,
            entries[0].params@.len() as usize,
            sel,
            rest,
            rest_len,
            ns,
            job,
            b,
        ) + table_code(
            entries.skip(1),
            early_abort,
            sel,
            rest,
            rest_len,
            ns,
            (job + 1) as usize,
            (b + case_regs(entries[0], early_abort)) as usize,
        )
    }
}

/// Registers that the cases of `entries` bind.
pub open spec fn table_regs(entries: Seq<DispatchEntry>, early_abort: bool) -> nat
    decreases entries.len(),
{
    if entries.len() == 0 {
        0
    } else {
        case_regs(entries[0], early_abort) + table_regs(entries.skip(1), early_abort)
    }
}

/// Registers that the whole entry point binds.
pub open spec fn dispatch_regs(entries: Seq<DispatchEntry>, early_abort: bool) -> nat {
    prelude_regs(early_abort) + 5 + table_regs(entries, early_abort)
}

/// Whether the entry point reads the value sent along: on entry, or in the
/// case of a function that is not payable.
pub open spec fn reads_value(entries: Seq<DispatchEntry>, early_abort: bool) -> bool {
    early_abort || exists|i: int| 0 <= i < entries.len() && !entries[i].payable
}

/// The primitives that the entry point calls.
pub open spec fn dispatch_needs(entries: Seq<DispatchEntry>, early_abort: bool) -> Seq<Primitive> {
    if reads_value(entries, early_abort) {
        seq![
            Primitive::SetReturn,
            Primitive::SystemHalt,
            Primitive::GetCallSize,
            Primitive::CopyCallValue,
            Primitive::GetMsgValue,
        ]
    } else {
        seq![
            Primitive::SetReturn,
            Primitive::SystemHalt,
            Primitive::GetCallSize,
            Primitive::CopyCallValue,
        ]
    }
}

/// The body of `start`.
pub open spec fn dispatch_code(
    entries: Seq<DispatchEntry>,
    early_abort: bool,
    ns: Namespace,
    job: usize,
    r: usize,
) -> Seq<Instr> {
    let q = prelude_base(early_abort, r);
    let d = (q + 2) as usize;
    prelude_code(early_abort, ns, r) + selector_code(reg(q, 1), reg(q, 0), d) + table_code(
        entries,
        early_abort,
        reg(d, 2),
        reg(d, 3),
        reg(d, 4),
        ns,
        job,
        (d + 5) as usize,
    )
}

/// The job of decoding the arguments of `e`.
pub open spec fn decode_job(e: DispatchEntry, bswap: bool) -> JobSpec {
    JobSpec { load: false, bswap, packed: Seq::empty(), args: Seq::empty(), tys: e.params@ }
}

/// The cases behind the first `i` bind no more registers than all of them.
pub proof fn lemma_table_regs_suffix(entries: Seq<DispatchEntry>, early_abort: bool, i: int)
    requires
        0 <= i <= entries.len(),
    ensures
        table_regs(entries.skip(i), early_abort) <= table_regs(entries, early_abort),
    decreases i,
{
    if i == 0 {
        assert(entries.skip(0) =~= entries);
    } else {
        lemma_table_regs_suffix(entries, early_abort, i - 1);
        assert(entries.skip(i - 1).skip(1) =~= entries.skip(i));
    }
}

/// The value check as instructions.
pub(crate) fn value_check_instrs(ns: Namespace, r: usize) -> (out: Vec<Instr>)
    requires
        r + 2 <= usize::MAX,
    ensures
        out@ == value_check_code(ns, r),
{
    let mut out = single_value_instrs(Primitive::GetMsgValue, ns.value_length as u32, r);
    out.push(
        Instr::Compare {
            dst: r + 2,
            pred: Predicate::Eq,
            lhs: reg(r, 1),
            rhs: zero(ns.value_length as u32),
        },
    );
    out.push(Instr::SkipIf { cond: reg(r, 2), count: 3 });
    let mut bail = halt_instrs(STATUS_REVERT, Operand::Null, word(0));
    out.append(&mut bail);
    assert(out@ =~= value_check_code(ns, r));
    out
}

/// The prelude as instructions.
fn prelude_instrs(early_abort: bool, ns: Namespace, r: usize) -> (out: Vec<Instr>)
    requires
        r + prelude_regs(early_abort) <= usize::MAX,
    ensures
        out@ == prelude_code(early_abort, ns, r),
{
    let mut out: Vec<Instr> = if early_abort {
        value_check_instrs(ns, r)
    } else {
        Vec::new()
    };
    let q: usize = if early_abort {
        r + 3
    } else {
        r
    };
    out.push(helper(Helper::InitHeap, Args::Empty));
    out.push(host_to(q, Primitive::GetCallSize, Args::Empty));
    out.push(Instr::Store { ptr: Operand::Global(CALLDATA_LEN), value: reg(q, 0) });
    out.push(malloc(q + 1, reg(q, 0)));
    out.push(Instr::Store { ptr: Operand::Global(CALLDATA_DATA), value: reg(q, 1) });
    out.push(host(Primitive::CopyCallValue, Args::Three(word(0), reg(q, 0), reg(q, 1))));
    assert(out@ =~= prelude_code(early_abort, ns, r));
    out
}

/// The reading of the selector as instructions.
fn selector_instrs(args: Operand, len: Operand, d: usize) -> (out: Vec<Instr>)
    requires
        d + 4 <= usize::MAX,
    ensures
        out@ == selector_code(args, len, d),
{
    let mut out: Vec<Instr> = vec![
        Instr::Compare { dst: d, pred: Predicate::Uge, lhs: len, rhs: word(4) },
        Instr::SkipIf { cond: reg(d, 0), count: 3 },
    ];
    let mut bail = halt_instrs(STATUS_REVERT, Operand::Null, word(0));
    out.append(&mut bail);
    out.push(Instr::Alloca { dst: d + 1, bytes: 4 });
    out.push(helper(Helper::BeNToLeN, Args::Three(args, reg(d, 1), word(4))));
    out.push(Instr::Load { dst: d + 2, ptr: reg(d, 1), bytes: 4 });
    out.push(Instr::Offset { dst: d + 3, base: args, delta: word(4) });
    out.push(Instr::Arith { dst: d + 4, op: ArithOp::Sub, lhs: len, rhs: word(4) });
    assert(out@ =~= selector_code(args, len, d));
    out
}

/// One case of the dispatch as instructions.
fn case_instrs(
    selector: u32,
    check: bool,
    function: usize,
    count: usize,
    sel: Operand,
    rest: Operand,
    rest_len: Operand,
    ns: Namespace,
    job: usize,
    b: usize,
) -> (out: Vec<Instr>)
    requires
        b + (if check {
            4int
        } else {
            1int
        }) <= usize::MAX,
    ensures
        out@ == case_code(selector, check, function, count, sel, rest, rest_len, ns, job, b),
{
    let skip: usize = if check {
        11
    } else {
        3
    };
    let first: usize = if check {
        b + 4
    } else {
        b + 1
    };
    let mut out: Vec<Instr> = vec![
        Instr::Compare { dst: b, pred: Predicate::Ne, lhs: sel, rhs: word(selector) },
        Instr::SkipIf { cond: reg(b, 0), count: skip },
    ];
    if check {
        let mut value_check = value_check_instrs(ns, b + 1);
        out.append(&mut value_check);
    }
    out.push(Instr::Decode { first, data: rest, len: rest_len, job });
    out.push(Instr::Invoke { function, first, count });
    out.push(Instr::Unreachable);
    assert(out@ =~= case_code(selector, check, function, count, sel, rest, rest_len, ns, job, b));
    out
}

impl LachainTarget {
    /// Declares the standard table of host primitives. A primitive that the
    /// module declares already is not declared again, so every primitive is
    /// declared once.
    pub fn declare_externals(&self, binary: &mut Binary)
        ensures
            old(binary).wf() ==> final(binary).wf(),
            forall|p: Primitive|
                final(binary).declares(p) <==> (old(binary).declares(p) || p.is_standard()),
            old(binary).externals@.len() == 0 ==> final(binary).externals@ == standard_table(),
            final(binary).name == old(binary).name,
            final(binary).filename == old(binary).filename,
            final(binary).opt == old(binary).opt,
            final(binary).math_overflow_check == old(binary).math_overflow_check,
            final(binary).globals == old(binary).globals,
            final(binary).jobs == old(binary).jobs,
            final(binary).code == old(binary).code,
            final(binary).next_reg == old(binary).next_reg,
            final(binary).function_abort_value_transfers == old(
                binary,
            ).function_abort_value_transfers,
    {
        let table = standard_primitives();
        proof {
            lemma_standard_table();
        }
        let mut i: usize = 0;
        while i < table.len()
            invariant
                i <= table@.len(),
                table@ == standard_table(),
                old(binary).wf() ==> binary.wf(),
                forall|p: Primitive|
                    binary.declares(p) <==> (old(binary).declares(p) || (exists|j: int|
                        0 <= j < i && table@[j] == p)),
                old(binary).externals@.len() == 0 ==> binary.externals@ == table@.subrange(
                    0,
                    i as int,
                ),
                binary.name == old(binary).name,
                binary.filename == old(binary).filename,
                binary.opt == old(binary).opt,
                binary.math_overflow_check == old(binary).math_overflow_check,
                binary.globals == old(binary).globals,
                binary.jobs == old(binary).jobs,
                binary.code == old(binary).code,
                binary.next_reg == old(binary).next_reg,
                binary.function_abort_value_transfers == old(
                    binary,
                ).function_abort_value_transfers,
            decreases table@.len() - i,
        {
            let ghost prev = *binary;
            let p = table[i];
            proof {
                lemma_standard_table();
                if old(binary).externals@.len() == 0 && prev.declares(p) {
                    let j = choose|j: int| 0 <= j < i && table@[j] == p;
                    assert(table@[j].index_of() == j);
                    assert(table@[i as int].index_of() == i);
                }
            }
            binary.declare(p);
            proof {
                assert forall|x: Primitive|
                    binary.declares(x) <==> (old(binary).declares(x) || (exists|j: int|
                        0 <= j < i + 1 && table@[j] == x)) by {
                    if binary.declares(x) {
                        if prev.declares(x) {
                        } else {
                            let k = choose|k: int|
                                0 <= k < binary.externals@.len() && binary.externals@[k] == x;
                            assert(x == p);
                            assert(table@[i as int] == x);
                        }
                    }
                    if old(binary).declares(x) {
                        assert(prev.declares(x));
                        let k = choose|k: int|
                            0 <= k < prev.externals@.len() && prev.externals@[k] == x;
                        assert(binary.externals@[k] == x);
                    }
                    if exists|j: int| 0 <= j < i + 1 && table@[j] == x {
                        let j = choose|j: int| 0 <= j < i + 1 && table@[j] == x;
                        if j < i {
                            assert(prev.declares(x));
                            let k = choose|k: int|
                                0 <= k < prev.externals@.len() && prev.externals@[k] == x;
                            assert(binary.externals@[k] == x);
                        }
                    }
                }
                if old(binary).externals@.len() == 0 {
                    assert(binary.externals@ =~= table@.subrange(0, i + 1));
                }
            }
            i += 1;
        }
        proof {
            lemma_standard_table();
            assert(table@.subrange(0, table@.len() as int) =~= table@);
            assert forall|p: Primitive|
                binary.declares(p) <==> (old(binary).declares(p) || p.is_standard()) by {
                if p.is_standard() {
                    assert(table@[p.index_of() as int] == p);
                }
                if exists|j: int| 0 <= j < table@.len() && table@[j] == p {
                    assert(table@.contains(p));
                }
            }
        }
    }

    /// Emits the prelude of `start`. Answers the buffer that holds the call
    /// data, and its length.
    pub fn runtime_prelude(&self, binary: &mut Binary, ns: Namespace) -> (out: Result<
        (Operand, Operand),
        CompileError,
    >)
        ensures
            crate::emit::lowered(
                out,
                *old(binary),
                *final(binary),
                old(binary).refusal(
                    prelude_needs(old(binary).function_abort_value_transfers),
                    prelude_regs(old(binary).function_abort_value_transfers),
                ),
                (
                    reg(
                        prelude_base(
                            old(binary).function_abort_value_transfers,
                            old(binary).next_reg,
                        ),
                        1,
                    ),
                    reg(
                        prelude_base(
                            old(binary).function_abort_value_transfers,
                            old(binary).next_reg,
                        ),
                        0,
                    ),
                ),
                prelude_code(old(binary).function_abort_value_transfers, ns, old(binary).next_reg),
                prelude_regs(old(binary).function_abort_value_transfers),
            ),
    {
        let ghost before = *binary;
        let early_abort = binary.function_abort_value_transfers;
        let (needs, regs): (Vec<Primitive>, usize) = if early_abort {
            (
                vec![
                    Primitive::GetMsgValue,
                    Primitive::SetReturn,
                    Primitive::SystemHalt,
                    Primitive::GetCallSize,
                    Primitive::CopyCallValue,
                ],
                5,
            )
        } else {
            (vec![Primitive::GetCallSize, Primitive::CopyCallValue], 2)
        };
        assert(needs@ =~= prelude_needs(early_abort));
        match binary.begin(needs, regs) {
            Err(e) => Err(e),
            Ok(r) => {
                let code = prelude_instrs(early_abort, ns, r);
                binary.finish(code, Ghost(before), Ghost(regs as nat));
                let q: usize = if early_abort {
                    r + 3
                } else {
                    r
                };
                Ok((reg(q, 1), reg(q, 0)))
            },
        }
    }

    /// The routine that the host invokes, whose body `function_dispatch`
    /// emits: it is named `start`, takes no parameter and returns nothing.
    pub fn entry_routine() -> (out: EntryRoutine)
        ensures
            out.name@ == entry_name(),
            out.params@ == Seq::<ParamTy>::empty(),
            out.ret == RetTy::Void,
    {
        EntryRoutine { name: "start", params: Vec::new(), ret: RetTy::Void }
    }

    /// Emits the body of `start`, the routine of `entry_routine`: prelude,
    /// selector, and the dispatch over the functions of `contract`. No path
    /// through it returns: each ends in a halt or in a function body. Every case hands one decoding job to the
    /// codec, in the order of the functions.
    pub fn function_dispatch(&self, binary: &mut Binary, contract: &Contract, ns: Namespace) -> (out:
        Result<(), CompileError>)
        ensures
            match old(binary).refusal(
                dispatch_needs(contract.functions@, old(binary).function_abort_value_transfers),
                dispatch_regs(contract.functions@, old(binary).function_abort_value_transfers),
            ) {
                Some(e) => out == Err::<(), CompileError>(e) && *final(binary) == *old(binary),
                None => {
                    &&& out == Ok::<(), CompileError>(())
                    &&& final(binary).code@ == old(binary).code@ + dispatch_code(
                        contract.functions@,
                        old(binary).function_abort_value_transfers,
                        ns,
                        old(binary).jobs@.len() as usize,
                        old(binary).next_reg,
                    )
                    &&& final(binary).next_reg == old(binary).next_reg + dispatch_regs(
                        contract.functions@,
                        old(binary).function_abort_value_transfers,
                    )
                    &&& final(binary).grows(*old(binary))
                    &&& final(binary).globals@ == old(binary).globals@
                    &&& final(binary).jobs@.len() == old(binary).jobs@.len()
                        + contract.functions@.len()
                    &&& final(binary).jobs@.subrange(0, old(binary).jobs@.len() as int) == old(
                        binary,
                    ).jobs@
                    &&& forall|i: int|
                        0 <= i < contract.functions@.len() ==> (#[trigger] final(binary).jobs@[old(
                            binary,
                        ).jobs@.len() + i])@ == decode_job(
                            contract.functions@[i],
                            self.codec().bswap,
                        )
                },
            },
    {
        let ghost before = *binary;
        let ghost entries = contract.functions@;
        let early_abort = binary.function_abort_value_transfers;
        let count = contract.functions.len();
        // What the cases need: whether any reads the value, and how many
        // registers they bind in all.
        let mut any_check = false;
        let mut total: usize = 0;
        let mut fits = true;
        let mut i: usize = count;
        assert(entries.skip(count as int) =~= Seq::<DispatchEntry>::empty());
        while i > 0
            invariant
                i <= count,
                count == entries.len(),
                entries == contract.functions@,
                any_check == (exists|j: int| i <= j < count && checks_value(entries[j], early_abort)),
                fits ==> total == table_regs(entries.skip(i as int), early_abort),
                !fits ==> table_regs(entries, early_abort) > usize::MAX,
            decreases i,
        {
            i -= 1;
            let e = &contract.functions[i];
            let check = !early_abort && !e.payable;
            if check {
                any_check = true;
            }
            proof {
                assert(entries.skip(i as int).skip(1) =~= entries.skip(i + 1));
                assert(entries.skip(i as int)[0] == entries[i as int]);
                lemma_table_regs_suffix(entries, early_abort, i as int);
            }
            if fits {
                let own: usize = if check {
                    4
                } else {
                    1
                };
                if e.params.len() > usize::MAX - own || total > usize::MAX - own - e.params.len() {
                    fits = false;
                } else {
                    total = total + own + e.params.len();
                }
            }
        }
        assert(entries.skip(0) =~= entries);
        let reads = early_abort || any_check;
        assert(reads == reads_value(entries, early_abort)) by {
            if any_check {
                let j = choose|j: int| 0 <= j < count && checks_value(entries[j], early_abort);
                assert(!entries[j].payable);
            }
            if reads_value(entries, early_abort) && !early_abort {
                let j = choose|j: int| 0 <= j < entries.len() && !entries[j].payable;
                assert(checks_value(entries[j], early_abort));
            }
        }
        let needs = if reads {
            vec![
                Primitive::SetReturn,
                Primitive::SystemHalt,
                Primitive::GetCallSize,
                Primitive::CopyCallValue,
                Primitive::GetMsgValue,
            ]
        } else {
            vec![
                Primitive::SetReturn,
                Primitive::SystemHalt,
                Primitive::GetCallSize,
                Primitive::CopyCallValue,
            ]
        };
        assert(needs@ =~= dispatch_needs(entries, early_abort));
        let fixed: usize = if early_abort {
            10
        } else {
            7
        };
        let regs: usize = if fits && total <= usize::MAX - fixed {
            total + fixed
        } else {
            usize::MAX
        };
        match binary.check(&needs, regs) {
            Err(e) => {
                return Err(e);
            },
            Ok(()) => {},
        }
        if !fits || total > usize::MAX - fixed {
            // More registers are needed than there are.
            return Err(CompileError::OutOfRegisters);
        }
        let r = binary.next_reg;
        let q: usize = if early_abort {
            r + 3
        } else {
            r
        };
        let d: usize = q + 2;
        let sel = reg(d, 2);
        let rest = reg(d, 3);
        let rest_len = reg(d, 4);
        let job0 = binary.jobs.len();
        let mut code = prelude_instrs(early_abort, ns, r);
        let mut selector = selector_instrs(reg(q, 1), reg(q, 0), d);
        code.append(&mut selector);
        let ghost head = code@;
        let mut b: usize = d + 5;
        let mut k: usize = 0;
        while k < count
            invariant
                k <= count,
                count == entries.len(),
                entries == contract.functions@,
                r == before.next_reg,
                d + 5 + table_regs(entries, early_abort) <= usize::MAX,
                b + table_regs(entries.skip(k as int), early_abort) == d + 5 + table_regs(
                    entries,
                    early_abort,
                ),
                binary.jobs@.len() == job0 + k,
                job0 == before.jobs@.len(),
                binary.jobs@.subrange(0, job0 as int) == before.jobs@,
                forall|j: int|
                    0 <= j < k ==> (#[trigger] binary.jobs@[job0 + j])@ == decode_job(
                        entries[j],
                        self.codec().bswap,
                    ),
                binary.grows(before),
                binary.globals == before.globals,
                binary.code == before.code,
                binary.next_reg == before.next_reg,
                code@ + table_code(
                    entries.skip(k as int),
                    early_abort,
                    sel,
                    rest,
                    rest_len,
                    ns,
                    (job0 + k) as usize,
                    b,
                ) == head + table_code(
                    entries,
                    early_abort,
                    sel,
                    rest,
                    rest_len,
                    ns,
                    job0,
                    (d + 5) as usize,
                ),
            decreases count - k,
        {
            let e = &contract.functions[k];
            let check = !early_abort && !e.payable;
            let ghost jobs_before = binary.jobs@;
            let ghost code_before = code@;
            proof {
                assert(entries.skip(k as int).skip(1) =~= entries.skip(k + 1));
                assert(entries.skip(k as int)[0] == entries[k as int]);
            }
            let job = binary.add_job(
                CodecJob {
                    load: false,
                    bswap: self.abi().bswap,
                    packed: Vec::new(),
                    args: Vec::new(),
                    tys: copy_types(Vec::new(), &e.params),
                },
            );
            proof {
                assert(Seq::<crate::ir::AbiType>::empty() + e.params@ =~= e.params@);
                assert(binary.jobs@.subrange(0, job0 as int) =~= jobs_before.subrange(
                    0,
                    job0 as int,
                ));
                assert forall|j: int| 0 <= j < k + 1 implies (#[trigger] binary.jobs@[job0 + j])@
                    == decode_job(entries[j], self.codec().bswap) by {
                    if j < k {
                        assert(binary.jobs@[job0 + j] == jobs_before[job0 + j]);
                    }
                }
            }
            let mut case = case_instrs(
                e.selector,
                check,
                e.function,
                e.params.len(),
                sel,
                rest,
                rest_len,
                ns,
                job,
                b,
            );
            let ghost case_seq = case@;
            code.append(&mut case);
            let own: usize = if check {
                4
            } else {
                1
            };
            proof {
                let tail = table_code(
                    entries.skip(k + 1),
                    early_abort,
                    sel,
                    rest,
                    rest_len,
                    ns,
                    (job0 + k + 1) as usize,
                    (b + own + e.params@.len()) as usize,
                );
                assert((code_before + case_seq) + tail =~= code_before + (case_seq + tail));
            }
            b = b + own + e.params.len();
            k += 1;
        }
        let mut bail = halt_instrs(STATUS_REVERT, Operand::Null, word(0));
        let ghost code_before = code@;
        code.append(&mut bail);
        proof {
            assert(entries.skip(count as int) =~= Seq::<DispatchEntry>::empty());
            assert(code@ =~= code_before + bail_code());
            assert(head + table_code(
                entries,
                early_abort,
                sel,
                rest,
                rest_len,
                ns,
                job0,
                (d + 5) as usize,
            ) =~= dispatch_code(entries, early_abort, ns, job0, r));
        }
        match binary.take_regs(regs) {
            Err(e) => {
                assert(false);
                return Err(e);
            },
            Ok(_) => {},
        }
        binary.append(code);
        Ok(())
    }

    /// Builds the module of `contract`: declares the host primitives and
    /// emits the entry point.
    pub fn build(
        contract: &Contract,
        ns: Namespace,
        filename: &str,
        opt: OptLevel,
        math_overflow_check: bool,
    ) -> (out: Result<Binary, CompileError>)
        ensures
            out.is_ok() == (dispatch_regs(contract.functions@, build_early_abort(contract))
                <= usize::MAX),
            out.is_err() ==> out == Err::<Binary, CompileError>(CompileError::OutOfRegisters),
            out.is_ok() ==> {
                let b = out.unwrap();
                &&& b.wf()
                &&& b.name@ == contract.name@
                &&& b.filename@ == filename@
                &&& b.opt == opt
                &&& b.math_overflow_check == math_overflow_check
                &&& b.function_abort_value_transfers == build_early_abort(contract)
                &&& b.externals@ == standard_table()
                &&& b.globals@.len() == 2
                &&& b.code@ == dispatch_code(
                    contract.functions@,
                    build_early_abort(contract),
                    ns,
                    0,
                    0,
                )
                &&& b.next_reg == dispatch_regs(contract.functions@, build_early_abort(contract))
                &&& b.jobs@.len() == contract.functions@.len()
                &&& forall|i: int|
                    0 <= i < contract.functions@.len() ==> (#[trigger] b.jobs@[i])@ == decode_job(
                        contract.functions@[i],
                        false,
                    )
                &&& ns.wf() ==> crate::typing::code_kinds(b, 0, Seq::empty()) is Ok
            },
    {
        let target = LachainTarget::new();
        let mut binary = Binary::new(contract.name.as_str(), filename, opt, math_overflow_check);
        binary.set_early_value_aborts(contract);
        target.declare_externals(&mut binary);
        let ghost declared = binary;
        proof {
            lemma_standard_table();
            let needs = dispatch_needs(contract.functions@, build_early_abort(contract));
            assert forall|i: int| 0 <= i < needs.len() implies declared.externals@.contains(
                #[trigger] needs[i],
            ) by {
                assert(needs[i].is_standard());
                assert(declared.declares(needs[i]));
            }
            crate::binary::lemma_first_missing(declared.externals@, needs);
            assert(Seq::<Instr>::empty() + dispatch_code(
                contract.functions@,
                build_early_abort(contract),
                ns,
                0,
                0,
            ) =~= dispatch_code(contract.functions@, build_early_abort(contract), ns, 0, 0));
        }
        match target.function_dispatch(&mut binary, contract, ns) {
            Err(e) => Err(e),
            Ok(()) => {
                assert forall|i: int| 0 <= i < contract.functions@.len() implies (
                #[trigger] binary.jobs@[i])@ == decode_job(contract.functions@[i], false) by {
                    assert(binary.jobs@[0 + i]@ == decode_job(
                        contract.functions@[i],
                        target.codec().bswap,
                    ));
                }
                proof {
                    if ns.wf() {
                        crate::typing_laws::law_entry_point_is_well_typed(
                            binary,
                            contract.functions@,
                            build_early_abort(contract),
                            ns,
                        );
                    }
                }
                Ok(binary)
            },
        }
    }
}

/// Whether value is refused on entry for `contract`: it is where no
/// function of the contract is payable.
pub open spec fn build_early_abort(contract: &Contract) -> bool {
    forall|i: int| 0 <= i < contract.functions@.len() ==> !contract.functions@[i].payable
}

} // verus!
