//! What the entry point means on the reference machine: which invocations
//! it reverts, and which function it enters for the others.

use vstd::prelude::*;
use crate::binary::{DispatchEntry, Namespace};
use crate::builtins::single_value_code;
use crate::bytes::{le_bytes, lemma_le_bytes_len, lemma_word_round_trip, zeros};
use crate::call_laws::lemma_bail;
use crate::emit::{host, word, zero};
use crate::entry::{
    body_len,
    case_code,
    case_regs,
    checks_value,
    dispatch_code,
    dispatch_regs,
    prelude_base,
    prelude_code,
    prelude_regs,
    selector_code,
    table_code,
    table_regs,
    value_check_code,
};
use crate::halt::bail_code;
use crate::host::Primitive;
use crate::ir::{Args, Instr, Operand, Predicate};
use crate::machine::{reverted, run, truth, Outcome, State, ADDRESS_SPACE};
use crate::semantics::{
    keeps,
    lemma_bind,
    lemma_bind_word,
    lemma_fresh_buffer,
    lemma_le_bytes_zero,
    lemma_run_concat,
    lemma_run_shift,
    lemma_written,
};
use crate::steps::{
    lemma_eval_const,
    lemma_step_alloca,
    lemma_step_bentolen,
    lemma_step_call_size,
    lemma_step_compare,
    lemma_step_copy_call_data,
    lemma_step_decode,
    lemma_step_enter,
    lemma_step_getter,
    lemma_step_init_heap,
    lemma_step_load,
    lemma_step_malloc,
    lemma_step_offset,
    lemma_step_skip,
    lemma_step_store,
    lemma_step_sub,
};

verus! {

/// The value sent along with the invocation, as the host writes it.
pub open spec fn value_sent(s: State) -> Seq<u8> {
    s.host.context[Primitive::GetMsgValue.index_of() as int]
}

/// The host knows the value sent, and it has the width of a value.
pub open spec fn has_value(s: State, ns: Namespace) -> bool {
    &&& Primitive::GetMsgValue.index_of() < s.host.context.len()
    &&& value_sent(s).len() == ns.value_length
}

/// The four bytes that select a function: its selector, most significant
/// byte first.
pub open spec fn selector_bytes(selector: u32) -> Seq<u8> {
    le_bytes(selector as nat, 4).reverse()
}

/// The first entry whose selector is spelled by `leading`.
pub open spec fn first_match(entries: Seq<DispatchEntry>, leading: Seq<u8>) -> Option<int>
    decreases entries.len(),
{
    if entries.len() == 0 {
        None
    } else if selector_bytes(entries[0].selector) == leading {
        Some(0)
    } else {
        match first_match(entries.skip(1), leading) {
            Some(i) => Some(i + 1),
            None => None,
        }
    }
}

/// What the entry point decides.
pub enum Decision {
    /// The invocation is reverted with no data.
    Revert,
    /// The body of the function with this handle runs.
    Enter(usize),
}

/// What the cases decide for call data that starts with `leading`: the
/// first function whose selector matches is entered, unless it refuses the
/// value or the codec cannot decode its arguments; with no match the
/// invocation is reverted.
pub open spec fn table_decision(
    entries: Seq<DispatchEntry>,
    early_abort: bool,
    leading: Seq<u8>,
    value: Seq<u8>,
    decodings: Seq<Option<Seq<Seq<u8>>>>,
    job: usize,
) -> Decision {
    match first_match(entries, leading) {
        None => Decision::Revert,
        Some(i) => if checks_value(entries[i], early_abort) && value != zeros(value.len()) {
            Decision::Revert
        } else if decodings[job + i] is None {
            Decision::Revert
        } else {
            Decision::Enter(entries[i].function)
        },
    }
}

/// The codec has an outcome for the decoding job of every function, the
/// jobs standing in the order of the functions from `job` on, and where it
/// decodes it yields one value for each parameter.
pub open spec fn decodable(
    decodings: Seq<Option<Seq<Seq<u8>>>>,
    entries: Seq<DispatchEntry>,
    job: usize,
) -> bool {
    &&& job + entries.len() <= decodings.len()
    &&& job + entries.len() <= usize::MAX
    &&& forall|i: int|
        0 <= i < entries.len() ==> (decodings[job + i] matches Some(values) ==> values.len() == (
        #[trigger] entries[i]).params@.len())
}

/// What the entry point decides for an invocation with the given call data
/// and value.
pub open spec fn decision(
    entries: Seq<DispatchEntry>,
    early_abort: bool,
    call_data: Seq<u8>,
    value: Seq<u8>,
    decodings: Seq<Option<Seq<Seq<u8>>>>,
    job: usize,
) -> Decision {
    if early_abort && value != zeros(value.len()) {
        Decision::Revert
    } else if call_data.len() < 4 {
        Decision::Revert
    } else {
        table_decision(entries, early_abort, call_data.subrange(0, 4), value, decodings, job)
    }
}

/// Whether an outcome is what a decision asks for.
pub open spec fn agrees(out: Outcome, v: Decision) -> bool {
    match v {
        Decision::Revert => out matches Outcome::Halted(_, h) && h == reverted(),
        Decision::Enter(f) => out matches Outcome::Entered(_, g) && g == f,
    }
}

/// The first match is an entry whose selector is spelled by `leading`, and
/// no entry before it is; where there is no match, no entry is.
pub proof fn lemma_first_match(entries: Seq<DispatchEntry>, leading: Seq<u8>)
    ensures
        match first_match(entries, leading) {
            Some(i) => {
                &&& 0 <= i < entries.len()
                &&& selector_bytes(entries[i].selector) == leading
                &&& forall|j: int|
                    0 <= j < i ==> selector_bytes((#[trigger] entries[j]).selector) != leading
            },
            None => forall|j: int|
                0 <= j < entries.len() ==> selector_bytes((#[trigger] entries[j]).selector)
                    != leading,
        },
    decreases entries.len(),
{
    if entries.len() > 0 && selector_bytes(entries[0].selector) != leading {
        let rest = entries.skip(1);
        lemma_first_match(rest, leading);
        assert forall|j: int| 0 <= j < rest.len() implies rest[j] == entries[j + 1] by {}
        match first_match(rest, leading) {
            Some(i) => {
                assert forall|j: int| 0 <= j < i + 1 implies selector_bytes(
                    (#[trigger] entries[j]).selector,
                ) != leading by {
                    if j > 0 {
                        assert(rest[j - 1] == entries[j]);
                    }
                }
            },
            None => {
                assert forall|j: int| 0 <= j < entries.len() implies selector_bytes(
                    (#[trigger] entries[j]).selector,
                ) != leading by {
                    if j > 0 {
                        assert(rest[j - 1] == entries[j]);
                    }
                }
            },
        }
    }
}

/// The value check goes on where the value sent is zero, and reverts with
/// no data where it is not.
pub proof fn lemma_value_check(s: State, ns: Namespace, r: usize)
    requires
        ns.wf(),
        r + 2 <= usize::MAX,
        has_value(s, ns),
        s.has_room(ns.value_length as nat),
    ensures
        value_sent(s) == zeros(ns.value_length as nat) ==> (run(value_check_code(ns, r), 0, s)
            matches Outcome::Completed(t) && keeps(s, t, r) && t.host == s.host && t.mem.len()
            == s.mem.len() + ns.value_length),
        value_sent(s) != zeros(ns.value_length as nat) ==> (run(value_check_code(ns, r), 0, s)
            matches Outcome::Halted(t, h) && h == reverted()),
{
    let code = value_check_code(ns, r);
    let n = ns.value_length as u32;
    let v = value_sent(s);
    let a = s.mem.len();
    let buf = Operand::Reg(r);
    let r1 = (r + 1) as usize;
    let r2 = (r + 2) as usize;
    let head = single_value_code(Primitive::GetMsgValue, n, r) + seq![
        Instr::Compare { dst: r2, pred: Predicate::Eq, lhs: Operand::Reg(r1), rhs: zero(n) },
        Instr::SkipIf { cond: Operand::Reg(r2), count: 3 },
    ];
    assert(code =~= head + bail_code());
    lemma_step_alloca(s, r, n);
    let s1 = s.grown(n as nat).bind(r, le_bytes(a, 4));
    lemma_fresh_buffer(s, r, n as nat);
    lemma_written(s1, buf, v);
    let s2 = s1.write_at(buf, v).unwrap();
    lemma_step_getter(s1, Primitive::GetMsgValue, buf, s2);
    lemma_step_load(s2, r1, buf, n, v);
    let s3 = s2.bind(r1, v);
    lemma_bind(s2, r1, v);
    lemma_le_bytes_zero(n as nat);
    assert(s3.eval(zero(n)) == Some(zeros(n as nat)));
    lemma_step_compare(s3, r2, Predicate::Eq, Operand::Reg(r1), zero(n), v, zeros(n as nat));
    let c = v == zeros(n as nat);
    let s4 = s3.bind(r2, truth(c));
    lemma_bind(s3, r2, truth(c));
    lemma_step_skip(s4, Operand::Reg(r2), 3, c);
    assert(run(code, 3, s3) == run(code, 4, s4));
    assert(run(code, 2, s2) == run(code, 3, s3));
    assert(run(code, 1, s1) == run(code, 2, s2));
    assert(run(code, 0, s) == run(code, 1, s1));
    if c {
        assert(run(code, 8, s4) == Outcome::Completed(s4));
        assert(run(code, 4, s4) == Outcome::Completed(s4));
        assert(s4.mem.subrange(0, a as int) =~= s.mem);
        assert forall|x: usize| x < r implies s4.reg(x) == s.reg(x) by {
            assert(s1.reg(x) == s.reg(x));
            assert(s3.reg(x) == s2.reg(x));
        }
    } else {
        lemma_run_shift(head, bail_code(), 0, s4);
        lemma_bail(s4);
        assert(run(code, 4, s4) == run(code, 5, s4));
    }
}

/// A state in which the cases of the dispatch can run: the selector
/// register holds `sel_bytes`, the rest of the call data is readable, and
/// the value sent has the width of a value.
pub open spec fn at_table(
    s: State,
    sel: Operand,
    rest: Operand,
    rest_len: Operand,
    ns: Namespace,
    b: usize,
    sel_bytes: Seq<u8>,
) -> bool {
    &&& sel.below(b)
    &&& rest.below(b)
    &&& rest_len.below(b)
    &&& s.eval(sel) == Some(sel_bytes)
    &&& sel_bytes.len() == 4
    &&& s.eval_word(rest_len).is_some()
    &&& s.read_at(rest, s.eval_word(rest_len).unwrap()).is_some()
    &&& has_value(s, ns)
    &&& s.has_room(ns.value_length as nat)
}

/// One case of the dispatch: a selector that is not the function's leaves
/// the case behind with nothing changed but the register of the test; the
/// function's selector enters the function, or reverts where the function
/// refuses the value sent or the codec cannot decode the arguments.
pub proof fn lemma_case(
    s: State,
    selector: u32,
    check: bool,
    function: usize,
    count: usize,
    sel: Operand,
    rest: Operand,
    rest_len: Operand,
    ns: Namespace,
    job: usize,
    b: usize,
    sel_bytes: Seq<u8>,
)
    requires
        ns.wf(),
        b + 4 + count <= usize::MAX,
        at_table(s, sel, rest, rest_len, ns, b, sel_bytes),
        job < s.decodings.len(),
        s.decodings[job as int] matches Some(values) ==> values.len() == count,
    ensures
        ({
            let out = run(
                case_code(selector, check, function, count, sel, rest, rest_len, ns, job, b),
                0,
                s,
            );
            if sel_bytes != le_bytes(selector as nat, 4) {
                out == Outcome::Completed(s.bind(b, truth(true)))
            } else if check && value_sent(s) != zeros(ns.value_length as nat) {
                out matches Outcome::Halted(_, h) && h == reverted()
            } else if s.decodings[job as int] is None {
                out matches Outcome::Halted(_, h) && h == reverted()
            } else {
                out matches Outcome::Entered(_, f) && f == function
            }
        }),
{
    let code = case_code(selector, check, function, count, sel, rest, rest_len, ns, job, b);
    let want = le_bytes(selector as nat, 4);
    let first = if check {
        (b + 4) as usize
    } else {
        (b + 1) as usize
    };
    let head = seq![
        Instr::Compare { dst: b, pred: Predicate::Ne, lhs: sel, rhs: word(selector) },
        Instr::SkipIf { cond: Operand::Reg(b), count: body_len(check) as usize },
    ];
    let tail = seq![
        Instr::Decode { first, data: rest, len: rest_len, job },
        Instr::Invoke { function, first, count },
        Instr::Unreachable,
    ];
    let check_code = if check {
        value_check_code(ns, (b + 1) as usize)
    } else {
        Seq::empty()
    };
    assert(code =~= head + (check_code + tail));
    lemma_eval_const(s, selector);
    lemma_le_bytes_len(selector as nat, 4);
    lemma_step_compare(s, b, Predicate::Ne, sel, word(selector), sel_bytes, want);
    let c = sel_bytes != want;
    let s1 = s.bind(b, truth(c));
    lemma_bind(s, b, truth(c));
    lemma_step_skip(s1, Operand::Reg(b), body_len(check) as usize, c);
    assert(run(code, 0, s) == run(code, 1, s1));
    if c {
        assert(code.len() == 2 + body_len(check));
        assert(run(code, code.len(), s1) == Outcome::Completed(s1));
        assert(run(code, 1, s1) == Outcome::Completed(s1));
    } else {
        assert(run(code, 1, s1) == run(code, 2, s1));
        lemma_run_shift(head, check_code + tail, 0, s1);
        assert(s1.read_at(rest, s.eval_word(rest_len).unwrap()).is_some()) by {
            assert(s1.eval(rest) == s.eval(rest));
        }
        assert(s1.eval_word(rest_len) == s.eval_word(rest_len)) by {
            assert(s1.eval(rest_len) == s.eval(rest_len));
        }
        if check {
            lemma_value_check(s1, ns, (b + 1) as usize);
            lemma_run_concat(check_code, tail, 0, s1);
            if value_sent(s) == zeros(ns.value_length as nat) {
                let s2 = run(check_code, 0, s1)->Completed_0;
                crate::semantics::lemma_keeps(s1, s2, (b + 1) as usize, rest);
                crate::semantics::lemma_keeps(s1, s2, (b + 1) as usize, rest_len);
                assert(s2.decodings == s.decodings);
                lemma_step_decode(s2, first, rest, rest_len, job, s.eval_word(rest_len).unwrap());
                match s.decodings[job as int] {
                    Some(values) => {
                        let s3 = s2.bind_all(first, values, 0);
                        lemma_step_enter(s3, function, first, count);
                        assert(run(tail, 1, s3) == Outcome::Entered(s3, function));
                        assert(run(tail, 0, s2) == Outcome::Entered(s3, function));
                    },
                    None => {
                        assert(run(tail, 0, s2) matches Outcome::Halted(_, h) && h == reverted());
                    },
                }
            }
        } else {
            assert(check_code + tail =~= tail);
            lemma_step_decode(s1, first, rest, rest_len, job, s.eval_word(rest_len).unwrap());
            match s.decodings[job as int] {
                Some(values) => {
                    let s3 = s1.bind_all(first, values, 0);
                    lemma_step_enter(s3, function, first, count);
                    assert(run(tail, 1, s3) == Outcome::Entered(s3, function));
                    assert(run(tail, 0, s1) == Outcome::Entered(s3, function));
                },
                None => {
                    assert(run(tail, 0, s1) matches Outcome::Halted(_, h) && h == reverted());
                },
            }
        }
    }
}

/// The cases of the dispatch come to the decision of the table.
pub proof fn lemma_table(
    s: State,
    entries: Seq<DispatchEntry>,
    early_abort: bool,
    sel: Operand,
    rest: Operand,
    rest_len: Operand,
    ns: Namespace,
    job: usize,
    b: usize,
    sel_bytes: Seq<u8>,
)
    requires
        ns.wf(),
        b + table_regs(entries, early_abort) + 4 <= usize::MAX,
        at_table(s, sel, rest, rest_len, ns, b, sel_bytes),
        decodable(s.decodings, entries, job),
    ensures
        agrees(
            run(table_code(entries, early_abort, sel, rest, rest_len, ns, job, b), 0, s),
            table_decision(
                entries,
                early_abort,
                sel_bytes.reverse(),
                value_sent(s),
                s.decodings,
                job,
            ),
        ),
    decreases entries.len(),
{
    let code = table_code(entries, early_abort, sel, rest, rest_len, ns, job, b);
    let leading = sel_bytes.reverse();
    if entries.len() == 0 {
        lemma_bail(s);
    } else {
        let e = entries[0];
        let check = checks_value(e, early_abort);
        let case = case_code(
            e.selector,
            check,
            e.function,
            e.params@.len() as usize,
            sel,
            rest,
            rest_len,
            ns,
            job,
            b,
        );
        let b2 = (b + case_regs(e, early_abort)) as usize;
        let others = table_code(
            entries.skip(1),
            early_abort,
            sel,
            rest,
            rest_len,
            ns,
            (job + 1) as usize,
            b2,
        );
        assert(s.decodings[job + 0] matches Some(values) ==> values.len() == entries[0].params@.len());
        lemma_case(
            s,
            e.selector,
            check,
            e.function,
            e.params@.len() as usize,
            sel,
            rest,
            rest_len,
            ns,
            job,
            b,
            sel_bytes,
        );
        lemma_run_concat(case, others, 0, s);
        let want = le_bytes(e.selector as nat, 4);
        lemma_le_bytes_len(e.selector as nat, 4);
        assert((sel_bytes == want) == (leading == selector_bytes(e.selector))) by {
            assert(sel_bytes.reverse().reverse() =~= sel_bytes);
            assert(want.reverse().reverse() =~= want);
        }
        assert(table_regs(entries, early_abort) == case_regs(e, early_abort) + table_regs(
            entries.skip(1),
            early_abort,
        ));
        assert(code == case + others);
        if sel_bytes == want {
            assert(first_match(entries, leading) == Some(0int));
            assert(agrees(
                run(code, 0, s),
                table_decision(entries, early_abort, leading, value_sent(s), s.decodings, job),
            ));
        }
        if sel_bytes != want {
            let s1 = s.bind(b, truth(true));
            lemma_bind(s, b, truth(true));
            assert(s1.read_at(rest, s.eval_word(rest_len).unwrap()).is_some()) by {
                assert(s1.eval(rest) == s.eval(rest));
            }
            assert(s1.eval_word(rest_len) == s.eval_word(rest_len)) by {
                assert(s1.eval(rest_len) == s.eval(rest_len));
            }
            assert(at_table(s1, sel, rest, rest_len, ns, b2, sel_bytes));
            assert(decodable(s1.decodings, entries.skip(1), (job + 1) as usize)) by {
                assert forall|i: int| 0 <= i < entries.skip(1).len() implies (s1.decodings[job + 1
                    + i] matches Some(values) ==> values.len() == (#[trigger] entries.skip(
                    1,
                )[i]).params@.len()) by {
                    assert(entries.skip(1)[i] == entries[i + 1]);
                }
            }
            lemma_table(
                s1,
                entries.skip(1),
                early_abort,
                sel,
                rest,
                rest_len,
                ns,
                (job + 1) as usize,
                b2,
                sel_bytes,
            );
            assert(forall|i: int|
                0 <= i < entries.skip(1).len() ==> entries.skip(1)[i] == entries[i + 1]);
            assert(run(code, 0, s) == run(others, 0, s1));
            assert(value_sent(s1) == value_sent(s));
            lemma_first_match(entries.skip(1), leading);
            match first_match(entries.skip(1), leading) {
                Some(i) => {
                    assert(first_match(entries, leading) == Some(i + 1));
                    assert(0 <= i < entries.skip(1).len());
                    assert(entries.skip(1)[i] == entries[i + 1]);
                },
                None => {
                    assert(first_match(entries, leading) is None);
                },
            }
        }
    }
}

/// The module's two call-data variables are writable words of the memory.
pub open spec fn has_call_data_variables(s: State) -> bool {
    &&& s.eval_word(Operand::Global(crate::binary::CALLDATA_LEN)).is_some()
    &&& s.eval_word(Operand::Global(crate::binary::CALLDATA_LEN)).unwrap() + 4 <= s.mem.len()
    &&& s.eval_word(Operand::Global(crate::binary::CALLDATA_DATA)).is_some()
    &&& s.eval_word(Operand::Global(crate::binary::CALLDATA_DATA)).unwrap() + 4 <= s.mem.len()
}

/// The prelude proper copies the call data into a fresh buffer at the end
/// of the memory; register `q` takes the length and `q + 1` the buffer.
pub proof fn lemma_prelude_proper(s: State, ns: Namespace, q: usize)
    requires
        q + 1 <= usize::MAX,
        has_call_data_variables(s),
        s.host.call_data.len() < ADDRESS_SPACE,
        s.has_room(s.host.call_data.len()),
    ensures
        run(prelude_code(false, ns, q), 0, s) matches Outcome::Completed(t) && {
            &&& t.host == s.host
            &&& t.decodings == s.decodings
            &&& t.mem.len() == s.mem.len() + s.host.call_data.len()
            &&& t.eval_word(Operand::Reg(q)) == Some(s.host.call_data.len())
            &&& t.read_at(Operand::Reg((q + 1) as usize), s.host.call_data.len()) == Some(
                s.host.call_data,
            )
        },
{
    let code = prelude_code(false, ns, q);
    let cd = s.host.call_data;
    let n = cd.len();
    let a = s.mem.len();
    let q1 = (q + 1) as usize;
    let len = Operand::Reg(q);
    let buf = Operand::Reg(q1);
    let len_var = Operand::Global(crate::binary::CALLDATA_LEN);
    let data_var = Operand::Global(crate::binary::CALLDATA_DATA);
    assert(code =~= seq![
        crate::emit::helper(crate::ir::Helper::InitHeap, Args::Empty),
        crate::emit::host_to(q, Primitive::GetCallSize, Args::Empty),
        Instr::Store { ptr: len_var, value: len },
        crate::emit::malloc(q1, len),
        Instr::Store { ptr: data_var, value: buf },
        host(Primitive::CopyCallValue, Args::Three(word(0), len, buf)),
    ]);
    lemma_step_init_heap(s);
    lemma_step_call_size(s, q);
    let s1 = s.bind(q, le_bytes(n, 4));
    lemma_bind_word(s, q, n);
    lemma_bind(s, q, le_bytes(n, 4));
    lemma_le_bytes_len(n, 4);
    assert(s1.eval_word(len_var) == s.eval_word(len_var)) by {
        assert(s1.eval(len_var) == s.eval(len_var));
    }
    lemma_written(s1, len_var, le_bytes(n, 4));
    let s2 = s1.write_at(len_var, le_bytes(n, 4)).unwrap();
    lemma_step_store(s1, len_var, len, le_bytes(n, 4), s2);
    assert(s2.eval_word(len) == Some(n)) by {
        assert(s2.eval(len) == s1.eval(len));
    }
    lemma_step_malloc(s2, q1, len, n);
    let s3 = s2.grown(n).bind(q1, le_bytes(a, 4));
    lemma_fresh_buffer(s2, q1, n);
    lemma_bind(s2.grown(n), q1, le_bytes(a, 4));
    lemma_le_bytes_len(a, 4);
    assert(s3.eval_word(data_var) == s.eval_word(data_var)) by {
        assert(s3.eval(data_var) == s2.eval(data_var));
        assert(s2.eval(data_var) == s1.eval(data_var));
        assert(s1.eval(data_var) == s.eval(data_var));
    }
    lemma_written(s3, data_var, le_bytes(a, 4));
    let s4 = s3.write_at(data_var, le_bytes(a, 4)).unwrap();
    lemma_step_store(s3, data_var, buf, le_bytes(a, 4), s4);
    assert(s4.eval_word(buf) == Some(a)) by {
        assert(s4.eval(buf) == s3.eval(buf));
    }
    assert(s4.eval_word(len) == Some(n)) by {
        assert(s4.eval(len) == s3.eval(len));
        assert(s3.eval(len) == s2.eval(len));
    }
    lemma_written(s4, buf, cd);
    let s5 = s4.write_at(buf, cd).unwrap();
    assert(s4.host == s.host);
    lemma_step_copy_call_data(s4, len, buf, s5);
    assert(run(code, 6, s5) == Outcome::Completed(s5));
    assert(run(code, 5, s4) == Outcome::Completed(s5));
    assert(run(code, 4, s3) == Outcome::Completed(s5));
    assert(run(code, 3, s2) == Outcome::Completed(s5));
    assert(run(code, 2, s1) == Outcome::Completed(s5));
    assert(run(code, 1, s) == Outcome::Completed(s5));
    assert(run(code, 0, s) == Outcome::Completed(s5));
    assert(s5.eval_word(len) == Some(n)) by {
        assert(s5.eval(len) == s4.eval(len));
    }
}

/// The prelude reverts with no data where value is refused on entry and
/// the value sent is not zero. Else it copies the call data into a fresh
/// buffer; the registers behind those of the value check take the length
/// and the buffer.
pub proof fn lemma_prelude(s: State, early_abort: bool, ns: Namespace, r: usize)
    requires
        ns.wf(),
        r + prelude_regs(early_abort) <= usize::MAX,
        has_call_data_variables(s),
        has_value(s, ns),
        s.host.call_data.len() < ADDRESS_SPACE,
        s.has_room(s.host.call_data.len() + 32),
    ensures
        ({
            let out = run(prelude_code(early_abort, ns, r), 0, s);
            let q = prelude_base(early_abort, r);
            if early_abort && value_sent(s) != zeros(ns.value_length as nat) {
                out matches Outcome::Halted(_, h) && h == reverted()
            } else {
                out matches Outcome::Completed(t) && {
                    &&& t.host == s.host
                    &&& t.decodings == s.decodings
            &&& t.decodings == s.decodings
                    &&& t.mem.len() <= s.mem.len() + s.host.call_data.len() + 32
                    &&& t.eval_word(Operand::Reg(q)) == Some(s.host.call_data.len())
                    &&& t.read_at(Operand::Reg((q + 1) as usize), s.host.call_data.len()) == Some(
                        s.host.call_data,
                    )
                }
            }
        }),
{
    if early_abort {
        let q = (r + 3) as usize;
        let check = value_check_code(ns, r);
        let proper = prelude_code(false, ns, q);
        assert(prelude_code(true, ns, r) =~= check + proper) by {
            assert(prelude_code(false, ns, q) =~= Seq::<Instr>::empty() + prelude_code(
                false,
                ns,
                q,
            ));
        }
        lemma_value_check(s, ns, r);
        lemma_run_concat(check, proper, 0, s);
        if value_sent(s) == zeros(ns.value_length as nat) {
            let t0 = run(check, 0, s)->Completed_0;
            let len_var = Operand::Global(crate::binary::CALLDATA_LEN);
            let data_var = Operand::Global(crate::binary::CALLDATA_DATA);
            crate::semantics::lemma_keeps(s, t0, r, len_var);
            crate::semantics::lemma_keeps(s, t0, r, data_var);
            lemma_prelude_proper(t0, ns, q);
        }
    } else {
        lemma_prelude_proper(s, ns, r);
    }
}

/// Reading the selector reverts with no data where the call data has
/// fewer than four bytes. Else the selector register takes the first four
/// bytes in reverse, and the two registers behind it the rest of the call
/// data and its length.
pub proof fn lemma_selector(s: State, args: Operand, len: Operand, d: usize, cd: Seq<u8>)
    requires
        args.below(d),
        len.below(d),
        d + 4 <= usize::MAX,
        s.eval_word(len) == Some(cd.len()),
        s.read_at(args, cd.len()) == Some(cd),
        s.has_room(4),
    ensures
        ({
            let out = run(selector_code(args, len, d), 0, s);
            if cd.len() < 4 {
                out matches Outcome::Halted(_, h) && h == reverted()
            } else {
                out matches Outcome::Completed(t) && {
                    &&& t.host == s.host
                    &&& t.decodings == s.decodings
            &&& t.decodings == s.decodings
                    &&& t.mem.len() == s.mem.len() + 4
                    &&& t.eval(Operand::Reg((d + 2) as usize)) == Some(cd.subrange(0, 4).reverse())
                    &&& t.eval_word(Operand::Reg((d + 4) as usize)) == Some((cd.len() - 4) as nat)
                    &&& t.read_at(Operand::Reg((d + 3) as usize), (cd.len() - 4) as nat).is_some()
                }
            }
        }),
{
    let code = selector_code(args, len, d);
    let n = cd.len();
    let p = s.eval_word(args).unwrap();
    let a = s.mem.len();
    let d1 = (d + 1) as usize;
    let d2 = (d + 2) as usize;
    let d3 = (d + 3) as usize;
    let d4 = (d + 4) as usize;
    let head = seq![
        Instr::Compare { dst: d, pred: Predicate::Uge, lhs: len, rhs: word(4) },
        Instr::SkipIf { cond: Operand::Reg(d), count: 3 },
    ];
    let tail = seq![
        Instr::Alloca { dst: d1, bytes: 4 },
        crate::emit::helper(
            crate::ir::Helper::BeNToLeN,
            Args::Three(args, Operand::Reg(d1), word(4)),
        ),
        Instr::Load { dst: d2, ptr: Operand::Reg(d1), bytes: 4 },
        Instr::Offset { dst: d3, base: args, delta: word(4) },
        Instr::Arith { dst: d4, op: crate::ir::ArithOp::Sub, lhs: len, rhs: word(4) },
    ];
    assert(code =~= head + bail_code() + tail);
    assert(code =~= head + (bail_code() + tail));
    let lb = s.eval(len).unwrap();
    lemma_eval_const(s, 4);
    lemma_le_bytes_len(4, 4);
    lemma_word_round_trip(4);
    lemma_step_compare(s, d, Predicate::Uge, len, word(4), lb, le_bytes(4, 4));
    let c = n >= 4;
    let s1 = s.bind(d, truth(c));
    lemma_bind(s, d, truth(c));
    lemma_step_skip(s1, Operand::Reg(d), 3, c);
    assert(run(code, 0, s) == run(code, 1, s1));
    if !c {
        assert(run(code, 1, s1) == run(code, 2, s1));
        lemma_run_shift(head, bail_code() + tail, 0, s1);
        lemma_bail(s1);
        lemma_run_concat(bail_code(), tail, 0, s1);
    } else {
        assert(run(code, 1, s1) == run(code, 5, s1));
        lemma_run_shift(head + bail_code(), tail, 0, s1);
        assert(s1.eval_word(args) == Some(p)) by {
            assert(s1.eval(args) == s.eval(args));
        }
        assert(s1.eval_word(len) == Some(n)) by {
            assert(s1.eval(len) == s.eval(len));
        }
        assert(s1.read_at(args, n) == Some(cd));
        lemma_step_alloca(s1, d1, 4);
        let s2 = s1.grown(4).bind(d1, le_bytes(a, 4));
        lemma_fresh_buffer(s1, d1, 4);
        let first4 = cd.subrange(0, 4);
        assert(s2.read_at(args, 4) == Some(first4)) by {
            assert(s2.read_at(args, n) == Some(cd));
            assert(s2.mem.subrange(p as int, (p + 4) as int) =~= s2.mem.subrange(
                p as int,
                (p + n) as int,
            ).subrange(0, 4));
        }
        lemma_written(s2, Operand::Reg(d1), first4.reverse());
        let s3 = s2.write_at(Operand::Reg(d1), first4.reverse()).unwrap();
        lemma_step_bentolen(s2, args, Operand::Reg(d1), 4, first4, s3);
        lemma_step_load(s3, d2, Operand::Reg(d1), 4, first4.reverse());
        let s4 = s3.bind(d2, first4.reverse());
        lemma_bind(s3, d2, first4.reverse());
        assert(s4.eval_word(args) == Some(p)) by {
            assert(s4.eval(args) == s3.eval(args));
            assert(s3.eval(args) == s2.eval(args));
        }
        lemma_step_offset(s4, d3, args, 4, p);
        let s5 = s4.bind(d3, le_bytes(p + 4, 4));
        lemma_bind_word(s4, d3, p + 4);
        lemma_bind(s4, d3, le_bytes(p + 4, 4));
        lemma_le_bytes_len(p + 4, 4);
        assert(s5.eval_word(len) == Some(n)) by {
            assert(s5.eval(len) == s4.eval(len));
            assert(s4.eval(len) == s3.eval(len));
            assert(s3.eval(len) == s2.eval(len));
        }
        lemma_step_sub(s5, d4, len, 4, n);
        let s6 = s5.bind(d4, le_bytes((n - 4) as nat, 4));
        lemma_bind_word(s5, d4, (n - 4) as nat);
        lemma_bind(s5, d4, le_bytes((n - 4) as nat, 4));
        lemma_le_bytes_len((n - 4) as nat, 4);
        assert(run(tail, 5, s6) == Outcome::Completed(s6));
        assert(run(tail, 4, s5) == Outcome::Completed(s6));
        assert(run(tail, 3, s4) == Outcome::Completed(s6));
        assert(run(tail, 2, s3) == Outcome::Completed(s6));
        assert(run(tail, 1, s2) == Outcome::Completed(s6));
        assert(run(tail, 0, s1) == Outcome::Completed(s6));
        assert(s6.eval(Operand::Reg(d2)) == Some(first4.reverse())) by {
            assert(s5.eval(Operand::Reg(d2)) == s4.eval(Operand::Reg(d2)));
        }
        assert(s6.read_at(Operand::Reg(d3), (n - 4) as nat).is_some()) by {
            assert(s5.eval_word(Operand::Reg(d3)) == Some(p + 4));
            assert(s6.eval(Operand::Reg(d3)) == s5.eval(Operand::Reg(d3)));
        }
    }
}

/// A state in which the entry point can run: the widths of the chain are
/// sound, the codec has an outcome for every decoding job from `job` on,
/// there are registers for it from `r` on, the module's call-data
/// variables exist, the host holds a value of the chain's width, and the
/// call data fits into the memory beside the scratch buffers.
pub open spec fn can_start(
    s: State,
    entries: Seq<DispatchEntry>,
    early_abort: bool,
    ns: Namespace,
    job: usize,
    r: usize,
) -> bool {
    &&& ns.wf()
    &&& decodable(s.decodings, entries, job)
    &&& r + dispatch_regs(entries, early_abort) + 4 <= usize::MAX
    &&& has_call_data_variables(s)
    &&& has_value(s, ns)
    &&& s.host.call_data.len() < ADDRESS_SPACE
    &&& s.has_room(s.host.call_data.len() + 68)
}

/// The entry point comes to its decision: it reverts with no data where
/// value is refused on entry and the value sent is not zero, where the
/// call data is shorter than a selector, where no function has the
/// selector, where the selected function refuses the value sent, and where
/// the codec cannot decode the arguments of the selected function; in
/// every other case it enters the first function that has the selector.
pub proof fn law_dispatch(
    s: State,
    entries: Seq<DispatchEntry>,
    early_abort: bool,
    ns: Namespace,
    job: usize,
    r: usize,
)
    requires
        can_start(s, entries, early_abort, ns, job, r),
    ensures
        agrees(
            run(dispatch_code(entries, early_abort, ns, job, r), 0, s),
            decision(entries, early_abort, s.host.call_data, value_sent(s), s.decodings, job),
        ),
{
    let cd = s.host.call_data;
    let q = prelude_base(early_abort, r);
    let d = (q + 2) as usize;
    let args = Operand::Reg((q + 1) as usize);
    let len = Operand::Reg(q);
    let sel = Operand::Reg((d + 2) as usize);
    let rest = Operand::Reg((d + 3) as usize);
    let rest_len = Operand::Reg((d + 4) as usize);
    let prelude = prelude_code(early_abort, ns, r);
    let selector = selector_code(args, len, d);
    let table = table_code(entries, early_abort, sel, rest, rest_len, ns, job, (d + 5) as usize);
    assert(dispatch_code(entries, early_abort, ns, job, r) == prelude + selector + table);
    lemma_prelude(s, early_abort, ns, r);
    lemma_run_concat(prelude, selector, 0, s);
    if !(early_abort && value_sent(s) != zeros(ns.value_length as nat)) {
        let t0 = run(prelude, 0, s)->Completed_0;
        lemma_selector(t0, args, len, d, cd);
        if cd.len() >= 4 {
            let t1 = run(selector, 0, t0)->Completed_0;
            let sel_bytes = cd.subrange(0, 4).reverse();
            assert(sel_bytes.reverse() =~= cd.subrange(0, 4));
            assert(at_table(t1, sel, rest, rest_len, ns, (d + 5) as usize, sel_bytes));
            lemma_table(
                t1,
                entries,
                early_abort,
                sel,
                rest,
                rest_len,
                ns,
                job,
                (d + 5) as usize,
                sel_bytes,
            );
            lemma_run_concat(prelude + selector, table, 0, s);
        } else {
            lemma_run_concat(prelude + selector, table, 0, s);
        }
    } else {
        lemma_run_concat(prelude + selector, table, 0, s);
    }
}

/// An invocation whose first four bytes are the selector of no function
/// is reverted with no data, whatever bytes follow them and whatever value
/// was sent.
pub proof fn law_unmatched_selector_reverts(
    s: State,
    entries: Seq<DispatchEntry>,
    early_abort: bool,
    ns: Namespace,
    job: usize,
    r: usize,
)
    requires
        can_start(s, entries, early_abort, ns, job, r),
        s.host.call_data.len() >= 4 ==> forall|i: int|
            0 <= i < entries.len() ==> selector_bytes((#[trigger] entries[i]).selector)
                != s.host.call_data.subrange(0, 4),
    ensures
        run(dispatch_code(entries, early_abort, ns, job, r), 0, s) matches Outcome::Halted(_, h)
            && h == reverted(),
{
    law_dispatch(s, entries, early_abort, ns, job, r);
    if s.host.call_data.len() >= 4 {
        lemma_first_match(entries, s.host.call_data.subrange(0, 4));
    }
}

/// The first entry that has the selector of the call data is entry `i`.
pub open spec fn selects(entries: Seq<DispatchEntry>, call_data: Seq<u8>, i: int) -> bool {
    &&& call_data.len() >= 4
    &&& 0 <= i < entries.len()
    &&& selector_bytes(entries[i].selector) == call_data.subrange(0, 4)
    &&& forall|j: int|
        0 <= j < i ==> selector_bytes((#[trigger] entries[j]).selector) != call_data.subrange(0, 4)
}

/// An invocation that selects a function that is not payable and sends a
/// value other than zero is reverted with no data, and the body of the
/// function does not run.
pub proof fn law_nonpayable_refuses_value(
    s: State,
    entries: Seq<DispatchEntry>,
    early_abort: bool,
    ns: Namespace,
    job: usize,
    r: usize,
    i: int,
)
    requires
        can_start(s, entries, early_abort, ns, job, r),
        selects(entries, s.host.call_data, i),
        !entries[i].payable,
        value_sent(s) != zeros(ns.value_length as nat),
    ensures
        run(dispatch_code(entries, early_abort, ns, job, r), 0, s) matches Outcome::Halted(_, h)
            && h == reverted(),
        !(run(dispatch_code(entries, early_abort, ns, job, r), 0, s) is Entered),
{
    law_dispatch(s, entries, early_abort, ns, job, r);
    lemma_first_match(entries, s.host.call_data.subrange(0, 4));
}

/// An invocation that selects a function and sends no value, or selects a
/// payable function of a contract that does not refuse value on entry,
/// runs the body of that function, provided the codec can decode its
/// arguments.
pub proof fn law_dispatch_enters(
    s: State,
    entries: Seq<DispatchEntry>,
    early_abort: bool,
    ns: Namespace,
    job: usize,
    r: usize,
    i: int,
)
    requires
        can_start(s, entries, early_abort, ns, job, r),
        selects(entries, s.host.call_data, i),
        value_sent(s) == zeros(ns.value_length as nat) || (entries[i].payable && !early_abort),
        s.decodings[job + i] is Some,
    ensures
        run(dispatch_code(entries, early_abort, ns, job, r), 0, s) matches Outcome::Entered(_, f)
            && f == entries[i].function,
{
    law_dispatch(s, entries, early_abort, ns, job, r);
    lemma_first_match(entries, s.host.call_data.subrange(0, 4));
}

/// An invocation that selects a function whose arguments the codec cannot
/// decode, because the call data behind the selector is too short or
/// malformed, is reverted with no data: the failure comes before the
/// function is entered, and its body does not run.
pub proof fn law_failed_decode_reverts(
    s: State,
    entries: Seq<DispatchEntry>,
    early_abort: bool,
    ns: Namespace,
    job: usize,
    r: usize,
    i: int,
)
    requires
        can_start(s, entries, early_abort, ns, job, r),
        selects(entries, s.host.call_data, i),
        s.decodings[job + i] is None,
    ensures
        run(dispatch_code(entries, early_abort, ns, job, r), 0, s) matches Outcome::Halted(_, h)
            && h == reverted(),
        !(run(dispatch_code(entries, early_abort, ns, job, r), 0, s) is Entered),
{
    law_dispatch(s, entries, early_abort, ns, job, r);
    lemma_first_match(entries, s.host.call_data.subrange(0, 4));
}

} // verus!
