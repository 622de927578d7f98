//! What termination and the calls that leave the contract mean on the
//! reference machine, and the laws that follow: the host gets the value in
//! its own byte order, a status of 0 is success, and a failure that no flag
//! was asked for reverts the invocation with no data.

use vstd::prelude::*;
use crate::binary::Namespace;
use crate::bytes::{le_bytes, lemma_le_bytes_len, lemma_le_value_word, lemma_word_round_trip, zeros};
use crate::calls::{external_call_code, status_code, value_le_code, value_transfer_code, CallTy};
use crate::emit::word;
use crate::halt::{bail_code, halt_code};
use crate::host::Primitive;
use crate::ir::{Instr, Operand, Predicate};
use crate::machine::{
    returning,
    reverted,
    run,
    truth,
    CallRecord,
    HaltOutcome,
    Outcome,
    State,
};
use crate::semantics::{
    keeps,
    lemma_bind,
    lemma_fresh_buffer,
    lemma_keeps,
    lemma_keeps_chain,
    lemma_run_concat,
    lemma_run_shift,
    lemma_written,
};
use crate::steps::{
    lemma_eval_const,
    lemma_step_alloca,
    lemma_step_be32tolen,
    lemma_step_compare,
    lemma_step_invoke,
    lemma_step_set_return,
    lemma_step_skip,
    lemma_step_store,
    lemma_step_system_halt,
    lemma_step_transfer,
};

verus! {

/// The null pointer is address 0, and reading nothing from it succeeds.
pub proof fn lemma_null(s: State)
    ensures
        s.eval_word(Operand::Null) == Some(0nat),
        s.read_at(Operand::Null, 0) == Some(Seq::<u8>::empty()),
{
    lemma_le_value_word(zeros(4));
    assert(s.mem.subrange(0, 0) =~= Seq::<u8>::empty());
}

/// The termination sequence ends the invocation with the given status and
/// the bytes that `data` and `len` name.
pub proof fn lemma_halt(
    s: State,
    status: u32,
    data: Operand,
    len: Operand,
    p: nat,
    n: nat,
    bytes: Seq<u8>,
)
    requires
        s.eval_word(data) == Some(p),
        s.eval_word(len) == Some(n),
        s.read_at(data, n) == Some(bytes),
    ensures
        ({
            let h = HaltOutcome {
                status,
                data_pointer: p as u32,
                data_length: n as u32,
                data: bytes,
            };
            run(halt_code(status, data, len), 0, s) == Outcome::Halted(
                s.with_host(returning(s.host, h)),
                h,
            )
        }),
{
    let code = halt_code(status, data, len);
    lemma_step_set_return(s, data, len, p, n, bytes);
    let h = HaltOutcome { status, data_pointer: p as u32, data_length: n as u32, data: bytes };
    let s1 = s.with_host(returning(s.host, h));
    lemma_step_system_halt(s1, status);
    assert(run(code, 1, s1) == Outcome::Halted(s1, h));
    assert(run(code, 0, s) == Outcome::Halted(s1, h));
}

/// The bail-out reverts with no data, whatever the state.
pub proof fn lemma_bail(s: State)
    ensures
        run(bail_code(), 0, s) == Outcome::Halted(
            s.with_host(returning(s.host, reverted())),
            reverted(),
        ),
{
    lemma_null(s);
    lemma_eval_const(s, 0);
    lemma_halt(s, 1, Operand::Null, word(0), 0, 0, Seq::empty());
}

/// The status test: a status of 0 binds the flag to true and goes on.
/// Another status binds the flag to false and goes on where a flag was
/// asked for, and reverts with no data where none was.
pub proof fn lemma_status(s: State, status: Operand, flag: usize, want_success: bool, st: u32)
    requires
        s.eval(status) == Some(le_bytes(st as nat, 4)),
    ensures
        (want_success || st == 0) ==> run(status_code(status, flag, want_success), 0, s)
            == Outcome::Completed(s.bind(flag, truth(st == 0))),
        !(want_success || st == 0) ==> run(status_code(status, flag, want_success), 0, s)
            == Outcome::Halted(
            s.bind(flag, truth(false)).with_host(returning(s.host, reverted())),
            reverted(),
        ),
{
    let code = status_code(status, flag, want_success);
    let a = le_bytes(st as nat, 4);
    let b = le_bytes(0, 4);
    lemma_le_bytes_len(st as nat, 4);
    lemma_le_bytes_len(0, 4);
    lemma_eval_const(s, 0);
    lemma_word_round_trip(st as nat);
    lemma_word_round_trip(0);
    assert((a == b) == (st == 0));
    lemma_step_compare(s, flag, Predicate::Eq, status, word(0), a, b);
    let s1 = s.bind(flag, truth(st == 0));
    lemma_bind(s, flag, truth(st == 0));
    if want_success {
        assert(run(code, 1, s1) == Outcome::Completed(s1));
        assert(run(code, 0, s) == Outcome::Completed(s1));
    } else {
        let head = seq![
            Instr::Compare { dst: flag, pred: Predicate::Eq, lhs: status, rhs: word(0) },
            Instr::SkipIf { cond: Operand::Reg(flag), count: 3 },
        ];
        assert(code =~= head + bail_code());
        lemma_step_skip(s1, Operand::Reg(flag), 3, st == 0);
        if st == 0 {
            assert(run(code, 5, s1) == Outcome::Completed(s1));
            assert(run(code, 1, s1) == Outcome::Completed(s1));
            assert(run(code, 0, s) == Outcome::Completed(s1));
        } else {
            lemma_run_shift(head, bail_code(), 0, s1);
            lemma_bail(s1);
            assert(run(code, 1, s1) == run(code, 2, s1));
            assert(run(code, 0, s) == run(code, 1, s1));
        }
    }
}

/// Staging a value leaves it, in the host's byte order, in the scratch
/// word that the second register points to.
pub proof fn lemma_value_le(s: State, value: Operand, ns: Namespace, r: usize, v: Seq<u8>)
    requires
        value.below(r),
        ns.wf(),
        r + 1 <= usize::MAX,
        s.eval(value) == Some(v),
        v.len() == 32,
        s.has_room(64),
    ensures
        run(value_le_code(value, ns, r), 0, s) matches Outcome::Completed(t) && keeps(s, t, r)
            && t.host == s.host && t.mem.len() == s.mem.len() + 64 && t.read_at(
            Operand::Reg((r + 1) as usize),
            32,
        ) == Some(v.reverse()),
{
    let code = value_le_code(value, ns, r);
    let a = s.mem.len();
    let be = Operand::Reg(r);
    let r1 = (r + 1) as usize;
    let le = Operand::Reg(r1);
    lemma_step_alloca(s, r, 32);
    let s1 = s.grown(32).bind(r, le_bytes(a, 4));
    lemma_fresh_buffer(s, r, 32);
    assert(s1.eval(value) == Some(v));
    lemma_written(s1, be, v);
    let s2 = s1.write_at(be, v).unwrap();
    lemma_step_store(s1, be, value, v, s2);
    lemma_step_alloca(s2, r1, 32);
    let s3 = s2.grown(32).bind(r1, le_bytes(a + 32, 4));
    lemma_fresh_buffer(s2, r1, 32);
    assert(s3.read_at(be, 32) == Some(v));
    assert(v.reverse().subrange(0, 32) =~= v.reverse());
    lemma_written(s3, le, v.reverse());
    let s4 = s3.write_at(le, v.reverse()).unwrap();
    lemma_step_be32tolen(s3, be, le, 32, v, s4);
    assert(run(code, 4, s4) == Outcome::Completed(s4));
    assert(run(code, 3, s3) == Outcome::Completed(s4));
    assert(run(code, 2, s2) == Outcome::Completed(s4));
    assert(run(code, 1, s1) == Outcome::Completed(s4));
    assert(run(code, 0, s) == Outcome::Completed(s4));
    assert(s4.mem.subrange(0, a as int) =~= s.mem);
    assert forall|x: usize| x < r implies s4.reg(x) == s.reg(x) by {
        assert(s1.reg(x) == s.reg(x));
        assert(s3.reg(x) == s2.reg(x));
    }
}

/// What the host is told of an external call.
pub open spec fn call_record(
    callty: CallTy,
    target: Seq<u8>,
    input: Seq<u8>,
    value: Seq<u8>,
    gas: Seq<u8>,
) -> CallRecord {
    CallRecord {
        primitive: callty.primitive_of(),
        target,
        input,
        value: value.reverse(),
        gas,
        salt: None,
    }
}

/// The inputs of an external call in state `s`: the address, the payload,
/// a value of 256 bits and a gas word of 64 bits.
pub open spec fn call_inputs(
    s: State,
    payload: Operand,
    payload_len: Operand,
    address: Operand,
    gas: Operand,
    value: Operand,
    target: Seq<u8>,
    input: Seq<u8>,
    v: Seq<u8>,
    g: Seq<u8>,
) -> bool {
    &&& s.read_at(address, s.host.address_length) == Some(target)
    &&& s.eval_word(payload_len) == Some(input.len())
    &&& s.read_at(payload, input.len()) == Some(input)
    &&& s.eval(value) == Some(v)
    &&& v.len() == 32
    &&& s.eval(gas) == Some(g)
    &&& g.len() == 8
    &&& s.has_room(72)
}

/// An external call up to the host's answer: the host is told the target,
/// the payload, the value in its own byte order and the gas, and the
/// status register takes the host's status.
pub proof fn lemma_external_call_made(
    s: State,
    payload: Operand,
    payload_len: Operand,
    address: Operand,
    gas: Operand,
    value: Operand,
    callty: CallTy,
    ns: Namespace,
    r: usize,
    target: Seq<u8>,
    input: Seq<u8>,
    v: Seq<u8>,
    g: Seq<u8>,
)
    requires
        payload.below(r),
        payload_len.below(r),
        address.below(r),
        gas.below(r),
        value.below(r),
        ns.wf(),
        r + 4 <= usize::MAX,
        call_inputs(s, payload, payload_len, address, gas, value, target, input, v, g),
    ensures
        run(
            external_call_code(true, payload, payload_len, address, gas, value, callty, ns, r),
            0,
            s,
        ) matches Outcome::Completed(t) && {
            &&& keeps(s, t, r)
            &&& t.host == s.host.answered(call_record(callty, target, input, v, g))
            &&& t.reg((r + 4) as usize) == Some(truth(s.host.next_reply().status == 0))
        },
        run(
            external_call_code(false, payload, payload_len, address, gas, value, callty, ns, r),
            0,
            s,
        ) matches Outcome::Completed(t) ==> s.host.next_reply().status == 0 && keeps(s, t, r)
            && t.host == s.host.answered(call_record(callty, target, input, v, g)),
        run(
            external_call_code(false, payload, payload_len, address, gas, value, callty, ns, r),
            0,
            s,
        ) matches Outcome::Halted(t, h) ==> s.host.next_reply().status != 0 && h == reverted()
            && t.host.calls == s.host.calls.push(call_record(callty, target, input, v, g)),
        !(run(
            external_call_code(false, payload, payload_len, address, gas, value, callty, ns, r),
            0,
            s,
        ) is Trapped),
        !(run(
            external_call_code(false, payload, payload_len, address, gas, value, callty, ns, r),
            0,
            s,
        ) is Entered),
{
    let stage = value_le_code(value, ns, r);
    let r1 = (r + 1) as usize;
    let r2 = (r + 2) as usize;
    let r3 = (r + 3) as usize;
    let r4 = (r + 4) as usize;
    let p = callty.primitive_of();
    let call = seq![
        Instr::Alloca { dst: r2, bytes: 8 },
        Instr::Store { ptr: Operand::Reg(r2), value: gas },
        crate::emit::host_to(
            r3,
            p,
            crate::ir::Args::Five(address, payload_len, payload, Operand::Reg(r1), Operand::Reg(r2)),
        ),
    ];
    let rec = call_record(callty, target, input, v, g);
    let st = s.host.next_reply().status;
    // the value
    lemma_value_le(s, value, ns, r, v);
    let t0 = run(stage, 0, s)->Completed_0;
    lemma_keeps(s, t0, r, payload);
    lemma_keeps(s, t0, r, payload_len);
    lemma_keeps(s, t0, r, address);
    lemma_keeps(s, t0, r, gas);
    // the gas and the call
    let a = t0.mem.len();
    lemma_step_alloca(t0, r2, 8);
    let t1 = t0.grown(8).bind(r2, le_bytes(a, 4));
    lemma_fresh_buffer(t0, r2, 8);
    assert(t1.eval(gas) == Some(g));
    lemma_written(t1, Operand::Reg(r2), g);
    let t2 = t1.write_at(Operand::Reg(r2), g).unwrap();
    lemma_step_store(t1, Operand::Reg(r2), gas, g, t2);
    assert(t2.read_at(Operand::Reg(r1), 32) == Some(v.reverse())) by {
        assert(t1.read_at(Operand::Reg(r1), 32) == Some(v.reverse()));
        assert(t0.eval_word(Operand::Reg(r1)).unwrap() + 32 <= a);
    }
    assert(t2.read_at(address, s.host.address_length) == Some(target)) by {
        assert(t1.read_at(address, s.host.address_length) == Some(target));
    }
    assert(t2.read_at(payload, input.len()) == Some(input)) by {
        assert(t1.read_at(payload, input.len()) == Some(input));
    }
    assert(t2.eval_word(payload_len) == Some(input.len())) by {
        assert(t1.eval(payload_len) == t0.eval(payload_len));
    }
    assert(t2.host == s.host);
    lemma_step_invoke(
        t2,
        r3,
        p,
        address,
        payload_len,
        payload,
        Operand::Reg(r1),
        Operand::Reg(r2),
        rec,
    );
    let t3 = t2.with_host(s.host.answered(rec)).bind(r3, le_bytes(st as nat, 4));
    lemma_le_bytes_len(st as nat, 4);
    lemma_bind(t2.with_host(s.host.answered(rec)), r3, le_bytes(st as nat, 4));
    assert(run(call, 3, t3) == Outcome::Completed(t3));
    assert(run(call, 2, t2) == Outcome::Completed(t3));
    assert(run(call, 1, t1) == Outcome::Completed(t3));
    assert(run(call, 0, t0) == Outcome::Completed(t3));
    lemma_run_concat(stage, call, 0, s);
    assert(run(stage + call, 0, s) == Outcome::Completed(t3));
    assert(keeps(s, t3, r)) by {
        assert(t3.mem.subrange(0, t0.mem.len() as int) =~= t0.mem);
        assert forall|x: usize| x < r implies t3.reg(x) == t0.reg(x) by {
            assert(t1.reg(x) == t0.reg(x));
        }
        assert(keeps(t0, t3, r));
        lemma_keeps_chain(s, t0, t3, r);
    }
    // the status
    lemma_status(t3, Operand::Reg(r3), r4, true, st);
    lemma_status(t3, Operand::Reg(r3), r4, false, st);
    let with_flag = status_code(Operand::Reg(r3), r4, true);
    let without = status_code(Operand::Reg(r3), r4, false);
    lemma_run_concat(stage + call, with_flag, 0, s);
    lemma_run_concat(stage + call, without, 0, s);
    assert(external_call_code(true, payload, payload_len, address, gas, value, callty, ns, r)
        =~= stage + call + with_flag);
    assert(external_call_code(false, payload, payload_len, address, gas, value, callty, ns, r)
        =~= stage + call + without);
    let t4 = t3.bind(r4, truth(st == 0));
    lemma_bind(t3, r4, truth(st == 0));
    assert(keeps(s, t4, r));
}

/// An external call for which a success flag was asked never ends the
/// invocation: where the host reports status 0 the flag is true, where it
/// reports another status the flag is false, and execution continues
/// either way.
pub proof fn law_call_with_flag_continues(
    s: State,
    payload: Operand,
    payload_len: Operand,
    address: Operand,
    gas: Operand,
    value: Operand,
    callty: CallTy,
    ns: Namespace,
    r: usize,
    target: Seq<u8>,
    input: Seq<u8>,
    v: Seq<u8>,
    g: Seq<u8>,
)
    requires
        payload.below(r),
        payload_len.below(r),
        address.below(r),
        gas.below(r),
        value.below(r),
        ns.wf(),
        r + 4 <= usize::MAX,
        call_inputs(s, payload, payload_len, address, gas, value, target, input, v, g),
    ensures
        run(
            external_call_code(true, payload, payload_len, address, gas, value, callty, ns, r),
            0,
            s,
        ) matches Outcome::Completed(t) && t.reg((r + 4) as usize) == Some(
            truth(s.host.next_reply().status == 0),
        ) && t.host.calls == s.host.calls.push(call_record(callty, target, input, v, g)),
{
    lemma_external_call_made(
        s,
        payload,
        payload_len,
        address,
        gas,
        value,
        callty,
        ns,
        r,
        target,
        input,
        v,
        g,
    );
}

/// An external call for which no success flag was asked continues where
/// the host reports status 0, and reverts the invocation with no data
/// where it reports any other status. Either way the host was told of the
/// call.
pub proof fn law_call_without_flag_reverts(
    s: State,
    payload: Operand,
    payload_len: Operand,
    address: Operand,
    gas: Operand,
    value: Operand,
    callty: CallTy,
    ns: Namespace,
    r: usize,
    target: Seq<u8>,
    input: Seq<u8>,
    v: Seq<u8>,
    g: Seq<u8>,
)
    requires
        payload.below(r),
        payload_len.below(r),
        address.below(r),
        gas.below(r),
        value.below(r),
        ns.wf(),
        r + 4 <= usize::MAX,
        call_inputs(s, payload, payload_len, address, gas, value, target, input, v, g),
    ensures
        ({
            let out = run(
                external_call_code(false, payload, payload_len, address, gas, value, callty, ns, r),
                0,
                s,
            );
            if s.host.next_reply().status == 0 {
                out matches Outcome::Completed(t) && t.host.calls == s.host.calls.push(
                    call_record(callty, target, input, v, g),
                )
            } else {
                out matches Outcome::Halted(t, h) && h == reverted() && t.host.calls
                    == s.host.calls.push(call_record(callty, target, input, v, g))
            }
        }),
{
    lemma_external_call_made(
        s,
        payload,
        payload_len,
        address,
        gas,
        value,
        callty,
        ns,
        r,
        target,
        input,
        v,
        g,
    );
}

/// What the host is told of a transfer.
pub open spec fn transfer_record(target: Seq<u8>, value: Seq<u8>) -> CallRecord {
    CallRecord {
        primitive: Primitive::Transfer,
        target,
        input: Seq::empty(),
        value: value.reverse(),
        gas: Seq::empty(),
        salt: None,
    }
}

/// A transfer tells the host the recipient and the value in the host's
/// byte order. With a flag asked for, the flag says whether the host's
/// status was 0 and execution continues; without, a status other than 0
/// reverts the invocation with no data.
pub proof fn law_transfer(
    s: State,
    want_success: bool,
    address: Operand,
    value: Operand,
    ns: Namespace,
    r: usize,
    target: Seq<u8>,
    v: Seq<u8>,
)
    requires
        address.below(r),
        value.below(r),
        ns.wf(),
        r + 3 <= usize::MAX,
        s.read_at(address, s.host.address_length) == Some(target),
        s.eval(value) == Some(v),
        v.len() == 32,
        s.has_room(64),
    ensures
        ({
            let out = run(value_transfer_code(want_success, address, value, ns, r), 0, s);
            let status = s.host.next_reply().status;
            if want_success || status == 0 {
                out matches Outcome::Completed(t) && t.host == s.host.answered(
                    transfer_record(target, v),
                ) && t.reg((r + 3) as usize) == Some(truth(status == 0))
            } else {
                out matches Outcome::Halted(t, h) && h == reverted() && t.host.calls
                    == s.host.calls.push(transfer_record(target, v))
            }
        }),
{
    let stage = value_le_code(value, ns, r);
    let r1 = (r + 1) as usize;
    let r2 = (r + 2) as usize;
    let r3 = (r + 3) as usize;
    let call = seq![
        crate::emit::host_to(
            r2,
            Primitive::Transfer,
            crate::ir::Args::Two(address, Operand::Reg(r1)),
        ),
    ];
    let test = status_code(Operand::Reg(r2), r3, want_success);
    let rec = transfer_record(target, v);
    let st = s.host.next_reply().status;
    lemma_value_le(s, value, ns, r, v);
    let t0 = run(stage, 0, s)->Completed_0;
    lemma_keeps(s, t0, r, address);
    lemma_step_transfer(t0, r2, address, Operand::Reg(r1), rec);
    let t1 = t0.with_host(s.host.answered(rec)).bind(r2, le_bytes(st as nat, 4));
    lemma_le_bytes_len(st as nat, 4);
    lemma_bind(t0.with_host(s.host.answered(rec)), r2, le_bytes(st as nat, 4));
    assert(run(call, 1, t1) == Outcome::Completed(t1));
    assert(run(call, 0, t0) == Outcome::Completed(t1));
    lemma_run_concat(stage, call, 0, s);
    lemma_status(t1, Operand::Reg(r2), r3, want_success, st);
    lemma_run_concat(stage + call, test, 0, s);
    assert(value_transfer_code(want_success, address, value, ns, r) =~= stage + call + test);
    lemma_bind(t1, r3, truth(st == 0));
}

} // verus!
