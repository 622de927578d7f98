//! What contract creation means on the reference machine: the host is
//! handed the code blob followed by the encoded constructor arguments, the
//! value in its own byte order, and the salt where there is one. What it is
//! handed does not depend on where in a function the creation stands.

use vstd::prelude::*;
use crate::binary::Namespace;
use crate::bytes::{le_bytes, lemma_le_bytes_len};
use crate::call_laws::{lemma_status, lemma_value_le};
use crate::calls::{
    create_contract_code,
    creation_call_code,
    creation_regs,
    creation_value,
    status_code,
    value_le_code,
};
use crate::codec::encode_code;
use crate::emit::host_to;
use crate::host::Primitive;
use crate::ir::{Args, Callee, Instr, Operand};
use crate::machine::{reverted, run, truth, CallRecord, Outcome, State};
use crate::semantics::{
    keeps,
    lemma_bind,
    lemma_bind_word,
    lemma_fresh_buffer,
    lemma_keeps,
    lemma_keeps_chain,
    lemma_run_concat,
    lemma_written,
};
use crate::steps::{
    lemma_step_add,
    lemma_step_alloca,
    lemma_step_create,
    lemma_step_create2,
    lemma_step_encode,
    lemma_step_encoded_length,
    lemma_step_malloc,
    lemma_step_memcpy,
    lemma_step_offset,
    lemma_step_store,
};

verus! {

/// Encoding behind a constant prefix builds one fresh buffer at the end of
/// the memory that holds the prefix and, behind it, the codec's output.
pub proof fn lemma_encode_constant(
    s: State,
    g: usize,
    len: u32,
    job: usize,
    r: usize,
    blob: Seq<u8>,
)
    requires
        r + 3 <= usize::MAX,
        s.read_at(Operand::Global(g), len as nat) == Some(blob),
        job < s.encodings.len(),
        s.has_room((len + s.encodings[job as int].len()) as nat),
    ensures
        run(
            encode_code(Some((Operand::Global(g), len as u64)), job, r),
            0,
            s,
        ) matches Outcome::Completed(t) && {
            &&& keeps(s, t, r)
            &&& t.host == s.host
            &&& t.mem == s.mem + blob + s.encodings[job as int]
            &&& t.eval_word(Operand::Reg((r + 2) as usize)) == Some(s.mem.len())
            &&& t.eval_word(Operand::Reg((r + 1) as usize)) == Some(
                (len + s.encodings[job as int].len()) as nat,
            )
        },
{
    let code = encode_code(Some((Operand::Global(g), len as u64)), job, r);
    let enc = s.encodings[job as int];
    let n = enc.len();
    let a = s.mem.len();
    let l = len as nat;
    let r1 = (r + 1) as usize;
    let r2 = (r + 2) as usize;
    let r3 = (r + 3) as usize;
    let blob_op = Operand::Global(g);
    assert((len as u64) as u32 == len);
    lemma_step_encoded_length(s, r, job);
    let s1 = s.bind(r, le_bytes(n, 4));
    lemma_bind_word(s, r, n);
    lemma_bind(s, r, le_bytes(n, 4));
    lemma_le_bytes_len(n, 4);
    lemma_step_add(s1, r1, Operand::Reg(r), len, n);
    let s2 = s1.bind(r1, le_bytes(n + l, 4));
    lemma_bind_word(s1, r1, n + l);
    lemma_bind(s1, r1, le_bytes(n + l, 4));
    lemma_le_bytes_len(n + l, 4);
    lemma_step_malloc(s2, r2, Operand::Reg(r1), n + l);
    let s3 = s2.grown(n + l).bind(r2, le_bytes(a, 4));
    lemma_fresh_buffer(s2, r2, n + l);
    assert(s3.read_at(blob_op, len as nat) == Some(blob)) by {
        assert(s1.read_at(blob_op, len as nat) == Some(blob));
        assert(s2.read_at(blob_op, len as nat) == Some(blob));
    }
    lemma_written(s3, Operand::Reg(r2), blob);
    let s4 = s3.write_at(Operand::Reg(r2), blob).unwrap();
    lemma_step_memcpy(s3, Operand::Reg(r2), blob_op, len, blob, s4);
    lemma_step_offset(s4, r3, Operand::Reg(r2), len, a);
    let s5 = s4.bind(r3, le_bytes(a + l, 4));
    lemma_bind_word(s4, r3, a + l);
    lemma_bind(s4, r3, le_bytes(a + l, 4));
    lemma_le_bytes_len(a + l, 4);
    lemma_written(s5, Operand::Reg(r3), enc);
    let s6 = s5.write_at(Operand::Reg(r3), enc).unwrap();
    assert(s5.encodings == s.encodings);
    lemma_step_encode(s5, Operand::Reg(r3), job, s6);
    assert(run(code, 6, s6) == Outcome::Completed(s6));
    assert(run(code, 5, s5) == Outcome::Completed(s6));
    assert(run(code, 4, s4) == Outcome::Completed(s6));
    assert(run(code, 3, s3) == Outcome::Completed(s6));
    assert(run(code, 2, s2) == Outcome::Completed(s6));
    assert(run(code, 1, s1) == Outcome::Completed(s6));
    assert(run(code, 0, s) == Outcome::Completed(s6));
    assert(s6.mem =~= s.mem + blob + enc);
    assert(s6.mem.subrange(0, a as int) =~= s.mem);
    assert(s6.eval_word(Operand::Reg(r2)) == Some(a)) by {
        assert(s5.eval(Operand::Reg(r2)) == s4.eval(Operand::Reg(r2)));
    }
    assert(s6.eval_word(Operand::Reg(r1)) == Some(n + l)) by {
        assert(s3.eval(Operand::Reg(r1)) == s2.eval(Operand::Reg(r1)));
        assert(s5.eval(Operand::Reg(r1)) == s4.eval(Operand::Reg(r1)));
    }
    assert forall|x: usize| x < r implies s6.reg(x) == s.reg(x) by {
        assert(s1.reg(x) == s.reg(x));
        assert(s2.reg(x) == s1.reg(x));
        assert(s3.reg(x) == s2.reg(x));
        assert(s5.reg(x) == s4.reg(x));
    }
}

/// What the host is told of a creation: the blob and the encoded
/// arguments in one piece, the value in its own byte order, and the salt
/// if there is one. The salted primitive is named exactly where there is a
/// salt.
pub open spec fn create_record(
    salt: Option<Seq<u8>>,
    blob: Seq<u8>,
    encoded: Seq<u8>,
    value: Seq<u8>,
) -> CallRecord {
    CallRecord {
        primitive: if salt.is_some() {
            Primitive::Create2
        } else {
            Primitive::Create
        },
        target: Seq::empty(),
        input: blob + encoded,
        value: value.reverse(),
        gas: Seq::empty(),
        salt,
    }
}

/// The inputs of a creation in state `s`: the blob as module-level datum
/// `g`, the codec's output for job `job`, a value and, where there is one,
/// a salt of 256 bits each, and room for the address that the host writes.
pub open spec fn create_inputs(
    s: State,
    g: usize,
    job: usize,
    address: Operand,
    value: Option<Operand>,
    salt: Option<Operand>,
    ns: Namespace,
    blob: Seq<u8>,
    v: Seq<u8>,
    salt_bytes: Option<Seq<u8>>,
) -> bool {
    &&& blob.len() <= u32::MAX
    &&& s.read_at(Operand::Global(g), blob.len()) == Some(blob)
    &&& job < s.encodings.len()
    &&& s.has_room(blob.len() + s.encodings[job as int].len() + 96)
    &&& s.eval(creation_value(value, ns)) == Some(v)
    &&& v.len() == 32
    &&& salt.is_some() == salt_bytes.is_some()
    &&& salt.is_some() ==> s.eval(salt.unwrap()) == salt_bytes && salt_bytes.unwrap().len() == 32
    &&& s.eval_word(address).is_some()
    &&& s.eval_word(address).unwrap() + s.host.next_reply().address.len() <= s.mem.len()
}

/// A creation up to the host's answer: the host is told the record of the
/// creation, writes the new address where `address` points to, and the
/// status register takes its status.
pub proof fn lemma_creation_made(
    s: State,
    g: usize,
    job: usize,
    address: Operand,
    value: Option<Operand>,
    salt: Option<Operand>,
    ns: Namespace,
    r: usize,
    blob: Seq<u8>,
    v: Seq<u8>,
    salt_bytes: Option<Seq<u8>>,
)
    requires
        address.below(r),
        value.is_some() ==> value.unwrap().below(r),
        salt.is_some() ==> salt.unwrap().below(r),
        ns.wf(),
        r + creation_regs(salt) <= usize::MAX,
        create_inputs(s, g, job, address, value, salt, ns, blob, v, salt_bytes),
    ensures
        run(
            encode_code(Some((Operand::Global(g), blob.len() as u64)), job, r) + value_le_code(
                creation_value(value, ns),
                ns,
                (r + 4) as usize,
            ) + creation_call_code(address, salt, ns, r),
            0,
            s,
        ) matches Outcome::Completed(t) && {
            &&& keeps(s, t, r) || s.host.next_reply().address.len() > 0
            &&& t.host == s.host.answered(
                create_record(salt_bytes, blob, s.encodings[job as int], v),
            )
            &&& t.read_at(address, s.host.next_reply().address.len()) == Some(
                s.host.next_reply().address,
            )
            &&& t.eval(Operand::Reg((r + creation_regs(salt) - 2) as usize)) == Some(
                le_bytes(s.host.next_reply().status as nat, 4),
            )
        },
{
    let len = blob.len() as u32;
    let enc = s.encodings[job as int];
    let encode = encode_code(Some((Operand::Global(g), blob.len() as u64)), job, r);
    let sent = creation_value(value, ns);
    let r4 = (r + 4) as usize;
    let stage = value_le_code(sent, ns, r4);
    let call = creation_call_code(address, salt, ns, r);
    let reply = s.host.next_reply();
    let rec = create_record(salt_bytes, blob, enc, v);
    let data = Operand::Reg((r + 2) as usize);
    let data_len = Operand::Reg((r + 1) as usize);
    let le = Operand::Reg((r + 5) as usize);
    // the buffer
    lemma_encode_constant(s, g, len, job, r, blob);
    let t0 = run(encode, 0, s)->Completed_0;
    let a = s.mem.len();
    assert(t0.read_at(data, (len + enc.len()) as nat) == Some(blob + enc)) by {
        assert(t0.mem.subrange(a as int, (a + len + enc.len()) as int) =~= blob + enc);
    }
    lemma_keeps(s, t0, r, address);
    match value {
        Some(op) => {
            lemma_keeps(s, t0, r, op);
        },
        None => {},
    }
    assert(t0.eval(sent) == Some(v));
    // the value
    lemma_value_le(t0, sent, ns, r4, v);
    let t1 = run(stage, 0, t0)->Completed_0;
    lemma_run_concat(encode, stage, 0, s);
    lemma_keeps(t0, t1, r4, data);
    lemma_keeps(t0, t1, r4, data_len);
    lemma_keeps(t0, t1, r4, address);
    lemma_keeps_chain(s, t0, t1, r);
    // the call
    match salt {
        Some(sop) => {
            let r6 = (r + 6) as usize;
            let r7 = (r + 7) as usize;
            let sb = salt_bytes.unwrap();
            lemma_keeps(s, t0, r, sop);
            lemma_keeps(t0, t1, r4, sop);
            let b = t1.mem.len();
            lemma_step_alloca(t1, r6, 32);
            let t2 = t1.grown(32).bind(r6, le_bytes(b, 4));
            lemma_fresh_buffer(t1, r6, 32);
            assert(t2.eval(sop) == Some(sb));
            lemma_written(t2, Operand::Reg(r6), sb);
            let t3 = t2.write_at(Operand::Reg(r6), sb).unwrap();
            lemma_step_store(t2, Operand::Reg(r6), sop, sb, t3);
            assert(t3.read_at(le, 32) == Some(v.reverse())) by {
                assert(t2.read_at(le, 32) == Some(v.reverse()));
            }
            assert(t3.read_at(data, (len + enc.len()) as nat) == Some(blob + enc)) by {
                assert(t1.read_at(data, (len + enc.len()) as nat) == Some(blob + enc));
                assert(t2.read_at(data, (len + enc.len()) as nat) == Some(blob + enc));
            }
            assert(t3.eval_word(data_len) == Some((len + enc.len()) as nat)) by {
                assert(t2.eval(data_len) == t1.eval(data_len));
            }
            assert(t3.eval_word(address) == s.eval_word(address)) by {
                assert(t2.eval(address) == t1.eval(address));
            }
            assert(t3.host == s.host);
            lemma_written(t3, address, reply.address);
            let t4 = t3.write_at(address, reply.address).unwrap();
            lemma_step_create2(t3, r7, le, data, data_len, Operand::Reg(r6), address, rec, t4);
            let t5 = t4.with_host(s.host.answered(rec)).bind(
                r7,
                le_bytes(reply.status as nat, 4),
            );
            lemma_le_bytes_len(reply.status as nat, 4);
            lemma_bind(t4.with_host(s.host.answered(rec)), r7, le_bytes(reply.status as nat, 4));
            assert(run(call, 3, t5) == Outcome::Completed(t5));
            assert(run(call, 2, t3) == Outcome::Completed(t5));
            assert(run(call, 1, t2) == Outcome::Completed(t5));
            assert(run(call, 0, t1) == Outcome::Completed(t5));
            lemma_run_concat(encode + stage, call, 0, s);
            if reply.address.len() == 0 {
                assert(t4.mem =~= t3.mem);
                assert(t5.mem.subrange(0, t1.mem.len() as int) =~= t1.mem);
                assert forall|x: usize| x < r implies t5.reg(x) == t1.reg(x) by {
                    assert(t2.reg(x) == t1.reg(x));
                }
                assert(keeps(t1, t5, r));
                lemma_keeps_chain(s, t1, t5, r);
            }
        },
        None => {
            let r6 = (r + 6) as usize;
            assert(t1.host == s.host);
            lemma_written(t1, address, reply.address);
            let t4 = t1.write_at(address, reply.address).unwrap();
            lemma_step_create(t1, r6, le, data, data_len, address, rec, t4);
            let t5 = t4.with_host(s.host.answered(rec)).bind(
                r6,
                le_bytes(reply.status as nat, 4),
            );
            lemma_le_bytes_len(reply.status as nat, 4);
            lemma_bind(t4.with_host(s.host.answered(rec)), r6, le_bytes(reply.status as nat, 4));
            assert(run(call, 1, t5) == Outcome::Completed(t5));
            assert(run(call, 0, t1) == Outcome::Completed(t5));
            lemma_run_concat(encode + stage, call, 0, s);
            if reply.address.len() == 0 {
                assert(t4.mem =~= t1.mem);
                assert(t5.mem.subrange(0, t1.mem.len() as int) =~= t1.mem);
                assert(keeps(t1, t5, r));
                lemma_keeps_chain(s, t1, t5, r);
            }
        },
    }
}

/// A creation tells the host exactly the record of its inputs, and the
/// host's answer decides how it goes on: with a flag asked for, the flag
/// says whether the status was 0, and execution continues; without, a
/// status other than 0 reverts the invocation with no data. The address
/// that the host wrote stands where `address` points to.
pub proof fn law_creation(
    s: State,
    want_success: bool,
    g: usize,
    job: usize,
    address: Operand,
    value: Option<Operand>,
    salt: Option<Operand>,
    ns: Namespace,
    r: usize,
    blob: Seq<u8>,
    v: Seq<u8>,
    salt_bytes: Option<Seq<u8>>,
)
    requires
        address.below(r),
        value.is_some() ==> value.unwrap().below(r),
        salt.is_some() ==> salt.unwrap().below(r),
        ns.wf(),
        r + creation_regs(salt) <= usize::MAX,
        create_inputs(s, g, job, address, value, salt, ns, blob, v, salt_bytes),
    ensures
        ({
            let out = run(
                create_contract_code(
                    want_success,
                    g,
                    blob.len() as u64,
                    job,
                    address,
                    value,
                    salt,
                    ns,
                    r,
                ),
                0,
                s,
            );
            let rec = create_record(salt_bytes, blob, s.encodings[job as int], v);
            let reply = s.host.next_reply();
            if want_success || reply.status == 0 {
                out matches Outcome::Completed(t) && {
                    &&& t.host == s.host.answered(rec)
                    &&& t.read_at(address, reply.address.len()) == Some(reply.address)
                    &&& t.reg((r + creation_regs(salt) - 1) as usize) == Some(
                        truth(reply.status == 0),
                    )
                }
            } else {
                out matches Outcome::Halted(t, h) && h == reverted() && t.host.calls
                    == s.host.calls.push(rec)
            }
        }),
{
    let made = encode_code(Some((Operand::Global(g), blob.len() as u64)), job, r) + value_le_code(
        creation_value(value, ns),
        ns,
        (r + 4) as usize,
    ) + creation_call_code(address, salt, ns, r);
    let status = Operand::Reg((r + creation_regs(salt) - 2) as usize);
    let flag = (r + creation_regs(salt) - 1) as usize;
    let test = status_code(status, flag, want_success);
    let reply = s.host.next_reply();
    lemma_creation_made(s, g, job, address, value, salt, ns, r, blob, v, salt_bytes);
    let t = run(made, 0, s)->Completed_0;
    lemma_status(t, status, flag, want_success, reply.status);
    lemma_run_concat(made, test, 0, s);
    assert(create_contract_code(
        want_success,
        g,
        blob.len() as u64,
        job,
        address,
        value,
        salt,
        ns,
        r,
    ) =~= made + test);
    lemma_bind(t, flag, truth(reply.status == 0));
    assert(address != Operand::Reg(flag));
    assert(t.bind(flag, truth(reply.status == 0)).eval_word(address) == t.eval_word(address)) by {
        assert(t.bind(flag, truth(reply.status == 0)).eval(address) == t.eval(address));
    }
}

/// Two creations with the same code blob, the same encoded constructor
/// arguments, the same value and the same salt tell the host the same,
/// wherever they stand and whatever else the two states hold. A host that
/// answers the same to the same call reports the same address to both.
pub proof fn law_create2_is_repeatable(
    s1: State,
    s2: State,
    g1: usize,
    g2: usize,
    job1: usize,
    job2: usize,
    address1: Operand,
    address2: Operand,
    value1: Option<Operand>,
    value2: Option<Operand>,
    salt1: Operand,
    salt2: Operand,
    ns: Namespace,
    r1: usize,
    r2: usize,
    blob: Seq<u8>,
    v: Seq<u8>,
    salt_bytes: Seq<u8>,
)
    requires
        address1.below(r1),
        address2.below(r2),
        value1.is_some() ==> value1.unwrap().below(r1),
        value2.is_some() ==> value2.unwrap().below(r2),
        salt1.below(r1),
        salt2.below(r2),
        ns.wf(),
        r1 + 9 <= usize::MAX,
        r2 + 9 <= usize::MAX,
        create_inputs(s1, g1, job1, address1, value1, Some(salt1), ns, blob, v, Some(salt_bytes)),
        create_inputs(s2, g2, job2, address2, value2, Some(salt2), ns, blob, v, Some(salt_bytes)),
        s1.encodings[job1 as int] == s2.encodings[job2 as int],
    ensures
        ({
            let out1 = run(
                create_contract_code(
                    true,
                    g1,
                    blob.len() as u64,
                    job1,
                    address1,
                    value1,
                    Some(salt1),
                    ns,
                    r1,
                ),
                0,
                s1,
            );
            let out2 = run(
                create_contract_code(
                    true,
                    g2,
                    blob.len() as u64,
                    job2,
                    address2,
                    value2,
                    Some(salt2),
                    ns,
                    r2,
                ),
                0,
                s2,
            );
            out1 matches Outcome::Completed(t1) && out2 matches Outcome::Completed(t2) && {
                &&& t1.host.calls.last() == t2.host.calls.last()
                &&& t1.host.calls.last().primitive == Primitive::Create2
                &&& t1.host.calls.last().salt == Some(salt_bytes)
                &&& s1.host.next_reply() == s2.host.next_reply() ==> t1.read_at(
                    address1,
                    s1.host.next_reply().address.len(),
                ) == t2.read_at(address2, s1.host.next_reply().address.len())
            }
        }),
{
    law_creation(
        s1,
        true,
        g1,
        job1,
        address1,
        value1,
        Some(salt1),
        ns,
        r1,
        blob,
        v,
        Some(salt_bytes),
    );
    law_creation(
        s2,
        true,
        g2,
        job2,
        address2,
        value2,
        Some(salt2),
        ns,
        r2,
        blob,
        v,
        Some(salt_bytes),
    );
}

/// A creation without a salt never hands the host a salt: its code calls
/// the plain primitive with four arguments and holds no call of the salted
/// one, and what the host is told has no salt.
pub proof fn law_plain_create_passes_no_salt(
    s: State,
    want_success: bool,
    g: usize,
    job: usize,
    address: Operand,
    value: Option<Operand>,
    ns: Namespace,
    r: usize,
    blob: Seq<u8>,
    v: Seq<u8>,
)
    requires
        address.below(r),
        value.is_some() ==> value.unwrap().below(r),
        ns.wf(),
        r + 8 <= usize::MAX,
        create_inputs(s, g, job, address, value, None, ns, blob, v, None),
    ensures
        ({
            let code = create_contract_code(
                want_success,
                g,
                blob.len() as u64,
                job,
                address,
                value,
                None,
                ns,
                r,
            );
            &&& forall|i: int|
                0 <= i < code.len() ==> !((#[trigger] code[i]) matches Instr::Call {
                    callee: Callee::Host(Primitive::Create2),
                    ..
                })
            &&& code[10] == host_to(
                (r + 6) as usize,
                Primitive::Create,
                Args::Four(
                    Operand::Reg((r + 5) as usize),
                    Operand::Reg((r + 2) as usize),
                    Operand::Reg((r + 1) as usize),
                    address,
                ),
            )
            &&& match run(code, 0, s) {
                Outcome::Completed(t) => t.host.calls.last().salt is None
                    && t.host.calls.last().primitive == Primitive::Create,
                Outcome::Halted(t, h) => t.host.calls.last().salt is None
                    && t.host.calls.last().primitive == Primitive::Create,
                _ => false,
            }
        }),
{
    law_creation(s, want_success, g, job, address, value, None, ns, r, blob, v, None);
}

} // verus!
