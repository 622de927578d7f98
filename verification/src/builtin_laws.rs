//! What hashing and the context builtins mean on the reference machine.

use vstd::prelude::*;
use crate::binary::Namespace;
use crate::builtins::{
    builtin_code,
    hash_code,
    return_data_code,
    selfdestruct_code,
    single_value_code,
    Builtin,
};
use crate::bytes::{le_bytes, lemma_le_bytes_len, zeros};
use crate::emit::host;
use crate::host::Primitive;
use crate::ir::{Args, Operand};
use crate::machine::{
    digest_of,
    is_getter,
    lookup_or,
    run,
    CallRecord,
    HaltOutcome,
    HostState,
    Outcome,
    State,
};
use crate::semantics::{keeps, lemma_bind, lemma_bind_word, lemma_fresh_buffer, lemma_written};
use crate::steps::{
    lemma_step_add,
    lemma_step_alloca,
    lemma_step_balance,
    lemma_step_bentolen,
    lemma_step_block_hash,
    lemma_step_copy_return_data,
    lemma_step_digest,
    lemma_step_getter,
    lemma_step_load,
    lemma_step_malloc,
    lemma_step_offset,
    lemma_step_print,
    lemma_step_recover,
    lemma_step_return_size,
    lemma_step_selfdestruct,
    lemma_step_store,
    lemma_step_write_log,
};
use crate::storage_laws::vector_at;

verus! {

/// Hashing binds the result register to the digest of the input with its
/// bytes in reverse order: the host writes the digest most significant
/// byte first, and the program keeps the value least significant byte
/// first.
pub proof fn law_hash_reverses_digest(
    s: State,
    p: Primitive,
    n: u32,
    input: Operand,
    input_len: Operand,
    r: usize,
    data: Seq<u8>,
)
    requires
        p == Primitive::CryptoKeccak256 || p == Primitive::CryptoRipemd160 || p
            == Primitive::CryptoSha256,
        input.below(r),
        input_len.below(r),
        r + 2 <= usize::MAX,
        1 <= n <= 32,
        digest_of(p, data).len() == n,
        s.eval_word(input_len) == Some(data.len()),
        s.read_at(input, data.len()) == Some(data),
        s.has_room(64),
    ensures
        run(hash_code(p, n, input, input_len, r), 0, s) matches Outcome::Completed(t) && keeps(
            s,
            t,
            r,
        ) && t.host == s.host && t.reg((r + 2) as usize) == Some(digest_of(p, data).reverse()),
{
    let code = hash_code(p, n, input, input_len, r);
    let digest = digest_of(p, data);
    let a = s.mem.len();
    let r1 = (r + 1) as usize;
    let r2 = (r + 2) as usize;
    let raw = Operand::Reg(r);
    let turned = Operand::Reg(r1);
    lemma_step_alloca(s, r, n);
    let s1 = s.grown(n as nat).bind(r, le_bytes(a, 4));
    lemma_fresh_buffer(s, r, n as nat);
    assert(s1.eval_word(input_len) == Some(data.len())) by {
        assert(s1.eval(input_len) == s.eval(input_len));
    }
    lemma_written(s1, raw, digest);
    let s2 = s1.write_at(raw, digest).unwrap();
    lemma_step_digest(s1, p, input, input_len, raw, data, s2);
    lemma_step_alloca(s2, r1, n);
    let s3 = s2.grown(n as nat).bind(r1, le_bytes((a + n) as nat, 4));
    lemma_fresh_buffer(s2, r1, n as nat);
    assert(s3.read_at(raw, n as nat) == Some(digest));
    lemma_written(s3, turned, digest.reverse());
    let s4 = s3.write_at(turned, digest.reverse()).unwrap();
    lemma_step_bentolen(s3, raw, turned, n, digest, s4);
    lemma_step_load(s4, r2, turned, n, digest.reverse());
    let s5 = s4.bind(r2, digest.reverse());
    lemma_bind(s4, r2, digest.reverse());
    assert(run(code, 5, s5) == Outcome::Completed(s5));
    assert(run(code, 4, s4) == Outcome::Completed(s5));
    assert(run(code, 3, s3) == Outcome::Completed(s5));
    assert(run(code, 2, s2) == Outcome::Completed(s5));
    assert(run(code, 1, s1) == Outcome::Completed(s5));
    assert(run(code, 0, s) == Outcome::Completed(s5));
    assert(s5.mem.subrange(0, a as int) =~= s.mem);
    assert forall|x: usize| x < r implies s5.reg(x) == s.reg(x) by {
        assert(s1.reg(x) == s.reg(x));
        assert(s3.reg(x) == s2.reg(x));
    }
}

/// A context builtin binds the result register to the datum that the host
/// holds for its getter.
pub proof fn law_getter_reads_context(s: State, p: Primitive, bytes: u32, r: usize)
    requires
        is_getter(p),
        r + 1 <= usize::MAX,
        1 <= bytes <= 32,
        p.index_of() < s.host.context.len(),
        s.host.context[p.index_of() as int].len() == bytes,
        s.has_room(bytes as nat),
    ensures
        run(single_value_code(p, bytes, r), 0, s) matches Outcome::Completed(t) && keeps(s, t, r)
            && t.host == s.host && t.reg((r + 1) as usize) == Some(
            s.host.context[p.index_of() as int],
        ),
{
    let code = single_value_code(p, bytes, r);
    let datum = s.host.context[p.index_of() as int];
    let a = s.mem.len();
    let r1 = (r + 1) as usize;
    let buf = Operand::Reg(r);
    lemma_step_alloca(s, r, bytes);
    let s1 = s.grown(bytes as nat).bind(r, le_bytes(a, 4));
    lemma_fresh_buffer(s, r, bytes as nat);
    lemma_written(s1, buf, datum);
    let s2 = s1.write_at(buf, datum).unwrap();
    lemma_step_getter(s1, p, buf, s2);
    lemma_step_load(s2, r1, buf, bytes, datum);
    let s3 = s2.bind(r1, datum);
    lemma_bind(s2, r1, datum);
    assert(run(code, 3, s3) == Outcome::Completed(s3));
    assert(run(code, 2, s2) == Outcome::Completed(s3));
    assert(run(code, 1, s1) == Outcome::Completed(s3));
    assert(run(code, 0, s) == Outcome::Completed(s3));
    assert(s3.mem.subrange(0, a as int) =~= s.mem);
    assert forall|x: usize| x < r implies s3.reg(x) == s.reg(x) by {
        assert(s1.reg(x) == s.reg(x));
    }
}

/// Reading the returned data builds a fresh length-prefixed buffer at the
/// end of the memory that holds the data that the last external call
/// returned, and binds the result register to it.
pub proof fn law_return_data(s: State, r: usize)
    requires
        r + 4 <= usize::MAX,
        s.has_room(8 + s.host.return_data.len()),
    ensures
        run(return_data_code(r), 0, s) matches Outcome::Completed(t) && keeps(s, t, r) && t.host
            == s.host && t.eval_word(Operand::Reg((r + 2) as usize)) == Some(s.mem.len())
            && vector_at(t, Operand::Reg((r + 2) as usize), s.host.return_data),
{
    let code = return_data_code(r);
    let data = s.host.return_data;
    let n = data.len();
    let a = s.mem.len();
    let r0 = r;
    let r1 = (r + 1) as usize;
    let r2 = (r + 2) as usize;
    let r3 = (r + 3) as usize;
    let r4 = (r + 4) as usize;
    let head = le_bytes(n, 4);
    lemma_le_bytes_len(n, 4);
    lemma_step_return_size(s, r0);
    let s1 = s.bind(r0, head);
    lemma_bind_word(s, r0, n);
    lemma_bind(s, r0, head);
    lemma_step_add(s1, r1, Operand::Reg(r0), 8, n);
    let s2 = s1.bind(r1, le_bytes(n + 8, 4));
    lemma_bind_word(s1, r1, n + 8);
    lemma_bind(s1, r1, le_bytes(n + 8, 4));
    lemma_step_malloc(s2, r2, Operand::Reg(r1), n + 8);
    let s3 = s2.grown(n + 8).bind(r2, le_bytes(a, 4));
    lemma_fresh_buffer(s2, r2, n + 8);
    assert(s3.eval(Operand::Reg(r0)) == Some(head));
    lemma_written(s3, Operand::Reg(r2), head);
    let s4 = s3.write_at(Operand::Reg(r2), head).unwrap();
    lemma_step_store(s3, Operand::Reg(r2), Operand::Reg(r0), head, s4);
    lemma_step_offset(s4, r3, Operand::Reg(r2), 4, a);
    let s5 = s4.bind(r3, le_bytes(a + 4, 4));
    lemma_bind_word(s4, r3, a + 4);
    lemma_bind(s4, r3, le_bytes(a + 4, 4));
    assert(s5.eval(Operand::Reg(r0)) == Some(head));
    lemma_written(s5, Operand::Reg(r3), head);
    let s6 = s5.write_at(Operand::Reg(r3), head).unwrap();
    lemma_step_store(s5, Operand::Reg(r3), Operand::Reg(r0), head, s6);
    assert(s6.eval_word(Operand::Reg(r2)) == Some(a));
    lemma_step_offset(s6, r4, Operand::Reg(r2), 8, a);
    let s7 = s6.bind(r4, le_bytes(a + 8, 4));
    lemma_bind_word(s6, r4, a + 8);
    lemma_bind(s6, r4, le_bytes(a + 8, 4));
    lemma_written(s7, Operand::Reg(r4), data);
    let s8 = s7.write_at(Operand::Reg(r4), data).unwrap();
    assert(s7.host == s.host);
    assert(s7.eval_word(Operand::Reg(r0)) == Some(n)) by {
        assert(s7.eval(Operand::Reg(r0)) == s6.eval(Operand::Reg(r0)));
        assert(s6.eval(Operand::Reg(r0)) == s5.eval(Operand::Reg(r0)));
    }
    lemma_step_copy_return_data(s7, Operand::Reg(r4), Operand::Reg(r0), s8);
    assert(run(code, 8, s8) == Outcome::Completed(s8));
    assert(run(code, 7, s7) == Outcome::Completed(s8));
    assert(run(code, 6, s6) == Outcome::Completed(s8));
    assert(run(code, 5, s5) == Outcome::Completed(s8));
    assert(run(code, 4, s4) == Outcome::Completed(s8));
    assert(run(code, 3, s3) == Outcome::Completed(s8));
    assert(run(code, 2, s2) == Outcome::Completed(s8));
    assert(run(code, 1, s1) == Outcome::Completed(s8));
    assert(run(code, 0, s) == Outcome::Completed(s8));
    assert(s8.mem =~= s.mem + head + head + data);
    assert(s8.mem.subrange(0, a as int) =~= s.mem);
    assert(s8.mem.subrange(a as int, (a + 4) as int) =~= head);
    assert(s8.mem.subrange((a + 8) as int, (a + 8 + n) as int) =~= data);
    assert(s8.eval_word(Operand::Reg(r2)) == Some(a));
    assert forall|x: usize| x < r implies s8.reg(x) == s.reg(x) by {
        assert(s1.reg(x) == s.reg(x));
        assert(s2.reg(x) == s1.reg(x));
        assert(s3.reg(x) == s2.reg(x));
        assert(s5.reg(x) == s4.reg(x));
        assert(s7.reg(x) == s6.reg(x));
    }
}

/// The hash of a block is looked up by its number, which is staged in a
/// scratch buffer of its own: the result register takes the hash that the
/// host holds for the number, or zero.
pub proof fn law_block_hash(s: State, number: Operand, ns: Namespace, r: usize, k: Seq<u8>)
    requires
        number.below(r),
        r + 2 <= usize::MAX,
        s.eval(number) == Some(k),
        k.len() == 8,
        lookup_or(s.host.block_hashes, k, zeros(32)).len() == 32,
        s.has_room(40),
    ensures
        run(builtin_code(Builtin::BlockHash(number), ns, r), 0, s) matches Outcome::Completed(t)
            && keeps(s, t, r) && t.host == s.host && t.reg((r + 2) as usize) == Some(
            lookup_or(s.host.block_hashes, k, zeros(32)),
        ),
{
    let code = builtin_code(Builtin::BlockHash(number), ns, r);
    let found = lookup_or(s.host.block_hashes, k, zeros(32));
    let a = s.mem.len();
    let r1 = (r + 1) as usize;
    let r2 = (r + 2) as usize;
    let staged = Operand::Reg(r);
    let result = Operand::Reg(r1);
    lemma_step_alloca(s, r, 8);
    let s1 = s.grown(8).bind(r, le_bytes(a, 4));
    lemma_fresh_buffer(s, r, 8);
    assert(s1.eval(number) == Some(k));
    lemma_written(s1, staged, k);
    let s2 = s1.write_at(staged, k).unwrap();
    lemma_step_store(s1, staged, number, k, s2);
    lemma_step_alloca(s2, r1, 32);
    let s3 = s2.grown(32).bind(r1, le_bytes(a + 8, 4));
    lemma_fresh_buffer(s2, r1, 32);
    assert(s3.read_at(staged, 8) == Some(k));
    lemma_written(s3, result, found);
    let s4 = s3.write_at(result, found).unwrap();
    assert(s3.host == s.host);
    lemma_step_block_hash(s3, staged, result, k, s4);
    lemma_step_load(s4, r2, result, 32, found);
    let s5 = s4.bind(r2, found);
    lemma_bind(s4, r2, found);
    assert(run(code, 5, s5) == Outcome::Completed(s5));
    assert(run(code, 4, s4) == Outcome::Completed(s5));
    assert(run(code, 3, s3) == Outcome::Completed(s5));
    assert(run(code, 2, s2) == Outcome::Completed(s5));
    assert(run(code, 1, s1) == Outcome::Completed(s5));
    assert(run(code, 0, s) == Outcome::Completed(s5));
    assert(s5.mem.subrange(0, a as int) =~= s.mem);
    assert forall|x: usize| x < r implies s5.reg(x) == s.reg(x) by {
        assert(s1.reg(x) == s.reg(x));
        assert(s3.reg(x) == s2.reg(x));
    }
}

/// The balance of an account is looked up by its address, which is staged
/// in a scratch buffer of its own: the result register takes the balance
/// that the host holds for the address, or zero.
pub proof fn law_balance(s: State, address: Operand, ns: Namespace, r: usize, k: Seq<u8>)
    requires
        address.below(r),
        r + 2 <= usize::MAX,
        ns.wf(),
        ns.address_length == s.host.address_length,
        s.eval(address) == Some(k),
        k.len() == ns.address_length,
        lookup_or(s.host.balances, k, zeros(32)).len() == 32,
        s.has_room(64),
    ensures
        run(builtin_code(Builtin::Balance(address), ns, r), 0, s) matches Outcome::Completed(t)
            && keeps(s, t, r) && t.host == s.host && t.reg((r + 2) as usize) == Some(
            lookup_or(s.host.balances, k, zeros(32)),
        ),
{
    let code = builtin_code(Builtin::Balance(address), ns, r);
    let found = lookup_or(s.host.balances, k, zeros(32));
    let n = ns.address_length as u32;
    let a = s.mem.len();
    let r1 = (r + 1) as usize;
    let r2 = (r + 2) as usize;
    let staged = Operand::Reg(r);
    let result = Operand::Reg(r1);
    lemma_step_alloca(s, r, n);
    let s1 = s.grown(n as nat).bind(r, le_bytes(a, 4));
    lemma_fresh_buffer(s, r, n as nat);
    assert(s1.eval(address) == Some(k));
    lemma_written(s1, staged, k);
    let s2 = s1.write_at(staged, k).unwrap();
    lemma_step_store(s1, staged, address, k, s2);
    lemma_step_alloca(s2, r1, 32);
    let s3 = s2.grown(32).bind(r1, le_bytes((a + n) as nat, 4));
    lemma_fresh_buffer(s2, r1, 32);
    assert(s3.read_at(staged, n as nat) == Some(k));
    lemma_written(s3, result, found);
    let s4 = s3.write_at(result, found).unwrap();
    assert(s3.host == s.host);
    lemma_step_balance(s3, staged, result, k, s4);
    lemma_step_load(s4, r2, result, 32, found);
    let s5 = s4.bind(r2, found);
    lemma_bind(s4, r2, found);
    assert(run(code, 5, s5) == Outcome::Completed(s5));
    assert(run(code, 4, s4) == Outcome::Completed(s5));
    assert(run(code, 3, s3) == Outcome::Completed(s5));
    assert(run(code, 2, s2) == Outcome::Completed(s5));
    assert(run(code, 1, s1) == Outcome::Completed(s5));
    assert(run(code, 0, s) == Outcome::Completed(s5));
    assert(s5.mem.subrange(0, a as int) =~= s.mem);
    assert forall|x: usize| x < r implies s5.reg(x) == s.reg(x) by {
        assert(s1.reg(x) == s.reg(x));
        assert(s3.reg(x) == s2.reg(x));
    }
}

/// Signature recovery stages hash, r and s in scratch buffers of their
/// own and issues one call: the result register takes the signer that the
/// host holds for them, as the host wrote it.
pub proof fn law_ecrecover(
    s: State,
    hash: Operand,
    v: Operand,
    sig_r: Operand,
    sig_s: Operand,
    ns: Namespace,
    r: usize,
    h: Seq<u8>,
    vb: Seq<u8>,
    rb: Seq<u8>,
    sb: Seq<u8>,
)
    requires
        hash.below(r),
        v.below(r),
        sig_r.below(r),
        sig_s.below(r),
        r + 4 <= usize::MAX,
        ns.wf(),
        ns.address_length == s.host.address_length,
        s.eval(hash) == Some(h),
        s.eval(v) == Some(vb),
        s.eval(sig_r) == Some(rb),
        s.eval(sig_s) == Some(sb),
        h.len() == 32,
        vb.len() == 1,
        rb.len() == 32,
        sb.len() == 32,
        lookup_or(s.host.recoveries, h + vb + rb + sb, zeros(s.host.address_length)).len()
            == ns.address_length,
        s.has_room(128),
    ensures
        run(
            builtin_code(Builtin::Ecrecover(hash, v, sig_r, sig_s), ns, r),
            0,
            s,
        ) matches Outcome::Completed(t) && keeps(s, t, r) && t.host == s.host && t.reg(
            (r + 4) as usize,
        ) == Some(lookup_or(s.host.recoveries, h + vb + rb + sb, zeros(s.host.address_length))),
{
    let code = builtin_code(Builtin::Ecrecover(hash, v, sig_r, sig_s), ns, r);
    let n = ns.address_length as u32;
    let signer = lookup_or(s.host.recoveries, h + vb + rb + sb, zeros(s.host.address_length));
    let a = s.mem.len();
    let r1 = (r + 1) as usize;
    let r2 = (r + 2) as usize;
    let r3 = (r + 3) as usize;
    let r4 = (r + 4) as usize;
    let hp = Operand::Reg(r);
    let rp = Operand::Reg(r1);
    let sp = Operand::Reg(r2);
    let out = Operand::Reg(r3);
    // the hash
    lemma_step_alloca(s, r, 32);
    let s1 = s.grown(32).bind(r, le_bytes(a, 4));
    lemma_fresh_buffer(s, r, 32);
    assert(s1.eval(hash) == Some(h));
    lemma_written(s1, hp, h);
    let s2 = s1.write_at(hp, h).unwrap();
    lemma_step_store(s1, hp, hash, h, s2);
    // r
    lemma_step_alloca(s2, r1, 32);
    let s3 = s2.grown(32).bind(r1, le_bytes(a + 32, 4));
    lemma_fresh_buffer(s2, r1, 32);
    assert(s3.eval(sig_r) == Some(rb)) by {
        assert(s2.eval(sig_r) == s1.eval(sig_r));
    }
    lemma_written(s3, rp, rb);
    let s4 = s3.write_at(rp, rb).unwrap();
    lemma_step_store(s3, rp, sig_r, rb, s4);
    // s
    lemma_step_alloca(s4, r2, 32);
    let s5 = s4.grown(32).bind(r2, le_bytes(a + 64, 4));
    lemma_fresh_buffer(s4, r2, 32);
    assert(s5.eval(sig_s) == Some(sb)) by {
        assert(s2.eval(sig_s) == s1.eval(sig_s));
        assert(s4.eval(sig_s) == s3.eval(sig_s));
    }
    lemma_written(s5, sp, sb);
    let s6 = s5.write_at(sp, sb).unwrap();
    lemma_step_store(s5, sp, sig_s, sb, s6);
    // the result
    lemma_step_alloca(s6, r3, n);
    let s7 = s6.grown(n as nat).bind(r3, le_bytes(a + 96, 4));
    lemma_fresh_buffer(s6, r3, n as nat);
    assert(s7.read_at(hp, 32) == Some(h)) by {
        assert(s2.read_at(hp, 32) == Some(h));
        assert(s3.read_at(hp, 32) == Some(h));
        assert(s4.read_at(hp, 32) == Some(h));
        assert(s5.read_at(hp, 32) == Some(h));
        assert(s6.read_at(hp, 32) == Some(h));
    }
    assert(s7.read_at(rp, 32) == Some(rb)) by {
        assert(s4.read_at(rp, 32) == Some(rb));
        assert(s5.read_at(rp, 32) == Some(rb));
        assert(s6.read_at(rp, 32) == Some(rb));
    }
    assert(s7.read_at(sp, 32) == Some(sb)) by {
        assert(s6.read_at(sp, 32) == Some(sb));
    }
    assert(s7.eval(v) == Some(vb)) by {
        assert(s2.eval(v) == s1.eval(v));
        assert(s4.eval(v) == s3.eval(v));
        assert(s6.eval(v) == s5.eval(v));
    }
    assert(s7.host == s.host);
    lemma_written(s7, out, signer);
    let s8 = s7.write_at(out, signer).unwrap();
    lemma_step_recover(s7, hp, v, rp, sp, out, h + vb + rb + sb, s8);
    lemma_step_load(s8, r4, out, n, signer);
    let s9 = s8.bind(r4, signer);
    lemma_bind(s8, r4, signer);
    assert(run(code, 9, s9) == Outcome::Completed(s9));
    assert(run(code, 8, s8) == Outcome::Completed(s9));
    assert(run(code, 7, s7) == Outcome::Completed(s9));
    assert(run(code, 6, s6) == Outcome::Completed(s9));
    assert(run(code, 5, s5) == Outcome::Completed(s9));
    assert(run(code, 4, s4) == Outcome::Completed(s9));
    assert(run(code, 3, s3) == Outcome::Completed(s9));
    assert(run(code, 2, s2) == Outcome::Completed(s9));
    assert(run(code, 1, s1) == Outcome::Completed(s9));
    assert(run(code, 0, s) == Outcome::Completed(s9));
    assert(s9.mem.subrange(0, a as int) =~= s.mem);
    assert forall|x: usize| x < r implies s9.reg(x) == s.reg(x) by {
        assert(s1.reg(x) == s.reg(x));
        assert(s3.reg(x) == s2.reg(x));
        assert(s5.reg(x) == s4.reg(x));
        assert(s7.reg(x) == s6.reg(x));
    }
}

/// Sending an event appends its data to the event log.
pub proof fn law_send_event(s: State, data: Operand, data_len: Operand, bytes: Seq<u8>)
    requires
        s.eval_word(data_len) == Some(bytes.len()),
        s.read_at(data, bytes.len()) == Some(bytes),
    ensures
        run(seq![host(Primitive::WriteLog, Args::Two(data, data_len))], 0, s)
            == Outcome::Completed(
            s.with_host(HostState { events: s.host.events.push(bytes), ..s.host }),
        ),
{
    let code = seq![host(Primitive::WriteLog, Args::Two(data, data_len))];
    lemma_step_write_log(s, data, data_len, bytes);
    let t = s.with_host(HostState { events: s.host.events.push(bytes), ..s.host });
    assert(run(code, 1, t) == Outcome::Completed(t));
}

/// Debug output changes nothing.
pub proof fn law_print(s: State, data: Operand, len: Operand, n: nat)
    requires
        s.eval_word(len) == Some(n),
        s.read_at(data, n).is_some(),
    ensures
        run(seq![host(Primitive::PrintMem, Args::Two(data, len))], 0, s) == Outcome::Completed(s),
{
    let code = seq![host(Primitive::PrintMem, Args::Two(data, len))];
    lemma_step_print(s, data, len, n);
    assert(run(code, 1, s) == Outcome::Completed(s));
}

/// The raw Keccak-256 writes the digest to the buffer as the host computes
/// it, most significant byte first.
pub proof fn law_keccak256_raw(s: State, src: Operand, length: Operand, dest: Operand, data: Seq<u8>)
    requires
        s.eval_word(length) == Some(data.len()),
        s.read_at(src, data.len()) == Some(data),
        s.eval_word(dest).is_some(),
        s.eval_word(dest).unwrap() + digest_of(Primitive::CryptoKeccak256, data).len()
            <= s.mem.len(),
    ensures
        run(
            seq![host(Primitive::CryptoKeccak256, Args::Three(src, length, dest))],
            0,
            s,
        ) matches Outcome::Completed(t) && t.host == s.host && t.regs == s.regs && t.read_at(
            dest,
            digest_of(Primitive::CryptoKeccak256, data).len(),
        ) == Some(digest_of(Primitive::CryptoKeccak256, data)),
{
    let code = seq![host(Primitive::CryptoKeccak256, Args::Three(src, length, dest))];
    let digest = digest_of(Primitive::CryptoKeccak256, data);
    lemma_written(s, dest, digest);
    let t = s.write_at(dest, digest).unwrap();
    lemma_step_digest(s, Primitive::CryptoKeccak256, src, length, dest, data, t);
    assert(run(code, 1, t) == Outcome::Completed(t));
}

/// Self-destruction stages the beneficiary, tells the host, and ends the
/// invocation with status 0.
pub proof fn law_selfdestruct(s: State, addr: Operand, ns: Namespace, r: usize, target: Seq<u8>)
    requires
        addr.below(r),
        ns.wf(),
        ns.address_length == s.host.address_length,
        s.eval(addr) == Some(target),
        target.len() == ns.address_length,
        s.has_room(32),
    ensures
        run(selfdestruct_code(addr, ns, r), 0, s) matches Outcome::Halted(t, h) && h == (
        HaltOutcome { status: 0, ..s.host.returned }) && t.host.calls == s.host.calls.push(
            CallRecord {
                primitive: Primitive::SelfDestruct,
                target,
                input: Seq::empty(),
                value: Seq::empty(),
                gas: Seq::empty(),
                salt: None,
            },
        ),
{
    let code = selfdestruct_code(addr, ns, r);
    let n = ns.address_length as u32;
    let a = s.mem.len();
    let staged = Operand::Reg(r);
    lemma_step_alloca(s, r, n);
    let s1 = s.grown(n as nat).bind(r, le_bytes(a, 4));
    lemma_fresh_buffer(s, r, n as nat);
    assert(s1.eval(addr) == Some(target));
    lemma_written(s1, staged, target);
    let s2 = s1.write_at(staged, target).unwrap();
    lemma_step_store(s1, staged, addr, target, s2);
    assert(s2.host == s.host);
    lemma_step_selfdestruct(s2, staged, target);
    assert(run(code, 1, s1) == run(code, 2, s2));
    assert(run(code, 0, s) == run(code, 1, s1));
}

} // verus!
