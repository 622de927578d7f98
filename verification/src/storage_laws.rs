//! What the storage lowerings mean on the reference machine, and the laws
//! that follow: a fixed value that was written is the value that is read, a
//! cleared slot reads as zero, and a byte string comes back as it went in.

use vstd::prelude::*;
use crate::bytes::{le_bytes, lemma_le_bytes_len, zeros};
use crate::ir::Operand;
use crate::machine::{
    lookup,
    lookup_or,
    run,
    HostState,
    Outcome,
    Pair,
    State,
    ADDRESS_SPACE,
};
use crate::semantics::{
    keeps,
    lemma_bind,
    lemma_bind_word,
    lemma_fresh_buffer,
    lemma_keeps,
    lemma_run_concat,
    lemma_written,
};
use crate::steps::{
    lemma_step_add,
    lemma_step_alloca,
    lemma_step_bzero8,
    lemma_step_load,
    lemma_step_load_storage,
    lemma_step_load_string,
    lemma_step_malloc,
    lemma_step_offset,
    lemma_step_save_storage,
    lemma_step_save_string,
    lemma_step_store,
    lemma_step_string_size,
};
use crate::storage::{
    get_storage_int_code,
    get_storage_string_code,
    set_storage_code,
    set_storage_string_code,
    storage_delete_code,
    storage_width,
    width_bytes,
};

verus! {

/// The 32-byte word that holds a fixed value: the value in the low-order
/// bytes, as it lies in memory, and zero in the bytes above it.
pub open spec fn storage_word(v: Seq<u8>) -> Seq<u8> {
    v + zeros((32 - v.len()) as nat)
}

/// The host after a fixed word was stored under `key`.
pub open spec fn stored(h: HostState, key: Seq<u8>, word: Seq<u8>) -> HostState {
    HostState { storage: h.storage.push(Pair { key, value: word }), ..h }
}

/// Clearing a slot stores the zero word under its key.
pub proof fn lemma_storage_delete(s: State, slot: Operand, r: usize, key: Seq<u8>)
    requires
        slot.below(r),
        s.read_at(slot, 32) == Some(key),
        s.has_room(32),
    ensures
        run(storage_delete_code(slot, r), 0, s) matches Outcome::Completed(t) && keeps(s, t, r)
            && t.mem.len() == s.mem.len() + 32 && t.host == stored(s.host, key, zeros(32)),
{
    let code = storage_delete_code(slot, r);
    let a = s.mem.len();
    let buf = Operand::Reg(r);
    let s1 = s.grown(32).bind(r, le_bytes(a, 4));
    lemma_step_alloca(s, r, 32);
    lemma_fresh_buffer(s, r, 32);
    lemma_written(s1, buf, zeros(32));
    let s2 = s1.write_at(buf, zeros(32)).unwrap();
    lemma_step_bzero8(s1, buf, 4, s2);
    assert(s2.read_at(slot, 32) == Some(key));
    lemma_step_save_storage(s2, slot, buf, key, zeros(32));
    let s3 = s2.with_host(stored(s.host, key, zeros(32)));
    assert(run(code, 3, s3) == Outcome::Completed(s3));
    assert(run(code, 2, s2) == Outcome::Completed(s3));
    assert(run(code, 1, s1) == Outcome::Completed(s3));
    assert(run(code, 0, s) == Outcome::Completed(s3));
    assert(s3.mem.subrange(0, a as int) =~= s.mem);
}

/// Writing a fixed value stores its word under the key of the slot.
pub proof fn lemma_set_storage(
    s: State,
    slot: Operand,
    dest: Operand,
    bits: u32,
    r: usize,
    key: Seq<u8>,
    v: Seq<u8>,
)
    requires
        slot.below(r),
        dest.below(r),
        storage_width(bits),
        r + 1 <= usize::MAX,
        s.read_at(slot, 32) == Some(key),
        s.read_at(dest, width_bytes(bits) as nat) == Some(v),
        s.has_room(32),
    ensures
        run(set_storage_code(slot, dest, bits, r), 0, s) matches Outcome::Completed(t) && keeps(
            s,
            t,
            r,
        ) && t.mem.len() <= s.mem.len() + 32 && t.host == stored(s.host, key, storage_word(v)),
{
    let code = set_storage_code(slot, dest, bits, r);
    let n = width_bytes(bits) as nat;
    if bits == 256 {
        assert(storage_word(v) =~= v);
        lemma_step_save_storage(s, slot, dest, key, v);
        let s1 = s.with_host(stored(s.host, key, v));
        assert(run(code, 1, s1) == Outcome::Completed(s1));
        assert(run(code, 0, s) == Outcome::Completed(s1));
        assert(s1.mem.subrange(0, s.mem.len() as int) =~= s.mem);
    } else {
        let a = s.mem.len();
        let buf = Operand::Reg(r);
        let tmp = (r + 1) as usize;
        let s1 = s.grown(32).bind(r, le_bytes(a, 4));
        lemma_step_alloca(s, r, 32);
        lemma_fresh_buffer(s, r, 32);
        lemma_written(s1, buf, zeros(32));
        let s2 = s1.write_at(buf, zeros(32)).unwrap();
        lemma_step_bzero8(s1, buf, 4, s2);
        assert(s2.read_at(dest, n) == Some(v));
        lemma_step_load(s2, tmp, dest, width_bytes(bits), v);
        let s3 = s2.bind(tmp, v);
        lemma_bind(s2, tmp, v);
        assert(s3.eval(buf) == s2.eval(buf));
        assert(s3.eval_word(buf) == Some(a));
        lemma_written(s3, buf, v);
        let s4 = s3.write_at(buf, v).unwrap();
        lemma_step_store(s3, buf, Operand::Reg(tmp), v, s4);
        assert(s4.mem.subrange(a as int, (a + 32) as int) =~= storage_word(v));
        assert(s4.read_at(buf, 32) == Some(storage_word(v)));
        let p = s.eval_word(slot).unwrap();
        assert(s3.eval(slot) == s2.eval(slot));
        assert(s3.read_at(slot, 32) == s2.read_at(slot, 32));
        assert(s4.read_at(slot, 32) == Some(key));
        lemma_step_save_storage(s4, slot, buf, key, storage_word(v));
        let s5 = s4.with_host(stored(s.host, key, storage_word(v)));
        assert(run(code, 5, s5) == Outcome::Completed(s5));
        assert(run(code, 4, s4) == Outcome::Completed(s5));
        assert(run(code, 3, s3) == Outcome::Completed(s5));
        assert(run(code, 2, s2) == Outcome::Completed(s5));
        assert(run(code, 1, s1) == Outcome::Completed(s5));
        assert(run(code, 0, s) == Outcome::Completed(s5));
        assert(s5.mem.subrange(0, a as int) =~= s.mem);
        assert forall|x: usize| x < r implies s5.reg(x) == s.reg(x) by {
            assert(s3.reg(x) == s2.reg(x));
        }
    }
}

/// Reading a fixed value binds the result register to the low-order bytes
/// of the word stored last under the key of the slot, or to zero where
/// nothing is stored.
pub proof fn lemma_get_storage_int(s: State, slot: Operand, bits: u32, r: usize, key: Seq<u8>)
    requires
        slot.below(r),
        storage_width(bits),
        r + 1 <= usize::MAX,
        s.read_at(slot, 32) == Some(key),
        s.has_room(32),
        lookup_or(s.host.storage, key, zeros(32)).len() == 32,
    ensures
        run(get_storage_int_code(slot, bits, r), 0, s) matches Outcome::Completed(t) && keeps(
            s,
            t,
            r,
        ) && t.host == s.host && t.mem.len() == s.mem.len() + 32 && t.reg((r + 1) as usize)
            == Some(
            lookup_or(s.host.storage, key, zeros(32)).subrange(0, width_bytes(bits) as int),
        ),
{
    let code = get_storage_int_code(slot, bits, r);
    let n = width_bytes(bits) as nat;
    let a = s.mem.len();
    let buf = Operand::Reg(r);
    let out = (r + 1) as usize;
    let w = lookup_or(s.host.storage, key, zeros(32));
    let s1 = s.grown(32).bind(r, le_bytes(a, 4));
    lemma_step_alloca(s, r, 32);
    lemma_fresh_buffer(s, r, 32);
    lemma_written(s1, buf, w);
    let s2 = s1.write_at(buf, w).unwrap();
    lemma_step_load_storage(s1, slot, buf, key, s2);
    assert(s2.mem.subrange(a as int, (a + n) as int) =~= w.subrange(0, n as int)) by {
        assert(s2.mem.subrange(a as int, (a + 32) as int) == w);
    }
    assert(s2.read_at(buf, n) == Some(w.subrange(0, n as int)));
    lemma_step_load(s2, out, buf, width_bytes(bits), w.subrange(0, n as int));
    let s3 = s2.bind(out, w.subrange(0, n as int));
    lemma_bind(s2, out, w.subrange(0, n as int));
    assert(run(code, 3, s3) == Outcome::Completed(s3));
    assert(run(code, 2, s2) == Outcome::Completed(s3));
    assert(run(code, 1, s1) == Outcome::Completed(s3));
    assert(run(code, 0, s) == Outcome::Completed(s3));
    assert(s3.mem.subrange(0, a as int) =~= s.mem);
    assert forall|x: usize| x < r implies s3.reg(x) == s.reg(x) by {
        assert(s2.reg(x) == s1.reg(x));
    }
}

/// A fixed value of any width up to 256 bits that is written to a slot is
/// the value that is read from the slot, and the bytes of the stored word
/// above the value are zero.
pub proof fn law_write_then_read(
    s: State,
    slot: Operand,
    dest: Operand,
    bits: u32,
    r: usize,
    r2: usize,
    key: Seq<u8>,
    v: Seq<u8>,
)
    requires
        storage_width(bits),
        slot.below(r),
        dest.below(r),
        r <= r2,
        r + 1 <= usize::MAX,
        r2 + 1 <= usize::MAX,
        s.read_at(slot, 32) == Some(key),
        s.read_at(dest, width_bytes(bits) as nat) == Some(v),
        s.has_room(64),
    ensures
        run(
            set_storage_code(slot, dest, bits, r) + get_storage_int_code(slot, bits, r2),
            0,
            s,
        ) matches Outcome::Completed(t) && {
            &&& t.reg((r2 + 1) as usize) == Some(v)
            &&& lookup(t.host.storage, key) == Some(storage_word(v))
            &&& storage_word(v).len() == 32
            &&& storage_word(v).subrange(0, width_bytes(bits) as int) == v
            &&& storage_word(v).subrange(width_bytes(bits) as int, 32) == zeros((32 - width_bytes(bits)) as nat)
        },
{
    let first = set_storage_code(slot, dest, bits, r);
    let second = get_storage_int_code(slot, bits, r2);
    lemma_set_storage(s, slot, dest, bits, r, key, v);
    let t1 = run(first, 0, s)->Completed_0;
    lemma_run_concat(first, second, 0, s);
    lemma_keeps(s, t1, r, slot);
    let w = storage_word(v);
    assert(w.subrange(0, width_bytes(bits) as int) =~= v);
    assert(w.subrange(width_bytes(bits) as int, 32) =~= zeros((32 - width_bytes(bits)) as nat));
    assert(t1.host.storage.last() == Pair { key, value: w });
    assert(lookup(t1.host.storage, key) == Some(w));
    lemma_get_storage_int(t1, slot, bits, r2, key);
}

/// A slot that was cleared reads as zero at every width.
pub proof fn law_delete_then_read(
    s: State,
    slot: Operand,
    bits: u32,
    r: usize,
    r2: usize,
    key: Seq<u8>,
)
    requires
        storage_width(bits),
        slot.below(r),
        r <= r2,
        r2 + 1 <= usize::MAX,
        s.read_at(slot, 32) == Some(key),
        s.has_room(64),
    ensures
        run(storage_delete_code(slot, r) + get_storage_int_code(slot, bits, r2), 0, s) matches
            Outcome::Completed(t) && t.reg((r2 + 1) as usize) == Some(zeros(width_bytes(bits) as nat)),
{
    let first = storage_delete_code(slot, r);
    let second = get_storage_int_code(slot, bits, r2);
    lemma_storage_delete(s, slot, r, key);
    let t1 = run(first, 0, s)->Completed_0;
    lemma_run_concat(first, second, 0, s);
    lemma_keeps(s, t1, r, slot);
    assert(t1.host.storage.last() == Pair { key, value: zeros(32) });
    assert(lookup(t1.host.storage, key) == Some(zeros(32)));
    lemma_get_storage_int(t1, slot, bits, r2, key);
    assert(zeros(32).subrange(0, width_bytes(bits) as int) =~= zeros(width_bytes(bits) as nat));
}

/// A length-prefixed buffer in memory: a 32-bit length, a 32-bit capacity,
/// and the data behind them.
pub open spec fn vector_at(s: State, ptr: Operand, data: Seq<u8>) -> bool {
    &&& s.read_at(ptr, 4) == Some(le_bytes(data.len(), 4))
    &&& data.len() < ADDRESS_SPACE
    &&& s.eval_word(ptr).unwrap() + 8 + data.len() <= s.mem.len()
    &&& s.mem.subrange(
        (s.eval_word(ptr).unwrap() + 8) as int,
        (s.eval_word(ptr).unwrap() + 8 + data.len()) as int,
    ) == data
}

/// The host after a byte string was stored under `key`.
pub open spec fn stored_string(h: HostState, key: Seq<u8>, data: Seq<u8>) -> HostState {
    HostState { strings: h.strings.push(Pair { key, value: data }), ..h }
}

/// Writing a byte string stores the data of the buffer under the key of
/// the slot.
pub proof fn lemma_set_storage_string(
    s: State,
    slot: Operand,
    dest: Operand,
    r: usize,
    key: Seq<u8>,
    data: Seq<u8>,
)
    requires
        slot.below(r),
        dest.below(r),
        r + 1 <= usize::MAX,
        s.read_at(slot, 32) == Some(key),
        vector_at(s, dest, data),
        s.has_room(0),
    ensures
        run(set_storage_string_code(slot, dest, r), 0, s) matches Outcome::Completed(t) && keeps(
            s,
            t,
            r,
        ) && t.mem == s.mem && t.host == stored_string(s.host, key, data),
{
    let code = set_storage_string_code(slot, dest, r);
    let n = data.len();
    let p = s.eval_word(dest).unwrap();
    let len = r;
    let body = (r + 1) as usize;
    lemma_le_bytes_len(n, 4);
    lemma_step_load(s, len, dest, 4, le_bytes(n, 4));
    let s1 = s.bind(len, le_bytes(n, 4));
    lemma_bind_word(s, len, n);
    lemma_step_offset(s1, body, dest, 8, p);
    let s2 = s1.bind(body, le_bytes(p + 8, 4));
    lemma_bind_word(s1, body, p + 8);
    assert(s2.read_at(Operand::Reg(body), n) == Some(data));
    assert(s2.eval_word(Operand::Reg(len)) == Some(n));
    assert(s2.read_at(slot, 32) == Some(key));
    lemma_step_save_string(s2, slot, Operand::Reg(body), Operand::Reg(len), key, n, data);
    let s3 = s2.with_host(stored_string(s.host, key, data));
    assert(run(code, 3, s3) == Outcome::Completed(s3));
    assert(run(code, 2, s2) == Outcome::Completed(s3));
    assert(run(code, 1, s1) == Outcome::Completed(s3));
    assert(run(code, 0, s) == Outcome::Completed(s3));
    assert(s3.mem.subrange(0, s.mem.len() as int) =~= s.mem);
    lemma_bind(s, len, le_bytes(n, 4));
    lemma_bind(s1, body, le_bytes(p + 8, 4));
    assert forall|x: usize| x < r implies s3.reg(x) == s.reg(x) by {
        assert(s1.reg(x) == s.reg(x));
        assert(s2.reg(x) == s1.reg(x));
    }
}

/// Reading a byte string builds a fresh length-prefixed buffer at the end
/// of the memory that holds the byte string stored last under the key of
/// the slot, and binds the result register to it.
pub proof fn lemma_get_storage_string(s: State, slot: Operand, r: usize, key: Seq<u8>)
    requires
        slot.below(r),
        r + 4 <= usize::MAX,
        s.read_at(slot, 32) == Some(key),
        s.has_room(8 + lookup_or(s.host.strings, key, Seq::empty()).len()),
    ensures
        run(get_storage_string_code(slot, r), 0, s) matches Outcome::Completed(t) && keeps(s, t, r)
            && t.host == s.host && t.eval_word(Operand::Reg((r + 2) as usize)) == Some(
            s.mem.len(),
        ) && vector_at(
            t,
            Operand::Reg((r + 2) as usize),
            lookup_or(s.host.strings, key, Seq::empty()),
        ),
{
    let code = get_storage_string_code(slot, r);
    let data = lookup_or(s.host.strings, key, Seq::empty());
    let n = data.len();
    let a = s.mem.len();
    let r0 = r;
    let r1 = (r + 1) as usize;
    let r2 = (r + 2) as usize;
    let r3 = (r + 3) as usize;
    let r4 = (r + 4) as usize;
    let head = le_bytes(n, 4);
    lemma_le_bytes_len(n, 4);
    // the length
    lemma_step_string_size(s, r0, slot, key);
    let s1 = s.bind(r0, head);
    lemma_bind_word(s, r0, n);
    lemma_bind(s, r0, head);
    // the size of the buffer
    lemma_step_add(s1, r1, Operand::Reg(r0), 8, n);
    let s2 = s1.bind(r1, le_bytes(n + 8, 4));
    lemma_bind_word(s1, r1, n + 8);
    lemma_bind(s1, r1, le_bytes(n + 8, 4));
    // the buffer
    lemma_step_malloc(s2, r2, Operand::Reg(r1), n + 8);
    let s3 = s2.grown(n + 8).bind(r2, le_bytes(a, 4));
    lemma_fresh_buffer(s2, r2, n + 8);
    assert(s3.eval(Operand::Reg(r0)) == Some(head));
    // the header
    lemma_written(s3, Operand::Reg(r2), head);
    let s4 = s3.write_at(Operand::Reg(r2), head).unwrap();
    lemma_step_store(s3, Operand::Reg(r2), Operand::Reg(r0), head, s4);
    lemma_step_offset(s4, r3, Operand::Reg(r2), 4, a);
    let s5 = s4.bind(r3, le_bytes(a + 4, 4));
    lemma_bind_word(s4, r3, a + 4);
    lemma_bind(s4, r3, le_bytes(a + 4, 4));
    assert(s5.eval(Operand::Reg(r0)) == Some(head));
    lemma_written(s5, Operand::Reg(r3), head);
    let s6 = s5.write_at(Operand::Reg(r3), head).unwrap();
    lemma_step_store(s5, Operand::Reg(r3), Operand::Reg(r0), head, s6);
    assert(s6.eval_word(Operand::Reg(r2)) == Some(a));
    lemma_step_offset(s6, r4, Operand::Reg(r2), 8, a);
    let s7 = s6.bind(r4, le_bytes(a + 8, 4));
    lemma_bind_word(s6, r4, a + 8);
    lemma_bind(s6, r4, le_bytes(a + 8, 4));
    // the data
    lemma_written(s7, Operand::Reg(r4), data);
    let s8 = s7.write_at(Operand::Reg(r4), data).unwrap();
    assert(s7.read_at(slot, 32) == Some(key)) by {
        assert(s3.read_at(slot, 32) == Some(key));
        assert(s4.read_at(slot, 32) == Some(key));
        assert(s5.read_at(slot, 32) == Some(key));
        assert(s6.read_at(slot, 32) == Some(key));
    }
    assert(s7.host == s.host);
    lemma_step_load_string(s7, slot, Operand::Reg(r4), key, s8);
    assert(run(code, 8, s8) == Outcome::Completed(s8));
    assert(run(code, 7, s7) == Outcome::Completed(s8));
    assert(run(code, 6, s6) == Outcome::Completed(s8));
    assert(run(code, 5, s5) == Outcome::Completed(s8));
    assert(run(code, 4, s4) == Outcome::Completed(s8));
    assert(run(code, 3, s3) == Outcome::Completed(s8));
    assert(run(code, 2, s2) == Outcome::Completed(s8));
    assert(run(code, 1, s1) == Outcome::Completed(s8));
    assert(run(code, 0, s) == Outcome::Completed(s8));
    assert(s8.mem =~= s.mem + head + head + data);
    assert(s8.mem.subrange(0, a as int) =~= s.mem);
    assert(s8.mem.subrange(a as int, (a + 4) as int) =~= head);
    assert(s8.mem.subrange((a + 8) as int, (a + 8 + n) as int) =~= data);
    assert(s8.eval_word(Operand::Reg(r2)) == Some(a));
    assert forall|x: usize| x < r implies s8.reg(x) == s.reg(x) by {
        assert(s1.reg(x) == s.reg(x));
        assert(s2.reg(x) == s1.reg(x));
        assert(s3.reg(x) == s2.reg(x));
        assert(s5.reg(x) == s4.reg(x));
        assert(s7.reg(x) == s6.reg(x));
    }
}

/// A byte string that is written to a slot is the byte string that is read
/// from the slot: the buffer that comes back has the length of the one that
/// went in, and the same bytes.
pub proof fn law_string_round_trip(
    s: State,
    slot: Operand,
    dest: Operand,
    r: usize,
    r2: usize,
    key: Seq<u8>,
    data: Seq<u8>,
)
    requires
        slot.below(r),
        dest.below(r),
        r <= r2,
        r + 1 <= usize::MAX,
        r2 + 4 <= usize::MAX,
        s.read_at(slot, 32) == Some(key),
        vector_at(s, dest, data),
        s.has_room(8 + data.len()),
    ensures
        run(
            set_storage_string_code(slot, dest, r) + get_storage_string_code(slot, r2),
            0,
            s,
        ) matches Outcome::Completed(t) && {
            let result = Operand::Reg((r2 + 2) as usize);
            &&& t.read_at(result, 4) == Some(le_bytes(data.len(), 4))
            &&& vector_at(t, result, data)
            &&& lookup(t.host.strings, key) == Some(data)
        },
{
    let first = set_storage_string_code(slot, dest, r);
    let second = get_storage_string_code(slot, r2);
    lemma_set_storage_string(s, slot, dest, r, key, data);
    let t1 = run(first, 0, s)->Completed_0;
    lemma_run_concat(first, second, 0, s);
    lemma_keeps(s, t1, r, slot);
    assert(t1.host.strings.last() == Pair { key, value: data });
    assert(lookup(t1.host.strings, key) == Some(data));
    lemma_get_storage_string(t1, slot, r2, key);
}

} // verus!
