//! What single instructions do, one lemma each, in the states in which a
//! lowering uses them.

use vstd::prelude::*;
use crate::bytes::{le_bytes, lemma_le_bytes_len, lemma_word_round_trip, zeros};
use crate::emit::{helper, host, host_to, malloc, word};
use crate::host::Primitive;
use crate::ir::{Args, ArithOp, Helper, Instr, Operand, Predicate};
use crate::machine::{
    digest_of,
    is_getter,
    lookup_or,
    returning,
    reverted,
    truth,
    CallRecord,
    HaltOutcome,
    HostState,
    Pair,
    State,
    Step,
    ADDRESS_SPACE,
};

verus! {

/// A 32-bit constant evaluates to its value.
pub proof fn lemma_eval_const(s: State, v: u32)
    ensures
        s.eval_word(word(v)) == Some(v as nat),
        s.eval(word(v)) == Some(le_bytes(v as nat, 4)),
{
    lemma_word_round_trip(v as nat);
    lemma_le_bytes_len(v as nat, 4);
}

/// `Alloca` binds the register to the end of the memory, and lengthens the
/// memory by the buffer.
pub proof fn lemma_step_alloca(s: State, dst: usize, bytes: u32)
    requires
        bytes >= 1,
        s.has_room(bytes as nat),
    ensures
        s.step(Instr::Alloca { dst, bytes }) == Step::Next(
            s.grown(bytes as nat).bind(dst, le_bytes(s.mem.len(), 4)),
        ),
{
    reveal(State::step);
}

/// `Load` binds the register to the bytes that the pointer points to.
pub proof fn lemma_step_load(s: State, dst: usize, ptr: Operand, bytes: u32, v: Seq<u8>)
    requires
        1 <= bytes <= 32,
        s.read_at(ptr, bytes as nat) == Some(v),
    ensures
        s.step(Instr::Load { dst, ptr, bytes }) == Step::Next(s.bind(dst, v)),
{
    reveal(State::step);
}

/// `Store` writes the value where the pointer points to.
pub proof fn lemma_step_store(s: State, ptr: Operand, value: Operand, v: Seq<u8>, t: State)
    requires
        s.eval(value) == Some(v),
        s.write_at(ptr, v) == Some(t),
    ensures
        s.step(Instr::Store { ptr, value }) == Step::Next(t),
{
    reveal(State::step);
}

/// `__bzero8` zeroes `count` units of eight bytes.
pub proof fn lemma_step_bzero8(s: State, dest: Operand, count: u32, t: State)
    requires
        s.write_at(dest, zeros(8 * count as nat)) == Some(t),
    ensures
        s.step(helper(Helper::Bzero8, Args::Two(dest, word(count)))) == Step::Next(t),
{
    reveal(State::step);
    reveal(State::call);
    reveal(State::helper);
    lemma_eval_const(s, count);
}

/// `save_storage` appends the word to the storage log under the key.
pub proof fn lemma_step_save_storage(
    s: State,
    key: Operand,
    value: Operand,
    k: Seq<u8>,
    v: Seq<u8>,
)
    requires
        s.read_at(key, 32) == Some(k),
        s.read_at(value, 32) == Some(v),
    ensures
        s.step(host(Primitive::SaveStorage, Args::Two(key, value))) == Step::Next(
            s.with_host(
                HostState { storage: s.host.storage.push(Pair { key: k, value: v }), ..s.host },
            ),
        ),
{
    reveal(State::step);
    reveal(State::call);
    reveal(State::host_call);
}

/// `load_storage` writes the word stored last under the key, or the zero
/// word, to the result buffer.
pub proof fn lemma_step_load_storage(
    s: State,
    key: Operand,
    result: Operand,
    k: Seq<u8>,
    t: State,
)
    requires
        s.read_at(key, 32) == Some(k),
        s.write_at(result, lookup_or(s.host.storage, k, zeros(32))) == Some(t),
    ensures
        s.step(host(Primitive::LoadStorage, Args::Two(key, result))) == Step::Next(t),
{
    reveal(State::step);
    reveal(State::call);
    reveal(State::host_call);
}

/// `Offset` by a constant binds the register to the pointer behind it.
pub proof fn lemma_step_offset(s: State, dst: usize, base: Operand, delta: u32, b: nat)
    requires
        s.eval_word(base) == Some(b),
        b + delta < ADDRESS_SPACE,
    ensures
        s.step(Instr::Offset { dst, base, delta: word(delta) }) == Step::Next(
            s.bind(dst, le_bytes((b + delta) as nat, 4)),
        ),
{
    reveal(State::step);
    lemma_eval_const(s, delta);
}

/// Adding a constant binds the register to the sum.
pub proof fn lemma_step_add(s: State, dst: usize, lhs: Operand, k: u32, a: nat)
    requires
        s.eval_word(lhs) == Some(a),
        a + k < ADDRESS_SPACE,
    ensures
        s.step(Instr::Arith { dst, op: ArithOp::Add, lhs, rhs: word(k) }) == Step::Next(
            s.bind(dst, le_bytes((a + k) as nat, 4)),
        ),
{
    reveal(State::step);
    lemma_eval_const(s, k);
}

/// Subtracting a constant binds the register to the difference.
pub proof fn lemma_step_sub(s: State, dst: usize, lhs: Operand, k: u32, a: nat)
    requires
        s.eval_word(lhs) == Some(a),
        k <= a < ADDRESS_SPACE,
    ensures
        s.step(Instr::Arith { dst, op: ArithOp::Sub, lhs, rhs: word(k) }) == Step::Next(
            s.bind(dst, le_bytes((a - k) as nat, 4)),
        ),
{
    reveal(State::step);
    lemma_eval_const(s, k);
}

/// `__malloc` binds the register to a fresh buffer at the end of the memory.
pub proof fn lemma_step_malloc(s: State, dst: usize, size: Operand, n: nat)
    requires
        s.eval_word(size) == Some(n),
        s.has_room(n),
    ensures
        s.step(malloc(dst, size)) == Step::Next(s.grown(n).bind(dst, le_bytes(s.mem.len(), 4))),
{
    reveal(State::step);
    reveal(State::call);
    reveal(State::helper);
}

/// `get_storage_string_size` answers the length of the byte string stored
/// last under the key, or 0.
pub proof fn lemma_step_string_size(s: State, dst: usize, key: Operand, k: Seq<u8>)
    requires
        s.read_at(key, 32) == Some(k),
        lookup_or(s.host.strings, k, Seq::empty()).len() < ADDRESS_SPACE,
    ensures
        s.step(host_to(dst, Primitive::GetStorageStringSize, Args::One(key))) == Step::Next(
            s.bind(dst, le_bytes(lookup_or(s.host.strings, k, Seq::empty()).len(), 4)),
        ),
{
    reveal(State::step);
    reveal(State::call);
    reveal(State::host_call);
}

/// `save_storage_string` appends the byte string to the log under the key.
pub proof fn lemma_step_save_string(
    s: State,
    key: Operand,
    data: Operand,
    len: Operand,
    k: Seq<u8>,
    n: nat,
    b: Seq<u8>,
)
    requires
        s.read_at(key, 32) == Some(k),
        s.eval_word(len) == Some(n),
        s.read_at(data, n) == Some(b),
    ensures
        s.step(host(Primitive::SaveStorageString, Args::Three(key, data, len))) == Step::Next(
            s.with_host(
                HostState { strings: s.host.strings.push(Pair { key: k, value: b }), ..s.host },
            ),
        ),
{
    reveal(State::step);
    reveal(State::call);
    reveal(State::host_call);
}

/// `load_storage_string` writes the byte string stored last under the key
/// to the result buffer.
pub proof fn lemma_step_load_string(s: State, key: Operand, result: Operand, k: Seq<u8>, t: State)
    requires
        s.read_at(key, 32) == Some(k),
        s.write_at(result, lookup_or(s.host.strings, k, Seq::empty())) == Some(t),
    ensures
        s.step(host(Primitive::LoadStorageString, Args::Two(key, result))) == Step::Next(t),
{
    reveal(State::step);
    reveal(State::call);
    reveal(State::host_call);
}

/// `__be32toleN` writes the `len` low-order bytes of the big-endian word at
/// `from`, least significant first.
pub proof fn lemma_step_be32tolen(
    s: State,
    from: Operand,
    to: Operand,
    len: u32,
    src: Seq<u8>,
    t: State,
)
    requires
        1 <= len <= 32,
        s.read_at(from, 32) == Some(src),
        s.write_at(to, src.reverse().subrange(0, len as int)) == Some(t),
    ensures
        s.step(helper(Helper::Be32ToLeN, Args::Three(from, to, word(len)))) == Step::Next(t),
{
    reveal(State::step);
    reveal(State::call);
    reveal(State::helper);
    lemma_eval_const(s, len);
}

/// `__beNtoleN` writes the `len` bytes at `from` in reverse order.
pub proof fn lemma_step_bentolen(
    s: State,
    from: Operand,
    to: Operand,
    len: u32,
    src: Seq<u8>,
    t: State,
)
    requires
        s.read_at(from, len as nat) == Some(src),
        s.write_at(to, src.reverse()) == Some(t),
    ensures
        s.step(helper(Helper::BeNToLeN, Args::Three(from, to, word(len)))) == Step::Next(t),
{
    reveal(State::step);
    reveal(State::call);
    reveal(State::helper);
    lemma_eval_const(s, len);
}

/// `__memcpy` copies `len` bytes.
pub proof fn lemma_step_memcpy(
    s: State,
    dest: Operand,
    src: Operand,
    len: u32,
    data: Seq<u8>,
    t: State,
)
    requires
        s.read_at(src, len as nat) == Some(data),
        s.write_at(dest, data) == Some(t),
    ensures
        s.step(helper(Helper::Memcpy, Args::Three(dest, src, word(len)))) == Step::Next(t),
{
    reveal(State::step);
    reveal(State::call);
    reveal(State::helper);
    lemma_eval_const(s, len);
}

/// `__init_heap` leaves the machine as it is.
pub proof fn lemma_step_init_heap(s: State)
    ensures
        s.step(helper(Helper::InitHeap, Args::Empty)) == Step::Next(s),
{
    reveal(State::step);
    reveal(State::call);
    reveal(State::helper);
}

/// A comparison binds the register to its outcome.
pub proof fn lemma_step_compare(
    s: State,
    dst: usize,
    pred: Predicate,
    lhs: Operand,
    rhs: Operand,
    a: Seq<u8>,
    b: Seq<u8>,
)
    requires
        s.eval(lhs) == Some(a),
        s.eval(rhs) == Some(b),
        a.len() == b.len(),
        pred is Uge ==> a.len() == 4,
    ensures
        s.step(Instr::Compare { dst, pred, lhs, rhs }) == Step::Next(
            s.bind(
                dst,
                truth(
                    match pred {
                        Predicate::Eq => a == b,
                        Predicate::Ne => a != b,
                        Predicate::Uge => crate::bytes::le_value(a) >= crate::bytes::le_value(b),
                    },
                ),
            ),
        ),
{
    reveal(State::step);
}

/// `SkipIf` skips where the condition holds and goes on where it does not.
pub proof fn lemma_step_skip(s: State, cond: Operand, count: usize, c: bool)
    requires
        s.eval(cond) == Some(truth(c)),
    ensures
        s.step(Instr::SkipIf { cond, count }) == (if c {
            Step::Skip(s, count as nat)
        } else {
            Step::Next(s)
        }),
{
    reveal(State::step);
}

/// A context getter writes its datum to the buffer.
pub proof fn lemma_step_getter(s: State, p: Primitive, ptr: Operand, t: State)
    requires
        is_getter(p),
        p.index_of() < s.host.context.len(),
        s.write_at(ptr, s.host.context[p.index_of() as int]) == Some(t),
    ensures
        s.step(host(p, Args::One(ptr))) == Step::Next(t),
{
    reveal(State::step);
    reveal(State::call);
    reveal(State::host_call);
}

/// `get_call_size` answers the length of the call data.
pub proof fn lemma_step_call_size(s: State, dst: usize)
    requires
        s.host.call_data.len() < ADDRESS_SPACE,
    ensures
        s.step(host_to(dst, Primitive::GetCallSize, Args::Empty)) == Step::Next(
            s.bind(dst, le_bytes(s.host.call_data.len(), 4)),
        ),
{
    reveal(State::step);
    reveal(State::call);
    reveal(State::host_call);
}

/// `copy_call_value` from 0 to the length of the call data copies all of it.
pub proof fn lemma_step_copy_call_data(s: State, len: Operand, ptr: Operand, t: State)
    requires
        s.eval_word(len) == Some(s.host.call_data.len()),
        s.write_at(ptr, s.host.call_data) == Some(t),
    ensures
        s.step(host(Primitive::CopyCallValue, Args::Three(word(0), len, ptr))) == Step::Next(t),
{
    reveal(State::step);
    reveal(State::call);
    reveal(State::host_call);
    lemma_eval_const(s, 0);
    assert(s.host.call_data.subrange(0, s.host.call_data.len() as int) =~= s.host.call_data);
}

/// An external call hands the host the address, the payload, the value and
/// the gas, and binds the result register to the host's status.
pub proof fn lemma_step_invoke(
    s: State,
    dst: usize,
    p: Primitive,
    address: Operand,
    len: Operand,
    input: Operand,
    value: Operand,
    gas: Operand,
    rec: CallRecord,
)
    requires
        p == Primitive::InvokeContract || p == Primitive::InvokeStaticContract || p
            == Primitive::InvokeDelegateContract,
        s.eval_word(len).is_some(),
        s.read_at(address, s.host.address_length) == Some(rec.target),
        s.read_at(input, s.eval_word(len).unwrap()) == Some(rec.input),
        s.read_at(value, 32) == Some(rec.value),
        s.read_at(gas, 8) == Some(rec.gas),
        rec.primitive == p,
        rec.salt is None,
    ensures
        s.step(host_to(dst, p, Args::Five(address, len, input, value, gas))) == Step::Next(
            s.with_host(s.host.answered(rec)).bind(
                dst,
                le_bytes(s.host.next_reply().status as nat, 4),
            ),
        ),
{
    reveal(State::step);
    reveal(State::call);
    reveal(State::host_call);
}

/// A transfer hands the host the address and the value, and binds the
/// result register to the host's status.
pub proof fn lemma_step_transfer(
    s: State,
    dst: usize,
    address: Operand,
    value: Operand,
    rec: CallRecord,
)
    requires
        s.read_at(address, s.host.address_length) == Some(rec.target),
        s.read_at(value, 32) == Some(rec.value),
        rec.primitive == Primitive::Transfer,
        rec.input == Seq::<u8>::empty(),
        rec.gas == Seq::<u8>::empty(),
        rec.salt is None,
    ensures
        s.step(host_to(dst, Primitive::Transfer, Args::Two(address, value))) == Step::Next(
            s.with_host(s.host.answered(rec)).bind(
                dst,
                le_bytes(s.host.next_reply().status as nat, 4),
            ),
        ),
{
    reveal(State::step);
    reveal(State::call);
    reveal(State::host_call);
}

/// A plain creation hands the host the value and the data, lets it write
/// the new address, and binds the result register to the host's status.
pub proof fn lemma_step_create(
    s: State,
    dst: usize,
    value: Operand,
    data: Operand,
    len: Operand,
    result: Operand,
    rec: CallRecord,
    t: State,
)
    requires
        s.eval_word(len).is_some(),
        s.read_at(value, 32) == Some(rec.value),
        s.read_at(data, s.eval_word(len).unwrap()) == Some(rec.input),
        s.write_at(result, s.host.next_reply().address) == Some(t),
        rec.primitive == Primitive::Create,
        rec.target == Seq::<u8>::empty(),
        rec.gas == Seq::<u8>::empty(),
        rec.salt is None,
    ensures
        s.step(host_to(dst, Primitive::Create, Args::Four(value, data, len, result))) == Step::Next(
            t.with_host(s.host.answered(rec)).bind(
                dst,
                le_bytes(s.host.next_reply().status as nat, 4),
            ),
        ),
{
    reveal(State::step);
    reveal(State::call);
    reveal(State::host_call);
}

/// A salted creation hands the host the value, the data and the salt, lets
/// it write the new address, and binds the result register to the host's
/// status.
pub proof fn lemma_step_create2(
    s: State,
    dst: usize,
    value: Operand,
    data: Operand,
    len: Operand,
    salt: Operand,
    result: Operand,
    rec: CallRecord,
    t: State,
)
    requires
        s.eval_word(len).is_some(),
        s.read_at(value, 32) == Some(rec.value),
        s.read_at(data, s.eval_word(len).unwrap()) == Some(rec.input),
        rec.salt.is_some(),
        s.read_at(salt, 32) == Some(rec.salt.unwrap()),
        s.write_at(result, s.host.next_reply().address) == Some(t),
        rec.primitive == Primitive::Create2,
        rec.target == Seq::<u8>::empty(),
        rec.gas == Seq::<u8>::empty(),
    ensures
        s.step(
            host_to(dst, Primitive::Create2, Args::Five(value, data, len, salt, result)),
        ) == Step::Next(
            t.with_host(s.host.answered(rec)).bind(
                dst,
                le_bytes(s.host.next_reply().status as nat, 4),
            ),
        ),
{
    reveal(State::step);
    reveal(State::call);
    reveal(State::host_call);
}

/// `set_return` names the data that the invocation hands back.
pub proof fn lemma_step_set_return(
    s: State,
    data: Operand,
    len: Operand,
    p: nat,
    n: nat,
    bytes: Seq<u8>,
)
    requires
        s.eval_word(data) == Some(p),
        s.eval_word(len) == Some(n),
        s.read_at(data, n) == Some(bytes),
    ensures
        s.step(host(Primitive::SetReturn, Args::Two(data, len))) == Step::Next(
            s.with_host(
                HostState {
                    returned: HaltOutcome {
                        status: 0,
                        data_pointer: p as u32,
                        data_length: n as u32,
                        data: bytes,
                    },
                    ..s.host
                },
            ),
        ),
{
    reveal(State::step);
    reveal(State::call);
    reveal(State::host_call);
}

/// `system_halt` ends the invocation with the status and the data named
/// before.
pub proof fn lemma_step_system_halt(s: State, status: u32)
    ensures
        s.step(host(Primitive::SystemHalt, Args::One(word(status)))) == Step::Halt(
            s,
            HaltOutcome { status, ..s.host.returned },
        ),
{
    reveal(State::step);
    reveal(State::call);
    reveal(State::host_call);
    lemma_eval_const(s, status);
}

/// `EncodedLength` binds the register to the length of the codec's output.
pub proof fn lemma_step_encoded_length(s: State, dst: usize, job: usize)
    requires
        job < s.encodings.len(),
        s.encodings[job as int].len() < ADDRESS_SPACE,
    ensures
        s.step(Instr::EncodedLength { dst, job }) == Step::Next(
            s.bind(dst, le_bytes(s.encodings[job as int].len(), 4)),
        ),
{
    reveal(State::step);
}

/// `Encode` writes the codec's output to the buffer.
pub proof fn lemma_step_encode(s: State, dest: Operand, job: usize, t: State)
    requires
        job < s.encodings.len(),
        s.write_at(dest, s.encodings[job as int]) == Some(t),
    ensures
        s.step(Instr::Encode { dest, job }) == Step::Next(t),
{
    reveal(State::step);
}

/// `Decode` reverts with no data where the codec cannot decode the data,
/// and binds the registers from `first` on to the decoded values where it
/// can.
pub proof fn lemma_step_decode(
    s: State,
    first: usize,
    data: Operand,
    len: Operand,
    job: usize,
    n: nat,
)
    requires
        s.eval_word(len) == Some(n),
        s.read_at(data, n).is_some(),
        job < s.decodings.len(),
        s.decodings[job as int] matches Some(values) ==> first + values.len() <= usize::MAX,
    ensures
        s.step(Instr::Decode { first, data, len, job }) == (match s.decodings[job as int] {
            None => Step::Halt(s.with_host(returning(s.host, reverted())), reverted()),
            Some(values) => Step::Next(s.bind_all(first, values, 0)),
        }),
{
    reveal(State::step);
}

/// `Invoke` passes control to the function.
pub proof fn lemma_step_enter(s: State, function: usize, first: usize, count: usize)
    ensures
        s.step(Instr::Invoke { function, first, count }) == Step::Enter(s, function),
{
    reveal(State::step);
}

/// A hashing primitive writes the digest of the input to the result
/// buffer.
pub proof fn lemma_step_digest(
    s: State,
    p: Primitive,
    input: Operand,
    len: Operand,
    result: Operand,
    data: Seq<u8>,
    t: State,
)
    requires
        p == Primitive::CryptoKeccak256 || p == Primitive::CryptoRipemd160 || p
            == Primitive::CryptoSha256,
        s.eval_word(len) == Some(data.len()),
        s.read_at(input, data.len()) == Some(data),
        s.write_at(result, digest_of(p, data)) == Some(t),
    ensures
        s.step(host(p, Args::Three(input, len, result))) == Step::Next(t),
{
    reveal(State::step);
    reveal(State::call);
    reveal(State::host_call);
}

/// `get_return_size` answers the length of the data that the last call
/// returned.
pub proof fn lemma_step_return_size(s: State, dst: usize)
    requires
        s.host.return_data.len() < ADDRESS_SPACE,
    ensures
        s.step(host_to(dst, Primitive::GetReturnSize, Args::Empty)) == Step::Next(
            s.bind(dst, le_bytes(s.host.return_data.len(), 4)),
        ),
{
    reveal(State::step);
    reveal(State::call);
    reveal(State::host_call);
}

/// `copy_return_value` from offset 0 over the whole length copies all of
/// the returned data.
pub proof fn lemma_step_copy_return_data(s: State, ptr: Operand, len: Operand, t: State)
    requires
        s.eval_word(len) == Some(s.host.return_data.len()),
        s.write_at(ptr, s.host.return_data) == Some(t),
    ensures
        s.step(host(Primitive::CopyReturnValue, Args::Three(ptr, word(0), len))) == Step::Next(t),
{
    reveal(State::step);
    reveal(State::call);
    reveal(State::host_call);
    lemma_eval_const(s, 0);
    assert(s.host.return_data.subrange(0, s.host.return_data.len() as int)
        =~= s.host.return_data);
}

/// `get_block_hash` writes the hash that the host holds for the block
/// number, or zero.
pub proof fn lemma_step_block_hash(
    s: State,
    number: Operand,
    result: Operand,
    k: Seq<u8>,
    t: State,
)
    requires
        s.read_at(number, 8) == Some(k),
        s.write_at(result, lookup_or(s.host.block_hashes, k, zeros(32))) == Some(t),
    ensures
        s.step(host(Primitive::GetBlockHash, Args::Two(number, result))) == Step::Next(t),
{
    reveal(State::step);
    reveal(State::call);
    reveal(State::host_call);
}

/// `get_external_balance` writes the balance that the host holds for the
/// address, or zero.
pub proof fn lemma_step_balance(s: State, address: Operand, result: Operand, k: Seq<u8>, t: State)
    requires
        s.read_at(address, s.host.address_length) == Some(k),
        s.write_at(result, lookup_or(s.host.balances, k, zeros(32))) == Some(t),
    ensures
        s.step(host(Primitive::GetExternalBalance, Args::Two(address, result))) == Step::Next(t),
{
    reveal(State::step);
    reveal(State::call);
    reveal(State::host_call);
}

/// `crypto_recover` writes the signer that the host holds for hash, v, r
/// and s, or zero.
pub proof fn lemma_step_recover(
    s: State,
    hash: Operand,
    v: Operand,
    sig_r: Operand,
    sig_s: Operand,
    result: Operand,
    key: Seq<u8>,
    t: State,
)
    requires
        s.read_at(hash, 32).is_some(),
        s.eval(v).is_some(),
        s.eval(v).unwrap().len() == 1,
        s.read_at(sig_r, 32).is_some(),
        s.read_at(sig_s, 32).is_some(),
        key == s.read_at(hash, 32).unwrap() + s.eval(v).unwrap() + s.read_at(sig_r, 32).unwrap()
            + s.read_at(sig_s, 32).unwrap(),
        s.write_at(result, lookup_or(s.host.recoveries, key, zeros(s.host.address_length)))
            == Some(t),
    ensures
        s.step(host(Primitive::CryptoRecover, Args::Five(hash, v, sig_r, sig_s, result)))
            == Step::Next(t),
{
    reveal(State::step);
    reveal(State::call);
    reveal(State::host_call);
}

/// `write_log` appends the bytes to the event log.
pub proof fn lemma_step_write_log(s: State, data: Operand, len: Operand, bytes: Seq<u8>)
    requires
        s.eval_word(len) == Some(bytes.len()),
        s.read_at(data, bytes.len()) == Some(bytes),
    ensures
        s.step(host(Primitive::WriteLog, Args::Two(data, len))) == Step::Next(
            s.with_host(HostState { events: s.host.events.push(bytes), ..s.host }),
        ),
{
    reveal(State::step);
    reveal(State::call);
    reveal(State::host_call);
}

/// `printMem` reads the bytes and changes nothing.
pub proof fn lemma_step_print(s: State, data: Operand, len: Operand, n: nat)
    requires
        s.eval_word(len) == Some(n),
        s.read_at(data, n).is_some(),
    ensures
        s.step(host(Primitive::PrintMem, Args::Two(data, len))) == Step::Next(s),
{
    reveal(State::step);
    reveal(State::call);
    reveal(State::host_call);
}

/// `selfDestruct` tells the host the beneficiary and ends the invocation
/// with status 0.
pub proof fn lemma_step_selfdestruct(s: State, address: Operand, target: Seq<u8>)
    requires
        s.read_at(address, s.host.address_length) == Some(target),
    ensures
        s.step(host(Primitive::SelfDestruct, Args::One(address))) == Step::Halt(
            s.with_host(
                HostState {
                    calls: s.host.calls.push(
                        CallRecord {
                            primitive: Primitive::SelfDestruct,
                            target,
                            input: Seq::empty(),
                            value: Seq::empty(),
                            gas: Seq::empty(),
                            salt: None,
                        },
                    ),
                    ..s.host
                },
            ),
            HaltOutcome { status: 0, ..s.host.returned },
        ),
{
    reveal(State::step);
    reveal(State::call);
    reveal(State::host_call);
}

/// `EncodeVector` builds a fresh length-prefixed buffer at the end of the
/// memory that holds the codec's output.
pub proof fn lemma_step_encode_vector(s: State, dst: usize, job: usize)
    requires
        job < s.encodings.len(),
        s.has_room(8 + s.encodings[job as int].len()),
    ensures
        s.step(Instr::EncodeVector { dst, job }) == Step::Next(
            State {
                mem: s.mem + le_bytes(s.encodings[job as int].len(), 4) + le_bytes(
                    s.encodings[job as int].len(),
                    4,
                ) + s.encodings[job as int],
                ..s
            }.bind(dst, le_bytes(s.mem.len(), 4)),
        ),
{
    reveal(State::step);
}

} // verus!
