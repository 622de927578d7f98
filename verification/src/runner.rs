//! Running emitted code on the reference machine: one operation for every
//! runtime helper, every host primitive and every instruction, each proved
//! to do what the model says.

use vstd::prelude::*;
use crate::bytes::{le_bytes, le_encode, lemma_le_bytes_len, word_decode, zero_bytes};
use crate::digest::{keccak256, ripemd160, sha256};
use crate::exec::{
    answers,
    copy_bytes,
    copy_rows,
    records,
    reversed,
    rows,
    table_lookup_or,
    table_push,
    Call,
    Halt,
    Host,
    Machine,
};
use crate::host::Primitive;
use crate::ir::{Args, ArithOp, Callee, Helper, Instr, Operand, Predicate};
use crate::machine::{is_getter, run, truth, Effect, Outcome, State, Step};

verus! {

/// What a call of a helper or a primitive came to.
pub enum Done {
    /// The call returned, with a result where the callee has one.
    Returned(Option<Vec<u8>>),
    /// The invocation ended.
    Halt(Halt),
    Trap,
}

/// What one instruction came to.
#[derive(Debug, PartialEq, Eq)]
pub enum Flow {
    Next,
    Skip(usize),
    Halt(Halt),
    Enter(usize),
    Trap,
}

/// What a run of code came to.
#[derive(Debug, PartialEq, Eq)]
pub enum End {
    /// Control reached the end of the code.
    Completed,
    /// The invocation ended.
    Halted(Halt),
    /// Control passed to the body of the function with this handle.
    Entered(usize),
    /// An instruction had no meaning.
    Trapped,
}

/// `done`, with the machine in state `after`, is what the model calls
/// `effect`.
pub open spec fn effect_is(done: Done, after: State, effect: Effect) -> bool {
    match effect {
        Effect::Done(t, v) => done matches Done::Returned(x) && after == t && (match (x, v) {
            (Some(a), Some(b)) => a@ == b,
            (None, None) => true,
            _ => false,
        }),
        Effect::Halt(t, h) => done matches Done::Halt(x) && x@ == h && after == t,
        Effect::Trap => done is Trap,
    }
}

/// `flow`, with the machine in state `after`, is what the model calls
/// `step`.
pub open spec fn step_is(flow: Flow, after: State, step: Step) -> bool {
    match step {
        Step::Next(t) => flow is Next && after == t,
        Step::Skip(t, n) => flow matches Flow::Skip(k) && k == n && after == t,
        Step::Halt(t, h) => flow matches Flow::Halt(x) && x@ == h && after == t,
        Step::Enter(t, f) => flow matches Flow::Enter(g) && g == f && after == t,
        Step::Trap => flow is Trap,
    }
}

/// `end`, with the machine in state `after`, is what the model calls
/// `outcome`.
pub open spec fn outcome_is(end: End, after: State, outcome: Outcome) -> bool {
    match outcome {
        Outcome::Completed(t) => end is Completed && after == t,
        Outcome::Halted(t, h) => end matches End::Halted(x) && x@ == h && after == t,
        Outcome::Entered(t, f) => end matches End::Entered(g) && g == f && after == t,
        Outcome::Trapped => end is Trapped,
    }
}

/// The first `n` bytes of `b`.
fn take(b: &Vec<u8>, n: usize) -> (out: Vec<u8>)
    requires
        n <= b@.len(),
    ensures
        out@ == b@.subrange(0, n as int),
{
    let mut out: Vec<u8> = Vec::new();
    let mut i: usize = 0;
    while i < n
        invariant
            i <= n <= b@.len(),
            out@ =~= b@.subrange(0, i as int),
        decreases n - i,
    {
        out.push(b[i]);
        i += 1;
    }
    out
}

/// The bytes of `b` from `from` up to `to`.
fn slice(b: &Vec<u8>, from: usize, to: usize) -> (out: Vec<u8>)
    requires
        from <= to <= b@.len(),
    ensures
        out@ == b@.subrange(from as int, to as int),
{
    let mut out: Vec<u8> = Vec::new();
    let mut i: usize = from;
    while i < to
        invariant
            from <= i <= to <= b@.len(),
            out@ =~= b@.subrange(from as int, i as int),
        decreases to - i,
    {
        out.push(b[i]);
        i += 1;
    }
    out
}

/// The four byte strings in a row.
fn concat4(a: &Vec<u8>, b: &Vec<u8>, c: &Vec<u8>, d: &Vec<u8>) -> (out: Vec<u8>)
    ensures
        out@ == a@ + b@ + c@ + d@,
{
    let mut out = copy_bytes(a);
    let mut x = copy_bytes(b);
    let mut y = copy_bytes(c);
    let mut z = copy_bytes(d);
    out.append(&mut x);
    out.append(&mut y);
    out.append(&mut z);
    out
}

impl Machine {
    /// Writes `data` where `ptr` points to, as the last act of a call that
    /// returns nothing.
    fn write_and_return(&mut self, ptr: Operand, data: &Vec<u8>) -> (out: Done)
        ensures
            match old(self)@.write_at(ptr, data@) {
                Some(t) => out == Done::Returned(None) && final(self)@ == t,
                None => out is Trap,
            },
    {
        if self.write_at(ptr, data) {
            Done::Returned(None)
        } else {
            Done::Trap
        }
    }

    /// What a runtime helper does.
    pub fn helper(&mut self, h: Helper, a: &Vec<Operand>) -> (out: Done)
        ensures
            effect_is(out, final(self)@, old(self)@.helper(h, a@)),
    {
        reveal(State::helper);
        match h {
            Helper::InitHeap => {
                if a.len() == 0 {
                    Done::Returned(None)
                } else {
                    Done::Trap
                }
            },
            Helper::Malloc => {
                if a.len() != 1 {
                    return Done::Trap;
                }
                match self.eval_word(a[0]) {
                    Some(n) => {
                        if self.has_room(n as usize) {
                            let ptr = self.grow(n as usize);
                            Done::Returned(Some(ptr))
                        } else {
                            Done::Trap
                        }
                    },
                    None => Done::Trap,
                }
            },
            Helper::Memcpy => {
                if a.len() != 3 {
                    return Done::Trap;
                }
                match self.eval_word(a[2]) {
                    Some(n) => match self.read_at(a[1], n as usize) {
                        Some(data) => self.write_and_return(a[0], &data),
                        None => Done::Trap,
                    },
                    None => Done::Trap,
                }
            },
            Helper::Bzero8 => {
                if a.len() != 2 {
                    return Done::Trap;
                }
                match self.eval_word(a[1]) {
                    Some(count) => {
                        let n: u64 = 8 * (count as u64);
                        if n > self.mem.len() as u64 {
                            return Done::Trap;
                        }
                        let data = zero_bytes(n as usize);
                        self.write_and_return(a[0], &data)
                    },
                    None => Done::Trap,
                }
            },
            Helper::Be32ToLeN => {
                if a.len() != 3 {
                    return Done::Trap;
                }
                match self.eval_word(a[2]) {
                    Some(n) => {
                        if n < 1 || n > 32 {
                            return Done::Trap;
                        }
                        match self.read_at(a[0], 32) {
                            Some(src) => {
                                let all = reversed(&src);
                                let data = take(&all, n as usize);
                                self.write_and_return(a[1], &data)
                            },
                            None => Done::Trap,
                        }
                    },
                    None => Done::Trap,
                }
            },
            Helper::BeNToLeN => {
                if a.len() != 3 {
                    return Done::Trap;
                }
                match self.eval_word(a[2]) {
                    Some(n) => match self.read_at(a[0], n as usize) {
                        Some(src) => {
                            let data = reversed(&src);
                            self.write_and_return(a[1], &data)
                        },
                        None => Done::Trap,
                    },
                    None => Done::Trap,
                }
            },
        }
    }
}

impl Machine {
    /// The host's status for the next call.
    fn next_status(&self) -> (out: u32)
        ensures
            out == self@.host.next_reply().status,
    {
        if self.host.replies.len() > 0 {
            self.host.replies[0].status
        } else {
            0
        }
    }

    /// The address that the host reports for the next creation.
    fn next_address(&self) -> (out: Vec<u8>)
        ensures
            out@ == self@.host.next_reply().address,
    {
        if self.host.replies.len() > 0 {
            copy_bytes(&self.host.replies[0].address)
        } else {
            zero_bytes(self.host.address_length)
        }
    }

    /// Lets the host take `call` and answer it.
    fn leave(&mut self, call: Call) -> (out: Done)
        ensures
            effect_is(out, final(self)@, old(self)@.host_leave(call@)),
    {
        let status = self.next_status();
        let ghost before = self@;
        if self.host.replies.len() > 0 {
            let reply = self.host.replies.remove(0);
            self.host.return_data = reply.data;
            assert(answers(self.host.replies@) =~= before.host.replies.skip(1));
        } else {
            self.host.return_data = Vec::new();
        }
        self.host.calls.push(call);
        assert(records(self.host.calls@) =~= before.host.calls.push(call@));
        assert(self@.host == before.host.answered(call@));
        Done::Returned(Some(le_encode(status as u64, 4)))
    }

    /// A creation: the host writes the new address to `result`, takes
    /// `call` and answers it.
    fn create(&mut self, call: Call, result: Operand) -> (out: Done)
        ensures
            effect_is(out, final(self)@, old(self)@.host_create(call@, result)),
    {
        let address = self.next_address();
        if self.write_at(result, &address) {
            self.leave(call)
        } else {
            Done::Trap
        }
    }

    /// The primitives of persistent storage.
    fn host_storage(&mut self, p: Primitive, a: &Vec<Operand>) -> (out: Done)
        requires
            p == Primitive::SaveStorage || p == Primitive::LoadStorage || p
                == Primitive::SaveStorageString || p == Primitive::LoadStorageString || p
                == Primitive::GetStorageStringSize,
        ensures
            effect_is(out, final(self)@, old(self)@.host_call(p, a@)),
    {
        reveal(State::host_call);
        match p {
            Primitive::SaveStorage => {
                if a.len() != 2 {
                    return Done::Trap;
                }
                match (self.read_at(a[0], 32), self.read_at(a[1], 32)) {
                    (Some(key), Some(value)) => {
                        table_push(&mut self.host.storage, key, value);
                        Done::Returned(None)
                    },
                    _ => Done::Trap,
                }
            },
            Primitive::LoadStorage => {
                if a.len() != 2 {
                    return Done::Trap;
                }
                match self.read_at(a[0], 32) {
                    Some(key) => {
                        let value = table_lookup_or(&self.host.storage, &key, zero_bytes(32));
                        self.write_and_return(a[1], &value)
                    },
                    None => Done::Trap,
                }
            },
            Primitive::SaveStorageString => {
                if a.len() != 3 {
                    return Done::Trap;
                }
                match self.eval_word(a[2]) {
                    Some(n) => match (self.read_at(a[0], 32), self.read_at(a[1], n as usize)) {
                        (Some(key), Some(value)) => {
                            table_push(&mut self.host.strings, key, value);
                            Done::Returned(None)
                        },
                        _ => Done::Trap,
                    },
                    None => Done::Trap,
                }
            },
            Primitive::LoadStorageString => {
                if a.len() != 2 {
                    return Done::Trap;
                }
                match self.read_at(a[0], 32) {
                    Some(key) => {
                        let value = table_lookup_or(&self.host.strings, &key, Vec::new());
                        self.write_and_return(a[1], &value)
                    },
                    None => Done::Trap,
                }
            },
            _ => {
                if a.len() != 1 {
                    return Done::Trap;
                }
                match self.read_at(a[0], 32) {
                    Some(key) => {
                        let value = table_lookup_or(&self.host.strings, &key, Vec::new());
                        if value.len() as u64 >= 0x1_0000_0000u64 {
                            Done::Trap
                        } else {
                            Done::Returned(Some(le_encode(value.len() as u64, 4)))
                        }
                    },
                    None => Done::Trap,
                }
            },
        }
    }
}

impl Machine {
    /// The primitives that move the data of the invocation.
    fn host_data(&mut self, p: Primitive, a: &Vec<Operand>) -> (out: Done)
        requires
            p == Primitive::GetCallSize || p == Primitive::GetReturnSize || p
                == Primitive::CopyCallValue || p == Primitive::CopyReturnValue,
        ensures
            effect_is(out, final(self)@, old(self)@.host_call(p, a@)),
    {
        reveal(State::host_call);
        match p {
            Primitive::GetCallSize => {
                if a.len() != 0 || self.host.call_data.len() as u64 >= 0x1_0000_0000u64 {
                    return Done::Trap;
                }
                Done::Returned(Some(le_encode(self.host.call_data.len() as u64, 4)))
            },
            Primitive::GetReturnSize => {
                if a.len() != 0 || self.host.return_data.len() as u64 >= 0x1_0000_0000u64 {
                    return Done::Trap;
                }
                Done::Returned(Some(le_encode(self.host.return_data.len() as u64, 4)))
            },
            Primitive::CopyCallValue => {
                if a.len() != 3 {
                    return Done::Trap;
                }
                match (self.eval_word(a[0]), self.eval_word(a[1])) {
                    (Some(from), Some(to)) => {
                        if from <= to && to as u64 <= self.host.call_data.len() as u64 {
                            let data = slice(&self.host.call_data, from as usize, to as usize);
                            self.write_and_return(a[2], &data)
                        } else {
                            Done::Trap
                        }
                    },
                    _ => Done::Trap,
                }
            },
            _ => {
                if a.len() != 3 {
                    return Done::Trap;
                }
                match (self.eval_word(a[1]), self.eval_word(a[2])) {
                    (Some(offset), Some(len)) => {
                        let end: u64 = offset as u64 + len as u64;
                        if end <= self.host.return_data.len() as u64 {
                            let data = slice(&self.host.return_data, offset as usize, end as usize);
                            self.write_and_return(a[0], &data)
                        } else {
                            Done::Trap
                        }
                    },
                    _ => Done::Trap,
                }
            },
        }
    }

    /// The two primitives of termination, and the two that write output.
    fn host_output(&mut self, p: Primitive, a: &Vec<Operand>) -> (out: Done)
        requires
            p == Primitive::SetReturn || p == Primitive::SystemHalt || p == Primitive::WriteLog
                || p == Primitive::PrintMem,
        ensures
            effect_is(out, final(self)@, old(self)@.host_call(p, a@)),
    {
        reveal(State::host_call);
        match p {
            Primitive::SetReturn => {
                if a.len() != 2 {
                    return Done::Trap;
                }
                match (self.eval_word(a[0]), self.eval_word(a[1])) {
                    (Some(ptr), Some(len)) => match self.read_at(a[0], len as usize) {
                        Some(data) => {
                            self.host.returned = Halt {
                                status: 0,
                                data_pointer: ptr,
                                data_length: len,
                                data,
                            };
                            Done::Returned(None)
                        },
                        None => Done::Trap,
                    },
                    _ => Done::Trap,
                }
            },
            Primitive::SystemHalt => {
                if a.len() != 1 {
                    return Done::Trap;
                }
                match self.eval_word(a[0]) {
                    Some(code) => Done::Halt(
                        Halt {
                            status: code,
                            data_pointer: self.host.returned.data_pointer,
                            data_length: self.host.returned.data_length,
                            data: copy_bytes(&self.host.returned.data),
                        },
                    ),
                    None => Done::Trap,
                }
            },
            Primitive::WriteLog => {
                if a.len() != 2 {
                    return Done::Trap;
                }
                match self.eval_word(a[1]) {
                    Some(len) => match self.read_at(a[0], len as usize) {
                        Some(data) => {
                            let ghost before = self@;
                            self.host.events.push(data);
                            assert(rows(self.host.events@) =~= before.host.events.push(data@));
                            Done::Returned(None)
                        },
                        None => Done::Trap,
                    },
                    None => Done::Trap,
                }
            },
            _ => {
                if a.len() != 2 {
                    return Done::Trap;
                }
                match self.eval_word(a[1]) {
                    Some(len) => match self.read_at(a[0], len as usize) {
                        Some(_) => Done::Returned(None),
                        None => Done::Trap,
                    },
                    None => Done::Trap,
                }
            },
        }
    }

    /// The primitives whose calls leave the contract.
    fn host_leaving(&mut self, p: Primitive, a: &Vec<Operand>) -> (out: Done)
        requires
            p == Primitive::InvokeContract || p == Primitive::InvokeStaticContract || p
                == Primitive::InvokeDelegateContract || p == Primitive::Transfer || p
                == Primitive::Create || p == Primitive::Create2 || p == Primitive::SelfDestruct,
        ensures
            effect_is(out, final(self)@, old(self)@.host_call(p, a@)),
    {
        reveal(State::host_call);
        let address_length = self.host.address_length;
        match p {
            Primitive::Transfer => {
                if a.len() != 2 {
                    return Done::Trap;
                }
                match (self.read_at(a[0], address_length), self.read_at(a[1], 32)) {
                    (Some(target), Some(value)) => self.leave(
                        Call {
                            primitive: p,
                            target,
                            input: Vec::new(),
                            value,
                            gas: Vec::new(),
                            salt: None,
                        },
                    ),
                    _ => Done::Trap,
                }
            },
            Primitive::Create => {
                if a.len() != 4 {
                    return Done::Trap;
                }
                match self.eval_word(a[2]) {
                    Some(len) => match (self.read_at(a[0], 32), self.read_at(a[1], len as usize)) {
                        (Some(value), Some(input)) => self.create(
                            Call {
                                primitive: p,
                                target: Vec::new(),
                                input,
                                value,
                                gas: Vec::new(),
                                salt: None,
                            },
                            a[3],
                        ),
                        _ => Done::Trap,
                    },
                    None => Done::Trap,
                }
            },
            Primitive::Create2 => {
                if a.len() != 5 {
                    return Done::Trap;
                }
                match self.eval_word(a[2]) {
                    Some(len) => match (
                        self.read_at(a[0], 32),
                        self.read_at(a[1], len as usize),
                        self.read_at(a[3], 32),
                    ) {
                        (Some(value), Some(input), Some(salt)) => self.create(
                            Call {
                                primitive: p,
                                target: Vec::new(),
                                input,
                                value,
                                gas: Vec::new(),
                                salt: Some(salt),
                            },
                            a[4],
                        ),
                        _ => Done::Trap,
                    },
                    None => Done::Trap,
                }
            },
            Primitive::SelfDestruct => {
                if a.len() != 1 {
                    return Done::Trap;
                }
                match self.read_at(a[0], address_length) {
                    Some(target) => {
                        let ghost before = self@;
                        let call = Call {
                            primitive: p,
                            target,
                            input: Vec::new(),
                            value: Vec::new(),
                            gas: Vec::new(),
                            salt: None,
                        };
                        self.host.calls.push(call);
                        assert(records(self.host.calls@) =~= before.host.calls.push(call@));
                        Done::Halt(
                            Halt {
                                status: 0,
                                data_pointer: self.host.returned.data_pointer,
                                data_length: self.host.returned.data_length,
                                data: copy_bytes(&self.host.returned.data),
                            },
                        )
                    },
                    None => Done::Trap,
                }
            },
            _ => {
                if a.len() != 5 {
                    return Done::Trap;
                }
                match self.eval_word(a[1]) {
                    Some(len) => match (
                        self.read_at(a[0], address_length),
                        self.read_at(a[2], len as usize),
                        self.read_at(a[3], 32),
                        self.read_at(a[4], 8),
                    ) {
                        (Some(target), Some(input), Some(value), Some(gas)) => self.leave(
                            Call { primitive: p, target, input, value, gas, salt: None },
                        ),
                        _ => Done::Trap,
                    },
                    None => Done::Trap,
                }
            },
        }
    }

    /// The context getters, the two lookups by address and by block
    /// number, hashing and signature recovery.
    fn host_context(&mut self, p: Primitive, a: &Vec<Operand>) -> (out: Done)
        requires
            is_getter(p) || p == Primitive::GetExternalBalance || p == Primitive::GetBlockHash || p
                == Primitive::CryptoKeccak256 || p == Primitive::CryptoRipemd160 || p
                == Primitive::CryptoSha256 || p == Primitive::CryptoRecover,
        ensures
            effect_is(out, final(self)@, old(self)@.host_call(p, a@)),
    {
        reveal(State::host_call);
        let address_length = self.host.address_length;
        match p {
            Primitive::GetExternalBalance => {
                if a.len() != 2 {
                    return Done::Trap;
                }
                match self.read_at(a[0], address_length) {
                    Some(key) => {
                        let value = table_lookup_or(&self.host.balances, &key, zero_bytes(32));
                        self.write_and_return(a[1], &value)
                    },
                    None => Done::Trap,
                }
            },
            Primitive::GetBlockHash => {
                if a.len() != 2 {
                    return Done::Trap;
                }
                match self.read_at(a[0], 8) {
                    Some(key) => {
                        let value = table_lookup_or(&self.host.block_hashes, &key, zero_bytes(32));
                        self.write_and_return(a[1], &value)
                    },
                    None => Done::Trap,
                }
            },
            Primitive::CryptoKeccak256 | Primitive::CryptoRipemd160 | Primitive::CryptoSha256 => {
                if a.len() != 3 {
                    return Done::Trap;
                }
                match self.eval_word(a[1]) {
                    Some(len) => match self.read_at(a[0], len as usize) {
                        Some(input) => {
                            let digest = match p {
                                Primitive::CryptoKeccak256 => keccak256(&input),
                                Primitive::CryptoRipemd160 => ripemd160(&input),
                                _ => sha256(&input),
                            };
                            self.write_and_return(a[2], &digest)
                        },
                        None => Done::Trap,
                    },
                    None => Done::Trap,
                }
            },
            Primitive::CryptoRecover => {
                if a.len() != 5 {
                    return Done::Trap;
                }
                match (
                    self.read_at(a[0], 32),
                    self.eval(a[1]),
                    self.read_at(a[2], 32),
                    self.read_at(a[3], 32),
                ) {
                    (Some(hash), Some(v), Some(r), Some(s)) => {
                        if v.len() != 1 {
                            return Done::Trap;
                        }
                        let key = concat4(&hash, &v, &r, &s);
                        let signer = table_lookup_or(
                            &self.host.recoveries,
                            &key,
                            zero_bytes(address_length),
                        );
                        self.write_and_return(a[4], &signer)
                    },
                    _ => Done::Trap,
                }
            },
            _ => {
                if a.len() != 1 {
                    return Done::Trap;
                }
                if p.index() >= self.host.context.len() {
                    return Done::Trap;
                }
                let datum = copy_bytes(&self.host.context[p.index()]);
                self.write_and_return(a[0], &datum)
            },
        }
    }

    /// What a host primitive does.
    pub fn host_call(&mut self, p: Primitive, a: &Vec<Operand>) -> (out: Done)
        ensures
            effect_is(out, final(self)@, old(self)@.host_call(p, a@)),
    {
        match p {
            Primitive::SaveStorage
            | Primitive::LoadStorage
            | Primitive::SaveStorageString
            | Primitive::LoadStorageString
            | Primitive::GetStorageStringSize => self.host_storage(p, a),
            Primitive::GetCallSize
            | Primitive::GetReturnSize
            | Primitive::CopyCallValue
            | Primitive::CopyReturnValue => self.host_data(p, a),
            Primitive::SetReturn
            | Primitive::SystemHalt
            | Primitive::WriteLog
            | Primitive::PrintMem => self.host_output(p, a),
            Primitive::InvokeContract
            | Primitive::InvokeStaticContract
            | Primitive::InvokeDelegateContract
            | Primitive::Transfer
            | Primitive::Create
            | Primitive::Create2
            | Primitive::SelfDestruct => self.host_leaving(p, a),
            _ => self.host_context(p, a),
        }
    }
}

/// The one-bit outcome of a comparison, as a byte.
fn truth_byte(b: bool) -> (out: Vec<u8>)
    ensures
        out@ == truth(b),
{
    let out = if b {
        vec![1u8]
    } else {
        vec![0u8]
    };
    assert(out@ =~= truth(b));
    out
}

impl Machine {
    /// `Alloca`, `Load` and `Store`.
    fn step_memory(&mut self, instr: &Instr) -> (out: Flow)
        requires
            instr is Alloca || instr is Load || instr is Store,
        ensures
            step_is(out, final(self)@, old(self)@.step(*instr)),
    {
        reveal(State::step);
        match instr {
            Instr::Alloca { dst, bytes } => {
                if *bytes >= 1 && self.has_room(*bytes as usize) {
                    let ptr = self.grow(*bytes as usize);
                    self.bind(*dst, ptr);
                    Flow::Next
                } else {
                    Flow::Trap
                }
            },
            Instr::Load { dst, ptr, bytes } => {
                if *bytes < 1 || *bytes > 32 {
                    return Flow::Trap;
                }
                match self.read_at(*ptr, *bytes as usize) {
                    Some(v) => {
                        self.bind(*dst, v);
                        Flow::Next
                    },
                    None => Flow::Trap,
                }
            },
            Instr::Store { ptr, value } => match self.eval(*value) {
                Some(v) => {
                    if self.write_at(*ptr, &v) {
                        Flow::Next
                    } else {
                        Flow::Trap
                    }
                },
                None => Flow::Trap,
            },
            _ => Flow::Trap,
        }
    }

    /// `Offset`, `Arith` and `Compare`.
    fn step_arith(&mut self, instr: &Instr) -> (out: Flow)
        requires
            instr is Offset || instr is Arith || instr is Compare,
        ensures
            step_is(out, final(self)@, old(self)@.step(*instr)),
    {
        reveal(State::step);
        match instr {
            Instr::Offset { dst, base, delta } => {
                match (self.eval_word(*base), self.eval_word(*delta)) {
                    (Some(b), Some(d)) => {
                        let sum: u64 = (b as u64 + d as u64) % 0x1_0000_0000u64;
                        self.bind(*dst, le_encode(sum, 4));
                        Flow::Next
                    },
                    _ => Flow::Trap,
                }
            },
            Instr::Arith { dst, op, lhs, rhs } => {
                match (self.eval_word(*lhs), self.eval_word(*rhs)) {
                    (Some(a), Some(b)) => {
                        let value: u64 = match op {
                            ArithOp::Add => (a as u64 + b as u64) % 0x1_0000_0000u64,
                            ArithOp::Sub => (a as u64 + 0x1_0000_0000u64 - b as u64)
                                % 0x1_0000_0000u64,
                        };
                        self.bind(*dst, le_encode(value, 4));
                        Flow::Next
                    },
                    _ => Flow::Trap,
                }
            },
            Instr::Compare { dst, pred, lhs, rhs } => {
                match (self.eval(*lhs), self.eval(*rhs)) {
                    (Some(a), Some(b)) => {
                        if a.len() != b.len() {
                            return Flow::Trap;
                        }
                        match pred {
                            Predicate::Eq => {
                                let same = crate::bytes::bytes_eq(&a, &b);
                                self.bind(*dst, truth_byte(same));
                                Flow::Next
                            },
                            Predicate::Ne => {
                                let same = crate::bytes::bytes_eq(&a, &b);
                                self.bind(*dst, truth_byte(!same));
                                Flow::Next
                            },
                            Predicate::Uge => match (word_decode(&a), word_decode(&b)) {
                                (Some(x), Some(y)) => {
                                    self.bind(*dst, truth_byte(x >= y));
                                    Flow::Next
                                },
                                _ => Flow::Trap,
                            },
                        }
                    },
                    _ => Flow::Trap,
                }
            },
            _ => Flow::Trap,
        }
    }

    /// A call of a host primitive or a runtime helper.
    fn step_call(&mut self, result: Option<usize>, callee: Callee, args: Args) -> (out: Flow)
        ensures
            step_is(out, final(self)@, old(self)@.call(result, callee, args)),
    {
        reveal(State::call);
        let list = args.to_vec();
        let done = match callee {
            Callee::Host(p) => self.host_call(p, &list),
            Callee::Runtime(h) => self.helper(h, &list),
        };
        match done {
            Done::Returned(value) => match (result, value) {
                (Some(r), Some(v)) => {
                    self.bind(r, v);
                    Flow::Next
                },
                (Some(_), None) => Flow::Trap,
                (None, _) => Flow::Next,
            },
            Done::Halt(h) => Flow::Halt(h),
            Done::Trap => Flow::Trap,
        }
    }

    /// Binds the registers from `first` on to `values`, in order.
    fn bind_all(&mut self, first: usize, values: &Vec<Vec<u8>>)
        requires
            first + values@.len() <= usize::MAX,
        ensures
            final(self)@ == old(self)@.bind_all(first, rows(values@), 0),
    {
        let mut k: usize = 0;
        while k < values.len()
            invariant
                k <= values@.len(),
                first + values@.len() <= usize::MAX,
                self@.bind_all(first, rows(values@), k as nat) == old(self)@.bind_all(
                    first,
                    rows(values@),
                    0,
                ),
            decreases values@.len() - k,
        {
            self.bind(first + k, copy_bytes(&values[k]));
            k += 1;
        }
    }

    /// The instructions that stand for the codec.
    fn step_codec(&mut self, instr: &Instr) -> (out: Flow)
        requires
            instr is EncodedLength || instr is Encode || instr is EncodeVector || instr is Decode,
        ensures
            step_is(out, final(self)@, old(self)@.step(*instr)),
    {
        reveal(State::step);
        match instr {
            Instr::EncodedLength { dst, job } => {
                if *job < self.encodings.len() && (self.encodings[*job].len() as u64)
                    < 0x1_0000_0000u64 {
                    let n = self.encodings[*job].len() as u64;
                    self.bind(*dst, le_encode(n, 4));
                    Flow::Next
                } else {
                    Flow::Trap
                }
            },
            Instr::Encode { dest, job } => {
                if *job < self.encodings.len() {
                    let data = copy_bytes(&self.encodings[*job]);
                    if self.write_at(*dest, &data) {
                        Flow::Next
                    } else {
                        Flow::Trap
                    }
                } else {
                    Flow::Trap
                }
            },
            Instr::EncodeVector { dst, job } => {
                if *job >= self.encodings.len() {
                    return Flow::Trap;
                }
                let n = self.encodings[*job].len();
                if (n as u64) >= 0x1_0000_0000u64 - 8 || !self.has_room(n + 8) {
                    return Flow::Trap;
                }
                let mut buffer = le_encode(n as u64, 4);
                let mut size = le_encode(n as u64, 4);
                let mut data = copy_bytes(&self.encodings[*job]);
                buffer.append(&mut size);
                buffer.append(&mut data);
                proof {
                    lemma_le_bytes_len(n as nat, 4);
                }
                match self.store(&buffer) {
                    Some(at) => {
                        self.bind(*dst, le_encode(at as u64, 4));
                        assert(self@.mem =~= old(self)@.mem + le_bytes(n as nat, 4) + le_bytes(
                            n as nat,
                            4,
                        ) + old(self)@.encodings[*job as int]);
                        Flow::Next
                    },
                    None => Flow::Trap,
                }
            },
            Instr::Decode { first, data, len, job } => match self.eval_word(*len) {
                Some(n) => match self.read_at(*data, n as usize) {
                    Some(_) => {
                        if *job >= self.decodings.len() {
                            return Flow::Trap;
                        }
                        match &self.decodings[*job] {
                            None => {
                                self.host.returned = Halt {
                                    status: 0,
                                    data_pointer: 0,
                                    data_length: 0,
                                    data: Vec::new(),
                                };
                                Flow::Halt(
                                    Halt {
                                        status: 1,
                                        data_pointer: 0,
                                        data_length: 0,
                                        data: Vec::new(),
                                    },
                                )
                            },
                            Some(found) => {
                                let values = copy_rows(found);
                                if values.len() > usize::MAX - *first {
                                    return Flow::Trap;
                                }
                                self.bind_all(*first, &values);
                                Flow::Next
                            },
                        }
                    },
                    None => Flow::Trap,
                },
                None => Flow::Trap,
            },
            _ => Flow::Trap,
        }
    }

    /// What one instruction does.
    pub fn step(&mut self, instr: &Instr) -> (out: Flow)
        ensures
            step_is(out, final(self)@, old(self)@.step(*instr)),
    {
        match instr {
            Instr::Alloca { .. } | Instr::Load { .. } | Instr::Store { .. } => self.step_memory(
                instr,
            ),
            Instr::Offset { .. } | Instr::Arith { .. } | Instr::Compare { .. } => self.step_arith(
                instr,
            ),
            Instr::EncodedLength { .. }
            | Instr::Encode { .. }
            | Instr::EncodeVector { .. }
            | Instr::Decode { .. } => self.step_codec(instr),
            Instr::Call { result, callee, args } => {
                reveal(State::step);
                self.step_call(*result, *callee, *args)
            },
            Instr::Invoke { function, first, count } => {
                reveal(State::step);
                Flow::Enter(*function)
            },
            Instr::SkipIf { cond, count } => {
                reveal(State::step);
                match self.eval(*cond) {
                    Some(c) => {
                        if c.len() != 1 {
                            Flow::Trap
                        } else if c[0] != 0 {
                            Flow::Skip(*count)
                        } else {
                            Flow::Next
                        }
                    },
                    None => Flow::Trap,
                }
            },
            Instr::Unreachable => {
                reveal(State::step);
                Flow::Trap
            },
        }
    }

    /// Runs `code` from its first instruction on.
    pub fn run(&mut self, code: &Vec<Instr>) -> (out: End)
        ensures
            outcome_is(out, final(self)@, run(code@, 0, old(self)@)),
    {
        let mut pc: usize = 0;
        while pc < code.len()
            invariant
                pc <= code@.len(),
                run(code@, 0, old(self)@) == run(code@, pc as nat, self@),
            decreases code@.len() - pc,
        {
            match self.step(&code[pc]) {
                Flow::Next => {
                    pc += 1;
                },
                Flow::Skip(n) => {
                    if n > code.len() - pc - 1 {
                        return End::Trapped;
                    }
                    pc = pc + 1 + n;
                },
                Flow::Halt(h) => {
                    return End::Halted(h);
                },
                Flow::Enter(f) => {
                    return End::Entered(f);
                },
                Flow::Trap => {
                    return End::Trapped;
                },
            }
        }
        End::Completed
    }
}

} // verus!
