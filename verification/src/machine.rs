//! A reference machine for emitted code. It gives every instruction and
//! every host primitive a meaning on a small model of the host: a linear
//! memory, registers, persistent storage, the data of the invocation, and a
//! record of the calls that left the contract.
//!
//! This file holds the mathematical model; the executable machine that
//! follows it step by step is in `exec`.

use vstd::prelude::*;
use crate::bytes::{filler, le_bytes, read_range, word_of, write_range, zeros};
use crate::digest::{keccak256_digest, ripemd160_digest, sha256_digest};
use crate::host::Primitive;
use crate::ir::{Args, ArithOp, Callee, Helper, Instr, Operand, Predicate};

verus! {

/// Size of the address space of the linear memory.
pub const ADDRESS_SPACE: u64 = 0x1_0000_0000;

/// Number of bytes in a storage key and in a fixed storage word.
pub const WORD: u32 = 32;

/// A key and what is stored under it.
#[verifier::ext_equal]
pub struct Pair {
    pub key: Seq<u8>,
    pub value: Seq<u8>,
}

/// One call that left the contract.
#[verifier::ext_equal]
pub struct CallRecord {
    pub primitive: Primitive,
    /// Address of the callee or recipient; empty for a creation.
    pub target: Seq<u8>,
    /// The payload, or the code and constructor arguments.
    pub input: Seq<u8>,
    /// The value as the host received it.
    pub value: Seq<u8>,
    /// The gas word; empty where the primitive takes none.
    pub gas: Seq<u8>,
    /// The salt of a deterministic creation.
    pub salt: Option<Seq<u8>>,
}

/// The host's answer to a call that left the contract.
#[verifier::ext_equal]
pub struct Reply {
    /// 0 for success.
    pub status: u32,
    /// Data returned by the callee.
    pub data: Seq<u8>,
    /// Address of a created contract.
    pub address: Seq<u8>,
}

/// How an invocation ended.
#[verifier::ext_equal]
pub struct HaltOutcome {
    /// 0 for success, 1 for revert.
    pub status: u32,
    pub data_pointer: u32,
    pub data_length: u32,
    /// The bytes handed back.
    pub data: Seq<u8>,
}

/// The host as generated code sees it.
#[verifier::ext_equal]
pub struct HostState {
    /// Bytes in an address.
    pub address_length: nat,
    /// Fixed storage words, latest write last.
    pub storage: Seq<Pair>,
    /// Variable-length storage values, latest write last.
    pub strings: Seq<Pair>,
    /// Balances by address.
    pub balances: Seq<Pair>,
    /// Block hashes by 8-byte block number.
    pub block_hashes: Seq<Pair>,
    /// Recovered signers by hash, v, r and s, concatenated.
    pub recoveries: Seq<Pair>,
    /// What each context getter writes, by the primitive's index.
    pub context: Seq<Seq<u8>>,
    /// Call data of the invocation.
    pub call_data: Seq<u8>,
    /// Data returned by the last external call.
    pub return_data: Seq<u8>,
    /// Answers to the calls that are still to come, next first.
    pub replies: Seq<Reply>,
    /// The calls that left the contract so far.
    pub calls: Seq<CallRecord>,
    /// The event log.
    pub events: Seq<Seq<u8>>,
    /// What the invocation hands back when it halts.
    pub returned: HaltOutcome,
}

/// The whole machine.
#[verifier::ext_equal]
pub struct State {
    /// Register contents; an empty entry is an unbound register.
    pub regs: Seq<Seq<u8>>,
    /// The linear memory.
    pub mem: Seq<u8>,
    /// Addresses of the module-level data.
    pub globals: Seq<nat>,
    /// What the ABI codec writes for each job.
    pub encodings: Seq<Seq<u8>>,
    /// What the ABI codec makes of the data it is given to decode, for
    /// each job: the decoded values in order, or `None` where the data is
    /// too short or malformed.
    pub decodings: Seq<Option<Seq<Seq<u8>>>>,
    pub host: HostState,
}

/// What one instruction does.
pub enum Step {
    /// Execution goes on with the next instruction.
    Next(State),
    /// Execution goes on behind the given number of instructions.
    Skip(State, nat),
    /// The invocation ended.
    Halt(State, HaltOutcome),
    /// Control passed to the body of a contract function.
    Enter(State, usize),
    /// The instruction has no meaning in this state.
    Trap,
}

/// What a run of code comes to.
pub enum Outcome {
    /// Control reached the end of the code.
    Completed(State),
    /// The invocation ended.
    Halted(State, HaltOutcome),
    /// Control passed to the body of a contract function.
    Entered(State, usize),
    /// An instruction had no meaning.
    Trapped,
}

/// What a host primitive or a helper does.
pub enum Effect {
    /// The call returned, with a result where the callee has one.
    Done(State, Option<Seq<u8>>),
    /// The invocation ended.
    Halt(State, HaltOutcome),
    Trap,
}

/// A revert that hands back nothing.
pub open spec fn reverted() -> HaltOutcome {
    HaltOutcome { status: 1, data_pointer: 0, data_length: 0, data: Seq::empty() }
}

/// The host after the invocation named `h` as what it hands back.
pub open spec fn returning(host: HostState, h: HaltOutcome) -> HostState {
    HostState { returned: HaltOutcome { status: 0, ..h }, ..host }
}

/// The value stored last under `key`.
pub open spec fn lookup(table: Seq<Pair>, key: Seq<u8>) -> Option<Seq<u8>>
    decreases table.len(),
{
    if table.len() == 0 {
        None
    } else if table.last().key == key {
        Some(table.last().value)
    } else {
        lookup(table.drop_last(), key)
    }
}

/// The value stored last under `key`, or `default`.
pub open spec fn lookup_or(table: Seq<Pair>, key: Seq<u8>, default: Seq<u8>) -> Seq<u8> {
    match lookup(table, key) {
        Some(v) => v,
        None => default,
    }
}

/// A width in bits that is a whole number of bytes between 1 and 32.
pub open spec fn valid_width(bits: u32) -> bool {
    bits % 8 == 0 && 8 <= bits <= 256
}

/// The context getters: each writes one datum of the invocation or the
/// block to the buffer it is given.
pub open spec fn is_getter(p: Primitive) -> bool {
    match p {
        Primitive::GetMsgValue
        | Primitive::GetAddress
        | Primitive::GetSender
        | Primitive::GetGasLeft
        | Primitive::GetTxGasPrice
        | Primitive::GetTxOrigin
        | Primitive::GetBlockNumber
        | Primitive::GetBlockGasLimit
        | Primitive::GetBlockDifficulty
        | Primitive::GetBlockCoinbaseAddress
        | Primitive::GetBlockTimestamp
        | Primitive::GetChainId => true,
        _ => false,
    }
}

/// The digest that a hashing primitive computes.
pub open spec fn digest_of(p: Primitive, input: Seq<u8>) -> Seq<u8> {
    match p {
        Primitive::CryptoKeccak256 => keccak256_digest(input),
        Primitive::CryptoRipemd160 => ripemd160_digest(input),
        _ => sha256_digest(input),
    }
}

impl HostState {
    /// The answer to the next call: the first pending reply, or success with
    /// no data and a zero address where none is pending.
    pub open spec fn next_reply(self) -> Reply {
        if self.replies.len() > 0 {
            self.replies[0]
        } else {
            Reply { status: 0, data: Seq::empty(), address: zeros(self.address_length) }
        }
    }

    /// The host after it has taken `call` and answered it.
    pub open spec fn answered(self, call: CallRecord) -> HostState {
        HostState {
            calls: self.calls.push(call),
            return_data: self.next_reply().data,
            replies: if self.replies.len() > 0 {
                self.replies.skip(1)
            } else {
                self.replies
            },
            ..self
        }
    }
}

impl State {
    /// What register `r` holds.
    pub open spec fn reg(self, r: usize) -> Option<Seq<u8>> {
        if r < self.regs.len() && self.regs[r as int].len() > 0 {
            Some(self.regs[r as int])
        } else {
            None
        }
    }

    /// The state with register `r` bound to `v`.
    pub open spec fn bind(self, r: usize, v: Seq<u8>) -> State {
        State {
            regs: if r < self.regs.len() {
                self.regs.update(r as int, v)
            } else {
                self.regs + Seq::new((r - self.regs.len()) as nat, |i: int| Seq::<u8>::empty())
                    + seq![v]
            },
            ..self
        }
    }

    /// The state with the registers from `first + k` on bound to the values
    /// from index `k` on, in order.
    pub open spec fn bind_all(self, first: usize, values: Seq<Seq<u8>>, k: nat) -> State
        decreases values.len() - k,
    {
        if k >= values.len() {
            self
        } else {
            self.bind((first + k) as usize, values[k as int]).bind_all(first, values, k + 1)
        }
    }

    /// The value of an operand.
    pub open spec fn eval(self, op: Operand) -> Option<Seq<u8>> {
        match op {
            Operand::Reg(r) => self.reg(r),
            Operand::Const { bits, value } => if valid_width(bits) {
                Some(le_bytes(value as nat, (bits / 8) as nat))
            } else {
                None
            },
            Operand::Null => Some(zeros(4)),
            Operand::Global(g) => if g < self.globals.len() && self.globals[g as int]
                < ADDRESS_SPACE {
                Some(le_bytes(self.globals[g as int], 4))
            } else {
                None
            },
        }
    }

    /// The value of an operand that is a 32-bit word.
    pub open spec fn eval_word(self, op: Operand) -> Option<nat> {
        match self.eval(op) {
            Some(b) => word_of(b),
            None => None,
        }
    }

    /// The `n` bytes that the pointer `ptr` points to.
    pub open spec fn read_at(self, ptr: Operand, n: nat) -> Option<Seq<u8>> {
        match self.eval_word(ptr) {
            Some(p) => read_range(self.mem, p, n),
            None => None,
        }
    }

    /// The state with `data` written where `ptr` points to.
    pub open spec fn write_at(self, ptr: Operand, data: Seq<u8>) -> Option<State> {
        match self.eval_word(ptr) {
            Some(p) => match write_range(self.mem, p, data) {
                Some(mem) => Some(State { mem, ..self }),
                None => None,
            },
            None => None,
        }
    }

    /// Whether `n` more bytes fit into the address space.
    pub open spec fn has_room(self, n: nat) -> bool {
        self.mem.len() + n < ADDRESS_SPACE
    }

    /// The state with `n` fresh bytes at the end of the memory. Their
    /// contents are filler: code must not rely on them.
    pub open spec fn grown(self, n: nat) -> State {
        State { mem: self.mem + filler(n), ..self }
    }

    /// The state with another host.
    pub open spec fn with_host(self, host: HostState) -> State {
        State { host, ..self }
    }

    /// What a runtime helper does.
    #[verifier::opaque]
    pub open spec fn helper(self, h: Helper, a: Seq<Operand>) -> Effect {
        match h {
            Helper::InitHeap => if a.len() == 0 {
                Effect::Done(self, None)
            } else {
                Effect::Trap
            },
            Helper::Malloc => if a.len() == 1 && self.eval_word(a[0]).is_some() && self.has_room(
                self.eval_word(a[0]).unwrap(),
            ) {
                Effect::Done(
                    self.grown(self.eval_word(a[0]).unwrap()),
                    Some(le_bytes(self.mem.len(), 4)),
                )
            } else {
                Effect::Trap
            },
            Helper::Memcpy => if a.len() == 3 && self.eval_word(a[2]).is_some() && self.read_at(
                a[1],
                self.eval_word(a[2]).unwrap(),
            ).is_some() {
                match self.write_at(a[0], self.read_at(a[1], self.eval_word(a[2]).unwrap()).unwrap()) {
                    Some(s) => Effect::Done(s, None),
                    None => Effect::Trap,
                }
            } else {
                Effect::Trap
            },
            Helper::Bzero8 => if a.len() == 2 && self.eval_word(a[1]).is_some() {
                match self.write_at(a[0], zeros(8 * self.eval_word(a[1]).unwrap())) {
                    Some(s) => Effect::Done(s, None),
                    None => Effect::Trap,
                }
            } else {
                Effect::Trap
            },
            Helper::Be32ToLeN => if a.len() == 3 && self.eval_word(a[2]).is_some() && 1
                <= self.eval_word(a[2]).unwrap() <= 32 && self.read_at(a[0], 32).is_some() {
                match self.write_at(
                    a[1],
                    self.read_at(a[0], 32).unwrap().reverse().subrange(
                        0,
                        self.eval_word(a[2]).unwrap() as int,
                    ),
                ) {
                    Some(s) => Effect::Done(s, None),
                    None => Effect::Trap,
                }
            } else {
                Effect::Trap
            },
            Helper::BeNToLeN => if a.len() == 3 && self.eval_word(a[2]).is_some() && self.read_at(
                a[0],
                self.eval_word(a[2]).unwrap(),
            ).is_some() {
                match self.write_at(
                    a[1],
                    self.read_at(a[0], self.eval_word(a[2]).unwrap()).unwrap().reverse(),
                ) {
                    Some(s) => Effect::Done(s, None),
                    None => Effect::Trap,
                }
            } else {
                Effect::Trap
            },
        }
    }

    /// A lookup primitive: reads a key of `key_len` bytes at the first
    /// pointer and writes what `table` holds for it, or `default`, to the
    /// second.
    pub open spec fn host_lookup(
        self,
        a: Seq<Operand>,
        table: Seq<Pair>,
        key_len: nat,
        default: Seq<u8>,
    ) -> Effect {
        if a.len() == 2 && self.read_at(a[0], key_len).is_some() {
            match self.write_at(a[1], lookup_or(table, self.read_at(a[0], key_len).unwrap(), default)) {
                Some(s) => Effect::Done(s, None),
                None => Effect::Trap,
            }
        } else {
            Effect::Trap
        }
    }

    /// A call that leaves the contract: the host records it and answers with
    /// a status.
    pub open spec fn host_leave(self, call: CallRecord) -> Effect {
        Effect::Done(
            self.with_host(self.host.answered(call)),
            Some(le_bytes(self.host.next_reply().status as nat, 4)),
        )
    }

    /// A creation: as a call that leaves the contract, and the host writes
    /// the new address to `result`.
    pub open spec fn host_create(self, call: CallRecord, result: Operand) -> Effect {
        match self.write_at(result, self.host.next_reply().address) {
            Some(s) => s.host_leave(call),
            None => Effect::Trap,
        }
    }

    /// What a host primitive does.
    #[verifier::opaque]
    pub open spec fn host_call(self, p: Primitive, a: Seq<Operand>) -> Effect {
        let h = self.host;
        if a.len() != p.params_of().len() {
            Effect::Trap
        } else if is_getter(p) {
            if p.index_of() < h.context.len() {
                match self.write_at(a[0], h.context[p.index_of() as int]) {
                    Some(s) => Effect::Done(s, None),
                    None => Effect::Trap,
                }
            } else {
                Effect::Trap
            }
        } else {
            match p {
                Primitive::SaveStorage => if self.read_at(a[0], WORD as nat).is_some()
                    && self.read_at(a[1], WORD as nat).is_some() {
                    Effect::Done(
                        self.with_host(
                            HostState {
                                storage: h.storage.push(
                                    Pair {
                                        key: self.read_at(a[0], WORD as nat).unwrap(),
                                        value: self.read_at(a[1], WORD as nat).unwrap(),
                                    },
                                ),
                                ..h
                            },
                        ),
                        None,
                    )
                } else {
                    Effect::Trap
                },
                Primitive::LoadStorage => self.host_lookup(
                    a,
                    h.storage,
                    WORD as nat,
                    zeros(WORD as nat),
                ),
                Primitive::SaveStorageString => if self.eval_word(a[2]).is_some() && self.read_at(
                    a[0],
                    WORD as nat,
                ).is_some() && self.read_at(a[1], self.eval_word(a[2]).unwrap()).is_some() {
                    Effect::Done(
                        self.with_host(
                            HostState {
                                strings: h.strings.push(
                                    Pair {
                                        key: self.read_at(a[0], WORD as nat).unwrap(),
                                        value: self.read_at(
                                            a[1],
                                            self.eval_word(a[2]).unwrap(),
                                        ).unwrap(),
                                    },
                                ),
                                ..h
                            },
                        ),
                        None,
                    )
                } else {
                    Effect::Trap
                },
                Primitive::LoadStorageString => self.host_lookup(
                    a,
                    h.strings,
                    WORD as nat,
                    Seq::empty(),
                ),
                Primitive::GetStorageStringSize => if self.read_at(a[0], WORD as nat).is_some()
                    && lookup_or(
                    h.strings,
                    self.read_at(a[0], WORD as nat).unwrap(),
                    Seq::empty(),
                ).len() < ADDRESS_SPACE {
                    Effect::Done(
                        self,
                        Some(
                            le_bytes(
                                lookup_or(
                                    h.strings,
                                    self.read_at(a[0], WORD as nat).unwrap(),
                                    Seq::empty(),
                                ).len(),
                                4,
                            ),
                        ),
                    )
                } else {
                    Effect::Trap
                },
                Primitive::GetCallSize => if h.call_data.len() < ADDRESS_SPACE {
                    Effect::Done(self, Some(le_bytes(h.call_data.len(), 4)))
                } else {
                    Effect::Trap
                },
                Primitive::GetReturnSize => if h.return_data.len() < ADDRESS_SPACE {
                    Effect::Done(self, Some(le_bytes(h.return_data.len(), 4)))
                } else {
                    Effect::Trap
                },
                Primitive::CopyCallValue => if self.eval_word(a[0]).is_some() && self.eval_word(
                    a[1],
                ).is_some() && self.eval_word(a[0]).unwrap() <= self.eval_word(a[1]).unwrap()
                    <= h.call_data.len() {
                    match self.write_at(
                        a[2],
                        h.call_data.subrange(
                            self.eval_word(a[0]).unwrap() as int,
                            self.eval_word(a[1]).unwrap() as int,
                        ),
                    ) {
                        Some(s) => Effect::Done(s, None),
                        None => Effect::Trap,
                    }
                } else {
                    Effect::Trap
                },
                Primitive::CopyReturnValue => if self.eval_word(a[1]).is_some() && self.eval_word(
                    a[2],
                ).is_some() && self.eval_word(a[1]).unwrap() + self.eval_word(a[2]).unwrap()
                    <= h.return_data.len() {
                    match self.write_at(
                        a[0],
                        h.return_data.subrange(
                            self.eval_word(a[1]).unwrap() as int,
                            (self.eval_word(a[1]).unwrap() + self.eval_word(a[2]).unwrap()) as int,
                        ),
                    ) {
                        Some(s) => Effect::Done(s, None),
                        None => Effect::Trap,
                    }
                } else {
                    Effect::Trap
                },
                Primitive::InvokeContract
                | Primitive::InvokeStaticContract
                | Primitive::InvokeDelegateContract => if self.eval_word(a[1]).is_some()
                    && self.read_at(a[0], h.address_length).is_some() && self.read_at(
                    a[2],
                    self.eval_word(a[1]).unwrap(),
                ).is_some() && self.read_at(a[3], WORD as nat).is_some() && self.read_at(
                    a[4],
                    8,
                ).is_some() {
                    self.host_leave(
                        CallRecord {
                            primitive: p,
                            target: self.read_at(a[0], h.address_length).unwrap(),
                            input: self.read_at(a[2], self.eval_word(a[1]).unwrap()).unwrap(),
                            value: self.read_at(a[3], WORD as nat).unwrap(),
                            gas: self.read_at(a[4], 8).unwrap(),
                            salt: None,
                        },
                    )
                } else {
                    Effect::Trap
                },
                Primitive::Transfer => if self.read_at(a[0], h.address_length).is_some()
                    && self.read_at(a[1], WORD as nat).is_some() {
                    self.host_leave(
                        CallRecord {
                            primitive: p,
                            target: self.read_at(a[0], h.address_length).unwrap(),
                            input: Seq::empty(),
                            value: self.read_at(a[1], WORD as nat).unwrap(),
                            gas: Seq::empty(),
                            salt: None,
                        },
                    )
                } else {
                    Effect::Trap
                },
                Primitive::GetExternalBalance => self.host_lookup(
                    a,
                    h.balances,
                    h.address_length,
                    zeros(WORD as nat),
                ),
                Primitive::GetBlockHash => self.host_lookup(
                    a,
                    h.block_hashes,
                    8,
                    zeros(WORD as nat),
                ),
                Primitive::Create => if self.eval_word(a[2]).is_some() && self.read_at(
                    a[0],
                    WORD as nat,
                ).is_some() && self.read_at(a[1], self.eval_word(a[2]).unwrap()).is_some() {
                    self.host_create(
                        CallRecord {
                            primitive: p,
                            target: Seq::empty(),
                            input: self.read_at(a[1], self.eval_word(a[2]).unwrap()).unwrap(),
                            value: self.read_at(a[0], WORD as nat).unwrap(),
                            gas: Seq::empty(),
                            salt: None,
                        },
                        a[3],
                    )
                } else {
                    Effect::Trap
                },
                Primitive::Create2 => if self.eval_word(a[2]).is_some() && self.read_at(
                    a[0],
                    WORD as nat,
                ).is_some() && self.read_at(a[1], self.eval_word(a[2]).unwrap()).is_some()
                    && self.read_at(a[3], WORD as nat).is_some() {
                    self.host_create(
                        CallRecord {
                            primitive: p,
                            target: Seq::empty(),
                            input: self.read_at(a[1], self.eval_word(a[2]).unwrap()).unwrap(),
                            value: self.read_at(a[0], WORD as nat).unwrap(),
                            gas: Seq::empty(),
                            salt: Some(self.read_at(a[3], WORD as nat).unwrap()),
                        },
                        a[4],
                    )
                } else {
                    Effect::Trap
                },
                Primitive::WriteLog => if self.eval_word(a[1]).is_some() && self.read_at(
                    a[0],
                    self.eval_word(a[1]).unwrap(),
                ).is_some() {
                    Effect::Done(
                        self.with_host(
                            HostState {
                                events: h.events.push(
                                    self.read_at(a[0], self.eval_word(a[1]).unwrap()).unwrap(),
                                ),
                                ..h
                            },
                        ),
                        None,
                    )
                } else {
                    Effect::Trap
                },
                Primitive::PrintMem => if self.eval_word(a[1]).is_some() && self.read_at(
                    a[0],
                    self.eval_word(a[1]).unwrap(),
                ).is_some() {
                    Effect::Done(self, None)
                } else {
                    Effect::Trap
                },
                Primitive::SetReturn => if self.eval_word(a[0]).is_some() && self.eval_word(
                    a[1],
                ).is_some() && self.read_at(a[0], self.eval_word(a[1]).unwrap()).is_some() {
                    Effect::Done(
                        self.with_host(
                            HostState {
                                returned: HaltOutcome {
                                    status: 0,
                                    data_pointer: self.eval_word(a[0]).unwrap() as u32,
                                    data_length: self.eval_word(a[1]).unwrap() as u32,
                                    data: self.read_at(a[0], self.eval_word(a[1]).unwrap()).unwrap(),
                                },
                                ..h
                            },
                        ),
                        None,
                    )
                } else {
                    Effect::Trap
                },
                Primitive::CryptoKeccak256
                | Primitive::CryptoRipemd160
                | Primitive::CryptoSha256 => if self.eval_word(a[1]).is_some() && self.read_at(
                    a[0],
                    self.eval_word(a[1]).unwrap(),
                ).is_some() {
                    match self.write_at(
                        a[2],
                        digest_of(p, self.read_at(a[0], self.eval_word(a[1]).unwrap()).unwrap()),
                    ) {
                        Some(s) => Effect::Done(s, None),
                        None => Effect::Trap,
                    }
                } else {
                    Effect::Trap
                },
                Primitive::CryptoRecover => if self.read_at(a[0], WORD as nat).is_some()
                    && self.eval(a[1]).is_some() && self.eval(a[1]).unwrap().len() == 1
                    && self.read_at(a[2], WORD as nat).is_some() && self.read_at(
                    a[3],
                    WORD as nat,
                ).is_some() {
                    match self.write_at(
                        a[4],
                        lookup_or(
                            h.recoveries,
                            self.read_at(a[0], WORD as nat).unwrap() + self.eval(a[1]).unwrap()
                                + self.read_at(a[2], WORD as nat).unwrap() + self.read_at(
                                a[3],
                                WORD as nat,
                            ).unwrap(),
                            zeros(h.address_length),
                        ),
                    ) {
                        Some(s) => Effect::Done(s, None),
                        None => Effect::Trap,
                    }
                } else {
                    Effect::Trap
                },
                Primitive::SystemHalt => match self.eval_word(a[0]) {
                    Some(code) => Effect::Halt(
                        self,
                        HaltOutcome { status: code as u32, ..h.returned },
                    ),
                    None => Effect::Trap,
                },
                Primitive::SelfDestruct => match self.read_at(a[0], h.address_length) {
                    Some(target) => Effect::Halt(
                        self.with_host(
                            HostState {
                                calls: h.calls.push(
                                    CallRecord {
                                        primitive: p,
                                        target,
                                        input: Seq::empty(),
                                        value: Seq::empty(),
                                        gas: Seq::empty(),
                                        salt: None,
                                    },
                                ),
                                ..h
                            },
                        ),
                        HaltOutcome { status: 0, ..h.returned },
                    ),
                    None => Effect::Trap,
                },
                _ => Effect::Trap,
            }
        }
    }

    /// A call instruction: the callee's effect, with its result bound to the
    /// result register. A result register on a callee that returns nothing
    /// has no meaning.
    #[verifier::opaque]
    pub open spec fn call(self, result: Option<usize>, callee: Callee, args: Args) -> Step {
        let effect = match callee {
            Callee::Host(p) => self.host_call(p, args.list()),
            Callee::Runtime(h) => self.helper(h, args.list()),
        };
        match effect {
            Effect::Done(s, value) => match (result, value) {
                (Some(r), Some(v)) => Step::Next(s.bind(r, v)),
                (Some(r), None) => Step::Trap,
                (None, _) => Step::Next(s),
            },
            Effect::Halt(s, h) => Step::Halt(s, h),
            Effect::Trap => Step::Trap,
        }
    }

    /// What one instruction does.
    #[verifier::opaque]
    pub open spec fn step(self, instr: Instr) -> Step {
        match instr {
            Instr::Alloca { dst, bytes } => if bytes >= 1 && self.has_room(bytes as nat) {
                Step::Next(self.grown(bytes as nat).bind(dst, le_bytes(self.mem.len(), 4)))
            } else {
                Step::Trap
            },
            Instr::Load { dst, ptr, bytes } => if 1 <= bytes <= WORD {
                match self.read_at(ptr, bytes as nat) {
                    Some(v) => Step::Next(self.bind(dst, v)),
                    None => Step::Trap,
                }
            } else {
                Step::Trap
            },
            Instr::Store { ptr, value } => match self.eval(value) {
                Some(v) => match self.write_at(ptr, v) {
                    Some(s) => Step::Next(s),
                    None => Step::Trap,
                },
                None => Step::Trap,
            },
            Instr::Offset { dst, base, delta } => match (
                self.eval_word(base),
                self.eval_word(delta),
            ) {
                (Some(b), Some(d)) => Step::Next(
                    self.bind(dst, le_bytes((b + d) % (ADDRESS_SPACE as nat), 4)),
                ),
                _ => Step::Trap,
            },
            Instr::Arith { dst, op, lhs, rhs } => match (self.eval_word(lhs), self.eval_word(rhs)) {
                (Some(a), Some(b)) => Step::Next(
                    self.bind(
                        dst,
                        le_bytes(
                            match op {
                                ArithOp::Add => (a + b) % (ADDRESS_SPACE as nat),
                                ArithOp::Sub => ((a + ADDRESS_SPACE - b) % (
                                ADDRESS_SPACE as int)) as nat,
                            },
                            4,
                        ),
                    ),
                ),
                _ => Step::Trap,
            },
            Instr::Compare { dst, pred, lhs, rhs } => match (self.eval(lhs), self.eval(rhs)) {
                (Some(a), Some(b)) => if a.len() != b.len() {
                    Step::Trap
                } else {
                    match pred {
                        Predicate::Eq => Step::Next(self.bind(dst, truth(a == b))),
                        Predicate::Ne => Step::Next(self.bind(dst, truth(a != b))),
                        Predicate::Uge => match (word_of(a), word_of(b)) {
                            (Some(x), Some(y)) => Step::Next(self.bind(dst, truth(x >= y))),
                            _ => Step::Trap,
                        },
                    }
                },
                _ => Step::Trap,
            },
            Instr::Call { result, callee, args } => self.call(result, callee, args),
            Instr::EncodedLength { dst, job } => if job < self.encodings.len()
                && self.encodings[job as int].len() < ADDRESS_SPACE {
                Step::Next(self.bind(dst, le_bytes(self.encodings[job as int].len(), 4)))
            } else {
                Step::Trap
            },
            Instr::Encode { dest, job } => if job < self.encodings.len() {
                match self.write_at(dest, self.encodings[job as int]) {
                    Some(s) => Step::Next(s),
                    None => Step::Trap,
                }
            } else {
                Step::Trap
            },
            Instr::EncodeVector { dst, job } => if job < self.encodings.len() && self.has_room(
                8 + self.encodings[job as int].len(),
            ) {
                Step::Next(
                    State {
                        mem: self.mem + le_bytes(self.encodings[job as int].len(), 4) + le_bytes(
                            self.encodings[job as int].len(),
                            4,
                        ) + self.encodings[job as int],
                        ..self
                    }.bind(dst, le_bytes(self.mem.len(), 4)),
                )
            } else {
                Step::Trap
            },
            Instr::Decode { first, data, len, job } => match self.eval_word(len) {
                Some(n) => if self.read_at(data, n).is_some() && job < self.decodings.len() {
                    match self.decodings[job as int] {
                        None => Step::Halt(
                            self.with_host(returning(self.host, reverted())),
                            reverted(),
                        ),
                        Some(values) => if first + values.len() <= usize::MAX {
                            Step::Next(self.bind_all(first, values, 0))
                        } else {
                            Step::Trap
                        },
                    }
                } else {
                    Step::Trap
                },
                None => Step::Trap,
            },
            Instr::Invoke { function, first, count } => Step::Enter(self, function),
            Instr::SkipIf { cond, count } => match self.eval(cond) {
                Some(c) => if c.len() != 1 {
                    Step::Trap
                } else if c[0] != 0 {
                    Step::Skip(self, count as nat)
                } else {
                    Step::Next(self)
                },
                None => Step::Trap,
            },
            Instr::Unreachable => Step::Trap,
        }
    }
}

/// The one-bit outcome of a comparison, as a byte.
pub open spec fn truth(b: bool) -> Seq<u8> {
    if b {
        seq![1u8]
    } else {
        seq![0u8]
    }
}

/// Runs `code` from instruction `pc` on. A skip that would leave the code
/// has no meaning.
pub open spec fn run(code: Seq<Instr>, pc: nat, s: State) -> Outcome
    decreases code.len() - pc,
{
    if pc >= code.len() {
        Outcome::Completed(s)
    } else {
        match s.step(code[pc as int]) {
            Step::Next(t) => run(code, pc + 1, t),
            Step::Skip(t, n) => if pc + 1 + n <= code.len() {
                run(code, pc + 1 + n, t)
            } else {
                Outcome::Trapped
            },
            Step::Halt(t, h) => Outcome::Halted(t, h),
            Step::Enter(t, f) => Outcome::Entered(t, f),
            Step::Trap => Outcome::Trapped,
        }
    }
}

} // verus!
