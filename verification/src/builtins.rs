//! Hashing, signature recovery, and the builtins that read the context of
//! the invocation. Each goes to one host primitive in the same way: a
//! scratch buffer of the result's width is allocated, the primitive fills
//! it, and the result is loaded from it.

use vstd::prelude::*;
use crate::binary::{Binary, Namespace, VECTOR_HEADER};
use crate::emit::{helper, host, host_to, lowered, malloc, reg, word};
use crate::host::Primitive;
use crate::ir::{Args, ArithOp, CompileError, Feature, Helper, Instr, Operand};
use crate::target::LachainTarget;

verus! {

/// Hash functions of the source language.
#[derive(Clone, Copy, Debug, PartialEq, Eq, Structural)]
pub enum HashTy {
    Keccak256,
    Ripemd160,
    Sha256,
    Blake2_128,
    Blake2_256,
}

/// Builtin expressions, with their arguments already lowered.
#[derive(Clone, Copy, Debug, PartialEq, Eq, Structural)]
pub enum Builtin {
    BlockNumber,
    GasLimit,
    Timestamp,
    ChainId,
    BlockDifficulty,
    BlockCoinbase,
    Gasleft,
    Sender,
    Value,
    Origin,
    Gasprice,
    GetAddress,
    /// Hash of the block with the given 64-bit number.
    BlockHash(Operand),
    /// Balance of the account with the given address.
    Balance(Operand),
    /// Signer of a hash: hash, v, r, s.
    Ecrecover(Operand, Operand, Operand, Operand),
    /// Builtins that other targets lower and this one does not.
    MinimumBalance,
    TombstoneDeposit,
    Random(Operand),
}

impl HashTy {
    /// The host primitive and the digest's length in bytes, for the hash
    /// functions that the host offers.
    pub open spec fn lowering_of(self) -> Option<(Primitive, u32)> {
        match self {
            HashTy::Keccak256 => Some((Primitive::CryptoKeccak256, 32u32)),
            HashTy::Ripemd160 => Some((Primitive::CryptoRipemd160, 20u32)),
            HashTy::Sha256 => Some((Primitive::CryptoSha256, 32u32)),
            _ => None,
        }
    }

    pub fn lowering(self) -> (out: Option<(Primitive, u32)>)
        ensures
            out == self.lowering_of(),
    {
        match self {
            HashTy::Keccak256 => Some((Primitive::CryptoKeccak256, 32u32)),
            HashTy::Ripemd160 => Some((Primitive::CryptoRipemd160, 20u32)),
            HashTy::Sha256 => Some((Primitive::CryptoSha256, 32u32)),
            _ => None,
        }
    }
}

impl Builtin {
    /// For a builtin that reads one datum of the context: the getter and
    /// the datum's width in bytes. Block number, timestamp, gas limit, gas
    /// left and chain id are 64 bits wide; sender, origin, coinbase and the
    /// contract's own address have the width of an address; the value sent
    /// and the gas price have the width of a value; the difficulty is 256
    /// bits wide.
    pub open spec fn getter_of(self, ns: Namespace) -> Option<(Primitive, u32)> {
        match self {
            Builtin::BlockNumber => Some((Primitive::GetBlockNumber, 8u32)),
            Builtin::GasLimit => Some((Primitive::GetBlockGasLimit, 8u32)),
            Builtin::Timestamp => Some((Primitive::GetBlockTimestamp, 8u32)),
            Builtin::ChainId => Some((Primitive::GetChainId, 8u32)),
            Builtin::BlockDifficulty => Some((Primitive::GetBlockDifficulty, 32u32)),
            Builtin::BlockCoinbase => Some(
                (Primitive::GetBlockCoinbaseAddress, ns.address_length as u32),
            ),
            Builtin::Gasleft => Some((Primitive::GetGasLeft, 8u32)),
            Builtin::Sender => Some((Primitive::GetSender, ns.address_length as u32)),
            Builtin::Value => Some((Primitive::GetMsgValue, ns.value_length as u32)),
            Builtin::Origin => Some((Primitive::GetTxOrigin, ns.address_length as u32)),
            Builtin::Gasprice => Some((Primitive::GetTxGasPrice, ns.value_length as u32)),
            Builtin::GetAddress => Some((Primitive::GetAddress, ns.address_length as u32)),
            _ => None,
        }
    }

    pub fn getter(self, ns: Namespace) -> (out: Option<(Primitive, u32)>)
        ensures
            out == self.getter_of(ns),
    {
        match self {
            Builtin::BlockNumber => Some((Primitive::GetBlockNumber, 8u32)),
            Builtin::GasLimit => Some((Primitive::GetBlockGasLimit, 8u32)),
            Builtin::Timestamp => Some((Primitive::GetBlockTimestamp, 8u32)),
            Builtin::ChainId => Some((Primitive::GetChainId, 8u32)),
            Builtin::BlockDifficulty => Some((Primitive::GetBlockDifficulty, 32u32)),
            Builtin::BlockCoinbase => Some(
                (Primitive::GetBlockCoinbaseAddress, ns.address_length as u32),
            ),
            Builtin::Gasleft => Some((Primitive::GetGasLeft, 8u32)),
            Builtin::Sender => Some((Primitive::GetSender, ns.address_length as u32)),
            Builtin::Value => Some((Primitive::GetMsgValue, ns.value_length as u32)),
            Builtin::Origin => Some((Primitive::GetTxOrigin, ns.address_length as u32)),
            Builtin::Gasprice => Some((Primitive::GetTxGasPrice, ns.value_length as u32)),
            Builtin::GetAddress => Some((Primitive::GetAddress, ns.address_length as u32)),
            _ => None,
        }
    }

    /// The primitive that the builtin goes to, if the target lowers it.
    pub open spec fn primitive_of(self, ns: Namespace) -> Option<Primitive> {
        match self {
            Builtin::BlockHash(_) => Some(Primitive::GetBlockHash),
            Builtin::Balance(_) => Some(Primitive::GetExternalBalance),
            Builtin::Ecrecover(_, _, _, _) => Some(Primitive::CryptoRecover),
            _ => match self.getter_of(ns) {
                Some((p, _)) => Some(p),
                None => None,
            },
        }
    }

    /// Registers that the lowering binds; the last one takes the result.
    pub open spec fn regs_of(self) -> nat {
        match self {
            Builtin::BlockHash(_) => 3,
            Builtin::Balance(_) => 3,
            Builtin::Ecrecover(_, _, _, _) => 5,
            _ => 2,
        }
    }
}

/// Reads one datum of `bytes` bytes through the getter `p` into register
/// `r + 1`.
pub open spec fn single_value_code(p: Primitive, bytes: u32, r: usize) -> Seq<Instr> {
    seq![
        Instr::Alloca { dst: r, bytes },
        host(p, Args::One(reg(r, 0))),
        Instr::Load { dst: (r + 1) as usize, ptr: reg(r, 0), bytes },
    ]
}

/// The code of a builtin that the target lowers. An extra input is staged
/// in a scratch buffer of its own before the call. The recovered signer of
/// `Ecrecover` is loaded as the host wrote it: addresses are never
/// reversed.
pub open spec fn builtin_code(expr: Builtin, ns: Namespace, r: usize) -> Seq<Instr> {
    let a = ns.address_length as u32;
    let v = ns.value_length as u32;
    match expr {
        Builtin::BlockHash(number) => seq![
            Instr::Alloca { dst: r, bytes: 8 },
            Instr::Store { ptr: reg(r, 0), value: number },
            Instr::Alloca { dst: (r + 1) as usize, bytes: 32 },
            host(Primitive::GetBlockHash, Args::Two(reg(r, 0), reg(r, 1))),
            Instr::Load { dst: (r + 2) as usize, ptr: reg(r, 1), bytes: 32 },
        ],
        Builtin::Balance(address) => seq![
            Instr::Alloca { dst: r, bytes: a },
            Instr::Store { ptr: reg(r, 0), value: address },
            Instr::Alloca { dst: (r + 1) as usize, bytes: v },
            host(Primitive::GetExternalBalance, Args::Two(reg(r, 0), reg(r, 1))),
            Instr::Load { dst: (r + 2) as usize, ptr: reg(r, 1), bytes: v },
        ],
        Builtin::Ecrecover(hash, rec, sig_r, sig_s) => seq![
            Instr::Alloca { dst: r, bytes: v },
            Instr::Store { ptr: reg(r, 0), value: hash },
            Instr::Alloca { dst: (r + 1) as usize, bytes: v },
            Instr::Store { ptr: reg(r, 1), value: sig_r },
            Instr::Alloca { dst: (r + 2) as usize, bytes: v },
            Instr::Store { ptr: reg(r, 2), value: sig_s },
            Instr::Alloca { dst: (r + 3) as usize, bytes: a },
            host(
                Primitive::CryptoRecover,
                Args::Five(reg(r, 0), rec, reg(r, 1), reg(r, 2), reg(r, 3)),
            ),
            Instr::Load { dst: (r + 4) as usize, ptr: reg(r, 3), bytes: a },
        ],
        _ => match expr.getter_of(ns) {
            Some((p, bytes)) => single_value_code(p, bytes, r),
            None => Seq::empty(),
        },
    }
}

/// Why lowering a builtin fails, if it does.
pub open spec fn builtin_refusal(b: Binary, expr: Builtin, ns: Namespace) -> Option<CompileError> {
    match expr.primitive_of(ns) {
        Some(p) => b.refusal(seq![p], expr.regs_of()),
        None => Some(CompileError::Unsupported(Feature::Builtin)),
    }
}

/// Hashes `input_len` bytes at `input` and reverses the digest, which the
/// host writes big-endian, into the byte order in which the program keeps
/// fixed-size byte strings. Register `r + 2` takes the result.
pub open spec fn hash_code(p: Primitive, n: u32, input: Operand, input_len: Operand, r: usize) -> Seq<
    Instr,
> {
    seq![
        Instr::Alloca { dst: r, bytes: n },
        host(p, Args::Three(input, input_len, reg(r, 0))),
        Instr::Alloca { dst: (r + 1) as usize, bytes: n },
        helper(Helper::BeNToLeN, Args::Three(reg(r, 0), reg(r, 1), word(n))),
        Instr::Load { dst: (r + 2) as usize, ptr: reg(r, 1), bytes: n },
    ]
}

/// Why lowering a hash fails, if it does.
pub open spec fn hash_refusal(b: Binary, hash: HashTy) -> Option<CompileError> {
    match hash.lowering_of() {
        Some((p, _)) => b.refusal(seq![p], 3),
        None => Some(CompileError::Unsupported(Feature::Hash)),
    }
}

/// The code of a hash that the host offers.
pub open spec fn hash_code_of(hash: HashTy, input: Operand, input_len: Operand, r: usize) -> Seq<
    Instr,
> {
    match hash.lowering_of() {
        Some((p, n)) => hash_code(p, n, input, input_len, r),
        None => Seq::empty(),
    }
}

/// Copies the data that the last external call returned into a fresh
/// length-prefixed buffer, to which register `r + 2` points.
pub open spec fn return_data_code(r: usize) -> Seq<Instr> {
    seq![
        host_to(r, Primitive::GetReturnSize, Args::Empty),
        Instr::Arith {
            dst: (r + 1) as usize,
            op: ArithOp::Add,
            lhs: reg(r, 0),
            rhs: word(VECTOR_HEADER),
        },
        malloc((r + 2) as usize, reg(r, 1)),
        Instr::Store { ptr: reg(r, 2), value: reg(r, 0) },
        Instr::Offset { dst: (r + 3) as usize, base: reg(r, 2), delta: word(4) },
        Instr::Store { ptr: reg(r, 3), value: reg(r, 0) },
        Instr::Offset { dst: (r + 4) as usize, base: reg(r, 2), delta: word(VECTOR_HEADER) },
        host(Primitive::CopyReturnValue, Args::Three(reg(r, 4), word(0), reg(r, 0))),
    ]
}

/// Stages `addr` in a scratch buffer and lets the host destroy the
/// contract in its favour.
pub open spec fn selfdestruct_code(addr: Operand, ns: Namespace, r: usize) -> Seq<Instr> {
    seq![
        Instr::Alloca { dst: r, bytes: ns.address_length as u32 },
        Instr::Store { ptr: reg(r, 0), value: addr },
        host(Primitive::SelfDestruct, Args::One(reg(r, 0))),
    ]
}

/// The code that reads one datum through a getter, as instructions.
pub(crate) fn single_value_instrs(p: Primitive, bytes: u32, r: usize) -> (out: Vec<Instr>)
    requires
        r + 1 <= usize::MAX,
    ensures
        out@ == single_value_code(p, bytes, r),
{
    let out = vec![
        Instr::Alloca { dst: r, bytes },
        host(p, Args::One(reg(r, 0))),
        Instr::Load { dst: r + 1, ptr: reg(r, 0), bytes },
    ];
    assert(out@ =~= single_value_code(p, bytes, r));
    out
}

impl LachainTarget {
    /// Keccak-256 of `length` bytes at `src`, written to `dest` as the host
    /// computes it.
    pub fn keccak256_hash(
        &self,
        binary: &mut Binary,
        src: Operand,
        length: Operand,
        dest: Operand,
    ) -> (out: Result<(), CompileError>)
        ensures
            lowered(
                out,
                *old(binary),
                *final(binary),
                old(binary).refusal(seq![Primitive::CryptoKeccak256], 0),
                (),
                seq![host(Primitive::CryptoKeccak256, Args::Three(src, length, dest))],
                0,
            ),
    {
        let ghost before = *binary;
        let needs = vec![Primitive::CryptoKeccak256];
        assert(needs@ =~= seq![Primitive::CryptoKeccak256]);
        match binary.begin(needs, 0) {
            Err(e) => Err(e),
            Ok(_) => {
                let code = vec![host(Primitive::CryptoKeccak256, Args::Three(src, length, dest))];
                assert(code@ =~= seq![
                    host(Primitive::CryptoKeccak256, Args::Three(src, length, dest)),
                ]);
                binary.finish(code, Ghost(before), Ghost(0));
                Ok(())
            },
        }
    }

    /// Debug output of `string_len` bytes at `string_ptr`.
    pub fn print(&self, binary: &mut Binary, string_ptr: Operand, string_len: Operand) -> (out:
        Result<(), CompileError>)
        ensures
            lowered(
                out,
                *old(binary),
                *final(binary),
                old(binary).refusal(seq![Primitive::PrintMem], 0),
                (),
                seq![host(Primitive::PrintMem, Args::Two(string_ptr, string_len))],
                0,
            ),
    {
        let ghost before = *binary;
        let needs = vec![Primitive::PrintMem];
        assert(needs@ =~= seq![Primitive::PrintMem]);
        match binary.begin(needs, 0) {
            Err(e) => Err(e),
            Ok(_) => {
                let code = vec![host(Primitive::PrintMem, Args::Two(string_ptr, string_len))];
                assert(code@ =~= seq![
                    host(Primitive::PrintMem, Args::Two(string_ptr, string_len)),
                ]);
                binary.finish(code, Ghost(before), Ghost(0));
                Ok(())
            },
        }
    }

    /// The data that the last external call returned, as a fresh
    /// length-prefixed buffer. Answers the pointer to the buffer.
    pub fn return_data(&self, binary: &mut Binary) -> (out: Result<Operand, CompileError>)
        ensures
            lowered(
                out,
                *old(binary),
                *final(binary),
                old(binary).refusal(
                    seq![Primitive::GetReturnSize, Primitive::CopyReturnValue],
                    5,
                ),
                reg(old(binary).next_reg, 2),
                return_data_code(old(binary).next_reg),
                5,
            ),
    {
        let ghost before = *binary;
        let needs = vec![Primitive::GetReturnSize, Primitive::CopyReturnValue];
        assert(needs@ =~= seq![Primitive::GetReturnSize, Primitive::CopyReturnValue]);
        match binary.begin(needs, 5) {
            Err(e) => Err(e),
            Ok(r) => {
                let code = vec![
                    host_to(r, Primitive::GetReturnSize, Args::Empty),
                    Instr::Arith {
                        dst: r + 1,
                        op: ArithOp::Add,
                        lhs: reg(r, 0),
                        rhs: word(VECTOR_HEADER),
                    },
                    malloc(r + 2, reg(r, 1)),
                    Instr::Store { ptr: reg(r, 2), value: reg(r, 0) },
                    Instr::Offset { dst: r + 3, base: reg(r, 2), delta: word(4) },
                    Instr::Store { ptr: reg(r, 3), value: reg(r, 0) },
                    Instr::Offset { dst: r + 4, base: reg(r, 2), delta: word(VECTOR_HEADER) },
                    host(Primitive::CopyReturnValue, Args::Three(reg(r, 4), word(0), reg(r, 0))),
                ];
                assert(code@ =~= return_data_code(r));
                binary.finish(code, Ghost(before), Ghost(5));
                Ok(reg(r, 2))
            },
        }
    }

    /// The value sent along with the invocation. Answers the register that
    /// holds it.
    pub fn value_transferred(&self, binary: &mut Binary, ns: Namespace) -> (out: Result<
        Operand,
        CompileError,
    >)
        ensures
            lowered(
                out,
                *old(binary),
                *final(binary),
                old(binary).refusal(seq![Primitive::GetMsgValue], 2),
                reg(old(binary).next_reg, 1),
                single_value_code(
                    Primitive::GetMsgValue,
                    ns.value_length as u32,
                    old(binary).next_reg,
                ),
                2,
            ),
    {
        let ghost before = *binary;
        let needs = vec![Primitive::GetMsgValue];
        assert(needs@ =~= seq![Primitive::GetMsgValue]);
        match binary.begin(needs, 2) {
            Err(e) => Err(e),
            Ok(r) => {
                let code = single_value_instrs(Primitive::GetMsgValue, ns.value_length as u32, r);
                binary.finish(code, Ghost(before), Ghost(2));
                Ok(reg(r, 1))
            },
        }
    }

    /// Ends the invocation, destroys the contract and sends what it holds
    /// to `addr`.
    pub fn selfdestruct(&self, binary: &mut Binary, addr: Operand, ns: Namespace) -> (out: Result<
        (),
        CompileError,
    >)
        ensures
            lowered(
                out,
                *old(binary),
                *final(binary),
                old(binary).refusal(seq![Primitive::SelfDestruct], 1),
                (),
                selfdestruct_code(addr, ns, old(binary).next_reg),
                1,
            ),
    {
        let ghost before = *binary;
        let needs = vec![Primitive::SelfDestruct];
        assert(needs@ =~= seq![Primitive::SelfDestruct]);
        match binary.begin(needs, 1) {
            Err(e) => Err(e),
            Ok(r) => {
                let code = vec![
                    Instr::Alloca { dst: r, bytes: ns.address_length as u32 },
                    Instr::Store { ptr: reg(r, 0), value: addr },
                    host(Primitive::SelfDestruct, Args::One(reg(r, 0))),
                ];
                assert(code@ =~= selfdestruct_code(addr, ns, r));
                binary.finish(code, Ghost(before), Ghost(1));
                Ok(())
            },
        }
    }

    /// Hashes `input_len` bytes at `input`. Answers the register that holds
    /// the digest, reversed into the program's byte order.
    pub fn hash(
        &self,
        binary: &mut Binary,
        hash: HashTy,
        input: Operand,
        input_len: Operand,
    ) -> (out: Result<Operand, CompileError>)
        ensures
            lowered(
                out,
                *old(binary),
                *final(binary),
                hash_refusal(*old(binary), hash),
                reg(old(binary).next_reg, 2),
                hash_code_of(hash, input, input_len, old(binary).next_reg),
                3,
            ),
    {
        let ghost before = *binary;
        let (p, n) = match hash.lowering() {
            Some(found) => found,
            None => {
                return Err(CompileError::Unsupported(Feature::Hash));
            },
        };
        let needs = vec![p];
        assert(needs@ =~= seq![p]);
        match binary.begin(needs, 3) {
            Err(e) => Err(e),
            Ok(r) => {
                let code = vec![
                    Instr::Alloca { dst: r, bytes: n },
                    host(p, Args::Three(input, input_len, reg(r, 0))),
                    Instr::Alloca { dst: r + 1, bytes: n },
                    helper(Helper::BeNToLeN, Args::Three(reg(r, 0), reg(r, 1), word(n))),
                    Instr::Load { dst: r + 2, ptr: reg(r, 1), bytes: n },
                ];
                assert(code@ =~= hash_code(p, n, input, input_len, r));
                binary.finish(code, Ghost(before), Ghost(3));
                Ok(reg(r, 2))
            },
        }
    }

    /// Writes `data_len` bytes at `data` to the event log. The host keeps
    /// no topics, so `topics` goes unused.
    pub fn send_event(
        &self,
        binary: &mut Binary,
        event_no: usize,
        data: Operand,
        data_len: Operand,
        topics: &Vec<(Operand, Operand)>,
    ) -> (out: Result<(), CompileError>)
        ensures
            lowered(
                out,
                *old(binary),
                *final(binary),
                old(binary).refusal(seq![Primitive::WriteLog], 0),
                (),
                seq![host(Primitive::WriteLog, Args::Two(data, data_len))],
                0,
            ),
    {
        let ghost before = *binary;
        let needs = vec![Primitive::WriteLog];
        assert(needs@ =~= seq![Primitive::WriteLog]);
        match binary.begin(needs, 0) {
            Err(e) => Err(e),
            Ok(_) => {
                let code = vec![host(Primitive::WriteLog, Args::Two(data, data_len))];
                assert(code@ =~= seq![host(Primitive::WriteLog, Args::Two(data, data_len))]);
                binary.finish(code, Ghost(before), Ghost(0));
                Ok(())
            },
        }
    }

    /// Lowers a builtin expression. Answers the register that holds its
    /// value.
    pub fn builtin(&self, binary: &mut Binary, expr: Builtin, ns: Namespace) -> (out: Result<
        Operand,
        CompileError,
    >)
        ensures
            lowered(
                out,
                *old(binary),
                *final(binary),
                builtin_refusal(*old(binary), expr, ns),
                reg(old(binary).next_reg, (expr.regs_of() - 1) as usize),
                builtin_code(expr, ns, old(binary).next_reg),
                expr.regs_of(),
            ),
    {
        let ghost before = *binary;
        let a: u32 = ns.address_length as u32;
        let v: u32 = ns.value_length as u32;
        match expr {
            Builtin::BlockHash(number) => {
                let needs = vec![Primitive::GetBlockHash];
                assert(needs@ =~= seq![Primitive::GetBlockHash]);
                match binary.begin(needs, 3) {
                    Err(e) => Err(e),
                    Ok(r) => {
                        let code = vec![
                            Instr::Alloca { dst: r, bytes: 8 },
                            Instr::Store { ptr: reg(r, 0), value: number },
                            Instr::Alloca { dst: r + 1, bytes: 32 },
                            host(Primitive::GetBlockHash, Args::Two(reg(r, 0), reg(r, 1))),
                            Instr::Load { dst: r + 2, ptr: reg(r, 1), bytes: 32 },
                        ];
                        assert(code@ =~= builtin_code(expr, ns, r));
                        binary.finish(code, Ghost(before), Ghost(3));
                        Ok(reg(r, 2))
                    },
                }
            },
            Builtin::Balance(address) => {
                let needs = vec![Primitive::GetExternalBalance];
                assert(needs@ =~= seq![Primitive::GetExternalBalance]);
                match binary.begin(needs, 3) {
                    Err(e) => Err(e),
                    Ok(r) => {
                        let code = vec![
                            Instr::Alloca { dst: r, bytes: a },
                            Instr::Store { ptr: reg(r, 0), value: address },
                            Instr::Alloca { dst: r + 1, bytes: v },
                            host(Primitive::GetExternalBalance, Args::Two(reg(r, 0), reg(r, 1))),
                            Instr::Load { dst: r + 2, ptr: reg(r, 1), bytes: v },
                        ];
                        assert(code@ =~= builtin_code(expr, ns, r));
                        binary.finish(code, Ghost(before), Ghost(3));
                        Ok(reg(r, 2))
                    },
                }
            },
            Builtin::Ecrecover(hash, rec, sig_r, sig_s) => {
                let needs = vec![Primitive::CryptoRecover];
                assert(needs@ =~= seq![Primitive::CryptoRecover]);
                match binary.begin(needs, 5) {
                    Err(e) => Err(e),
                    Ok(r) => {
                        let code = vec![
                            Instr::Alloca { dst: r, bytes: v },
                            Instr::Store { ptr: reg(r, 0), value: hash },
                            Instr::Alloca { dst: r + 1, bytes: v },
                            Instr::Store { ptr: reg(r, 1), value: sig_r },
                            Instr::Alloca { dst: r + 2, bytes: v },
                            Instr::Store { ptr: reg(r, 2), value: sig_s },
                            Instr::Alloca { dst: r + 3, bytes: a },
                            host(
                                Primitive::CryptoRecover,
                                Args::Five(reg(r, 0), rec, reg(r, 1), reg(r, 2), reg(r, 3)),
                            ),
                            Instr::Load { dst: r + 4, ptr: reg(r, 3), bytes: a },
                        ];
                        assert(code@ =~= builtin_code(expr, ns, r));
                        binary.finish(code, Ghost(before), Ghost(5));
                        Ok(reg(r, 4))
                    },
                }
            },
            _ => {
                match expr.getter(ns) {
                    None => Err(CompileError::Unsupported(Feature::Builtin)),
                    Some((p, bytes)) => {
                        let needs = vec![p];
                        assert(needs@ =~= seq![p]);
                        match binary.begin(needs, 2) {
                            Err(e) => Err(e),
                            Ok(r) => {
                                let code = single_value_instrs(p, bytes, r);
                                binary.finish(code, Ghost(before), Ghost(2));
                                Ok(reg(r, 1))
                            },
                        }
                    },
                }
            },
        }
    }
}

} // verus!
