//! The adapter in front of the ABI codec. The codec itself is not part of
//! this crate: the adapter describes the work as a job, and emits the code
//! that sizes and allocates the buffer around it.

use vstd::prelude::*;
use crate::binary::Binary;
use crate::emit::{helper, malloc, reg, word};
use crate::ir::{AbiType, Args, ArithOp, CodecJob, CompileError, Helper, Instr, JobSpec, Operand};
use crate::target::LachainTarget;

verus! {

/// Encodes job `job` into one buffer of exactly the needed size, behind a
/// copy of the constant prefix if there is one. The registers from `r` on
/// take the lengths and pointers.
pub open spec fn encode_code(constant: Option<(Operand, u64)>, job: usize, r: usize) -> Seq<Instr> {
    match constant {
        None => seq![
            Instr::EncodedLength { dst: r, job },
            malloc((r + 1) as usize, reg(r, 0)),
            Instr::Encode { dest: reg(r, 1), job },
        ],
        Some((blob, len)) => seq![
            Instr::EncodedLength { dst: r, job },
            Instr::Arith {
                dst: (r + 1) as usize,
                op: ArithOp::Add,
                lhs: reg(r, 0),
                rhs: word(len as u32),
            },
            malloc((r + 2) as usize, reg(r, 1)),
            helper(Helper::Memcpy, Args::Three(reg(r, 2), blob, word(len as u32))),
            Instr::Offset { dst: (r + 3) as usize, base: reg(r, 2), delta: word(len as u32) },
            Instr::Encode { dest: reg(r, 3), job },
        ],
    }
}

/// Registers that `encode_code` binds.
pub open spec fn encode_regs(constant: Option<(Operand, u64)>) -> nat {
    if constant.is_some() {
        4
    } else {
        2
    }
}

/// The buffer and its length after `encode_code`.
pub open spec fn encode_value(constant: Option<(Operand, u64)>, r: usize) -> (Operand, Operand) {
    if constant.is_some() {
        (reg(r, 2), reg(r, 1))
    } else {
        (reg(r, 1), reg(r, 0))
    }
}

/// Why encoding fails, if it does: the constant prefix is too long for a
/// 32-bit length, or the registers run out.
pub open spec fn encode_refusal(b: Binary, constant: Option<(Operand, u64)>) -> Option<
    CompileError,
> {
    if constant.is_some() && constant.unwrap().1 > u32::MAX {
        Some(CompileError::BlobTooLarge)
    } else {
        b.refusal(Seq::empty(), encode_regs(constant))
    }
}

/// The job of encoding a call: the selector, if there is one, goes first as
/// a packed 32-bit number, and the arguments follow as a tuple.
pub open spec fn call_job(
    selector: Option<Operand>,
    load: bool,
    args: Seq<Operand>,
    tys: Seq<AbiType>,
) -> JobSpec {
    match selector {
        Some(s) => JobSpec {
            load,
            bswap: false,
            packed: seq![s],
            args,
            tys: seq![AbiType::Uint(32)] + tys,
        },
        None => JobSpec { load, bswap: false, packed: Seq::empty(), args, tys },
    }
}

/// The contract of a lowering that hands one job to the codec.
pub open spec fn lowered_with_job<T>(
    out: Result<T, CompileError>,
    before: Binary,
    after: Binary,
    refusal: Option<CompileError>,
    value: T,
    code: Seq<Instr>,
    regs: nat,
    job: JobSpec,
) -> bool {
    match refusal {
        Some(e) => out == Err::<T, CompileError>(e) && after == before,
        None => {
            &&& out == Ok::<T, CompileError>(value)
            &&& after.code@ == before.code@ + code
            &&& after.next_reg == before.next_reg + regs
            &&& after.grows(before)
            &&& after.globals@ == before.globals@
            &&& after.adds_job(before, job)
        },
    }
}

/// A copy of a list of operands.
pub(crate) fn copy_operands(list: &Vec<Operand>) -> (out: Vec<Operand>)
    ensures
        out@ == list@,
{
    let mut out: Vec<Operand> = Vec::new();
    let mut i: usize = 0;
    while i < list.len()
        invariant
            i <= list@.len(),
            out@ =~= list@.subrange(0, i as int),
        decreases list@.len() - i,
    {
        out.push(list[i]);
        i += 1;
    }
    assert(list@.subrange(0, list@.len() as int) =~= list@);
    out
}

/// A copy of a list of types behind `head`.
pub(crate) fn copy_types(head: Vec<AbiType>, list: &Vec<AbiType>) -> (out: Vec<AbiType>)
    ensures
        out@ == head@ + list@,
{
    let mut out = head;
    let mut i: usize = 0;
    while i < list.len()
        invariant
            i <= list@.len(),
            out@ =~= head@ + list@.subrange(0, i as int),
        decreases list@.len() - i,
    {
        out.push(list[i]);
        i += 1;
    }
    assert(list@.subrange(0, list@.len() as int) =~= list@);
    out
}

impl LachainTarget {
    /// Encodes `packed` and `args` as the types `tys` into one fresh buffer:
    /// the total length is computed first, the constant prefix included,
    /// then one buffer of exactly that length is allocated, the prefix is
    /// copied to its start and the codec writes behind it. Answers the
    /// buffer and its length.
    pub fn encode(
        &self,
        binary: &mut Binary,
        constant: Option<(Operand, u64)>,
        load: bool,
        packed: &Vec<Operand>,
        args: &Vec<Operand>,
        tys: &Vec<AbiType>,
    ) -> (out: Result<(Operand, Operand), CompileError>)
        ensures
            lowered_with_job(
                out,
                *old(binary),
                *final(binary),
                encode_refusal(*old(binary), constant),
                encode_value(constant, old(binary).next_reg),
                encode_code(constant, old(binary).jobs@.len() as usize, old(binary).next_reg),
                encode_regs(constant),
                JobSpec { load, bswap: false, packed: packed@, args: args@, tys: tys@ },
            ),
    {
        let ghost before = *binary;
        let regs: usize = match constant {
            Some((_, len)) => {
                if len > u32::MAX as u64 {
                    return Err(CompileError::BlobTooLarge);
                }
                4
            },
            None => 2,
        };
        let r = match binary.begin(Vec::new(), regs) {
            Err(e) => {
                return Err(e);
            },
            Ok(r) => r,
        };
        let ghost begun = *binary;
        let job = binary.add_job(
            CodecJob {
                load,
                bswap: false,
                packed: copy_operands(packed),
                args: copy_operands(args),
                tys: copy_types(Vec::new(), tys),
            },
        );
        assert(Seq::<AbiType>::empty() + tys@ =~= tys@);
        let ghost added = *binary;
        match constant {
            None => {
                let code = vec![
                    Instr::EncodedLength { dst: r, job },
                    malloc(r + 1, reg(r, 0)),
                    Instr::Encode { dest: reg(r, 1), job },
                ];
                assert(code@ =~= encode_code(constant, job, r));
                binary.append(code);
                assert(binary.code@ =~= before.code@ + encode_code(constant, job, r));
                Ok((reg(r, 1), reg(r, 0)))
            },
            Some((blob, len)) => {
                let n: u32 = len as u32;
                let code = vec![
                    Instr::EncodedLength { dst: r, job },
                    Instr::Arith { dst: r + 1, op: ArithOp::Add, lhs: reg(r, 0), rhs: word(n) },
                    malloc(r + 2, reg(r, 1)),
                    helper(Helper::Memcpy, Args::Three(reg(r, 2), blob, word(n))),
                    Instr::Offset { dst: r + 3, base: reg(r, 2), delta: word(n) },
                    Instr::Encode { dest: reg(r, 3), job },
                ];
                assert(code@ =~= encode_code(constant, job, r));
                binary.append(code);
                assert(binary.code@ =~= before.code@ + encode_code(constant, job, r));
                Ok((reg(r, 2), reg(r, 1)))
            },
        }
    }

    /// Encodes the arguments of a call, behind the selector where there is
    /// one. Answers the buffer and its length.
    pub fn abi_encode(
        &self,
        binary: &mut Binary,
        selector: Option<Operand>,
        load: bool,
        args: &Vec<Operand>,
        tys: &Vec<AbiType>,
    ) -> (out: Result<(Operand, Operand), CompileError>)
        ensures
            lowered_with_job(
                out,
                *old(binary),
                *final(binary),
                encode_refusal(*old(binary), None),
                encode_value(None, old(binary).next_reg),
                encode_code(None, old(binary).jobs@.len() as usize, old(binary).next_reg),
                encode_regs(None),
                call_job(selector, load, args@, tys@),
            ),
    {
        match selector {
            Some(s) => {
                let packed = vec![s];
                let all = copy_types(vec![AbiType::Uint(32)], tys);
                assert(packed@ =~= seq![s]);
                assert(all@ =~= seq![AbiType::Uint(32)] + tys@);
                self.encode(binary, None, load, &packed, args, &all)
            },
            None => {
                let packed: Vec<Operand> = Vec::new();
                assert(packed@ =~= Seq::<Operand>::empty());
                self.encode(binary, None, load, &packed, args, tys)
            },
        }
    }

    /// Encodes `packed` and `args` into a fresh length-prefixed buffer and
    /// answers the register that points to it.
    pub fn abi_encode_to_vector(
        &self,
        binary: &mut Binary,
        packed: &Vec<Operand>,
        args: &Vec<Operand>,
        tys: &Vec<AbiType>,
    ) -> (out: Result<Operand, CompileError>)
        ensures
            lowered_with_job(
                out,
                *old(binary),
                *final(binary),
                old(binary).refusal(Seq::empty(), 1),
                reg(old(binary).next_reg, 0),
                seq![
                    Instr::EncodeVector {
                        dst: old(binary).next_reg,
                        job: old(binary).jobs@.len() as usize,
                    },
                ],
                1,
                JobSpec { load: false, bswap: false, packed: packed@, args: args@, tys: tys@ },
            ),
    {
        let ghost before = *binary;
        let r = match binary.begin(Vec::new(), 1) {
            Err(e) => {
                return Err(e);
            },
            Ok(r) => r,
        };
        let job = binary.add_job(
            CodecJob {
                load: false,
                bswap: false,
                packed: copy_operands(packed),
                args: copy_operands(args),
                tys: copy_types(Vec::new(), tys),
            },
        );
        assert(Seq::<AbiType>::empty() + tys@ =~= tys@);
        let code = vec![Instr::EncodeVector { dst: r, job }];
        binary.append(code);
        assert(binary.code@ =~= before.code@ + seq![Instr::EncodeVector { dst: r, job }]);
        Ok(reg(r, 0))
    }

    /// Decodes `length` bytes at `data` as the types `spec`, with the codec
    /// configuration of the target. Answers one register for each decoded
    /// value, in order. At run time, data that the codec cannot decode
    /// reverts the invocation with no data; nothing behind the decoding
    /// runs then.
    pub fn abi_decode(
        &self,
        binary: &mut Binary,
        data: Operand,
        length: Operand,
        spec: &Vec<AbiType>,
    ) -> (out: Result<Vec<Operand>, CompileError>)
        ensures
            match old(binary).refusal(Seq::empty(), spec@.len()) {
                Some(e) => out == Err::<Vec<Operand>, CompileError>(e) && *final(binary) == *old(
                    binary,
                ),
                None => {
                    &&& out.is_ok()
                    &&& out.unwrap()@ == Seq::new(
                        spec@.len(),
                        |i: int| reg(old(binary).next_reg, i as usize),
                    )
                    &&& final(binary).code@ == old(binary).code@.push(
                        Instr::Decode {
                            first: old(binary).next_reg,
                            data,
                            len: length,
                            job: old(binary).jobs@.len() as usize,
                        },
                    )
                    &&& final(binary).next_reg == old(binary).next_reg + spec@.len()
                    &&& final(binary).grows(*old(binary))
                    &&& final(binary).globals@ == old(binary).globals@
                    &&& final(binary).adds_job(
                        *old(binary),
                        JobSpec {
                            load: false,
                            bswap: self.codec().bswap,
                            packed: Seq::empty(),
                            args: Seq::empty(),
                            tys: spec@,
                        },
                    )
                },
            },
    {
        let ghost before = *binary;
        let count = spec.len();
        let r = match binary.begin(Vec::new(), count) {
            Err(e) => {
                return Err(e);
            },
            Ok(r) => r,
        };
        let job = binary.add_job(
            CodecJob {
                load: false,
                bswap: self.abi().bswap,
                packed: Vec::new(),
                args: Vec::new(),
                tys: copy_types(Vec::new(), spec),
            },
        );
        assert(Seq::<AbiType>::empty() + spec@ =~= spec@);
        binary.append(vec![Instr::Decode { first: r, data, len: length, job }]);
        assert(binary.code@ =~= before.code@.push(
            Instr::Decode { first: r, data, len: length, job },
        ));
        let mut values: Vec<Operand> = Vec::new();
        let mut i: usize = 0;
        while i < count
            invariant
                i <= count,
                r + count <= usize::MAX,
                values@ =~= Seq::new(i as nat, |k: int| reg(r, k as usize)),
            decreases count - i,
        {
            values.push(reg(r, i));
            i += 1;
        }
        Ok(values)
    }
}

} // verus!
