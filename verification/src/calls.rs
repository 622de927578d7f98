//! Calls that leave the contract: external calls, value transfer and
//! contract creation. All three hand the host a value, and all three end in
//! the same choice: report the host's status in a flag, or revert on failure.
//!
//! Values are 256-bit words that the program keeps big-endian, and the host
//! wants them little-endian. So each value is stored to a scratch word,
//! converted into a second scratch word, and the pointer to the second one
//! is what the host gets.

use vstd::prelude::*;
use crate::binary::{Binary, Namespace};
use crate::codec::encode_code;
use crate::emit::{helper, host_to, lowered, reg, word, zero};
use crate::halt::{bail_code, halt_instrs, halt_needs, STATUS_REVERT};
use crate::host::Primitive;
use crate::ir::{AbiType, Args, CompileError, Helper, Instr, JobSpec, Operand, Predicate};
use crate::target::LachainTarget;

verus! {

/// The three kinds of external call.
#[derive(Clone, Copy, Debug, PartialEq, Eq, Structural)]
pub enum CallTy {
    Regular,
    /// The callee may not change state.
    Static,
    /// The callee's code runs on the caller's state.
    Delegate,
}

/// The parameters of one external call, bundled. An envelope is built at
/// the call site and used up by the call.
#[derive(Debug, PartialEq, Eq)]
pub struct CallEnvelope {
    /// Pointer to the address of the callee.
    pub target: Operand,
    /// Pointer to the payload.
    pub payload: Operand,
    /// Length of the payload.
    pub payload_len: Operand,
    /// The value to send, 256 bits wide.
    pub value: Operand,
    /// The gas to hand on, 64 bits wide.
    pub gas: Operand,
    pub kind: CallTy,
}

impl CallTy {
    /// The host primitive for this kind of call.
    pub open spec fn primitive_of(self) -> Primitive {
        match self {
            CallTy::Regular => Primitive::InvokeContract,
            CallTy::Static => Primitive::InvokeStaticContract,
            CallTy::Delegate => Primitive::InvokeDelegateContract,
        }
    }

    /// The host primitive for this kind of call.
    pub fn primitive(self) -> (out: Primitive)
        ensures
            out == self.primitive_of(),
    {
        match self {
            CallTy::Regular => Primitive::InvokeContract,
            CallTy::Static => Primitive::InvokeStaticContract,
            CallTy::Delegate => Primitive::InvokeDelegateContract,
        }
    }
}

/// Stages `value`: stores it to the scratch word of register `r`, and
/// converts it into the scratch word of register `r + 1`, which is the one
/// for the host.
pub open spec fn value_le_code(value: Operand, ns: Namespace, r: usize) -> Seq<Instr> {
    seq![
        Instr::Alloca { dst: r, bytes: ns.value_length as u32 },
        Instr::Store { ptr: reg(r, 0), value },
        Instr::Alloca { dst: (r + 1) as usize, bytes: ns.value_length as u32 },
        helper(Helper::Be32ToLeN, Args::Three(reg(r, 0), reg(r, 1), word(ns.value_length as u32))),
    ]
}

/// Tests the host's status: register `flag` takes whether it is 0. Where no
/// flag was asked for, a status other than 0 reverts with no data.
pub open spec fn status_code(status: Operand, flag: usize, want_success: bool) -> Seq<Instr> {
    let test = seq![Instr::Compare { dst: flag, pred: Predicate::Eq, lhs: status, rhs: word(0) }];
    if want_success {
        test
    } else {
        test + seq![Instr::SkipIf { cond: Operand::Reg(flag), count: 3 }] + bail_code()
    }
}

/// The primitives that a call through `p` needs: `p` itself and, where
/// failure reverts, those of termination.
pub open spec fn leave_needs(p: Primitive, want_success: bool) -> Seq<Primitive> {
    if want_success {
        seq![p]
    } else {
        seq![p] + halt_needs()
    }
}

/// The flag that a call answers: the register of the status test where one
/// was asked for.
pub open spec fn flag_value(want_success: bool, flag: Operand) -> Option<Operand> {
    if want_success {
        Some(flag)
    } else {
        None
    }
}

/// An external call of kind `callty`.
pub open spec fn external_call_code(
    want_success: bool,
    payload: Operand,
    payload_len: Operand,
    address: Operand,
    gas: Operand,
    value: Operand,
    callty: CallTy,
    ns: Namespace,
    r: usize,
) -> Seq<Instr> {
    value_le_code(value, ns, r) + seq![
        Instr::Alloca { dst: (r + 2) as usize, bytes: 8 },
        Instr::Store { ptr: reg(r, 2), value: gas },
        host_to(
            (r + 3) as usize,
            callty.primitive_of(),
            Args::Five(address, payload_len, payload, reg(r, 1), reg(r, 2)),
        ),
    ] + status_code(reg(r, 3), (r + 4) as usize, want_success)
}

/// A transfer of `value` to `address`.
pub open spec fn value_transfer_code(
    want_success: bool,
    address: Operand,
    value: Operand,
    ns: Namespace,
    r: usize,
) -> Seq<Instr> {
    value_le_code(value, ns, r) + seq![
        host_to((r + 2) as usize, Primitive::Transfer, Args::Two(address, reg(r, 1))),
    ] + status_code(reg(r, 2), (r + 3) as usize, want_success)
}

/// The value that a creation sends: the one given, or zero.
pub open spec fn creation_value(value: Option<Operand>, ns: Namespace) -> Operand {
    match value {
        Some(v) => v,
        None => zero(ns.value_length as u32),
    }
}

/// The call of the creation primitive. With a salt, the salt is staged in
/// the scratch word of register `r + 6` and the salted primitive is called;
/// without one, the plain primitive is called, and no salt is passed.
pub open spec fn creation_call_code(
    address: Operand,
    salt: Option<Operand>,
    ns: Namespace,
    r: usize,
) -> Seq<Instr> {
    match salt {
        Some(s) => seq![
            Instr::Alloca { dst: (r + 6) as usize, bytes: ns.value_length as u32 },
            Instr::Store { ptr: reg(r, 6), value: s },
            host_to(
                (r + 7) as usize,
                Primitive::Create2,
                Args::Five(reg(r, 5), reg(r, 2), reg(r, 1), reg(r, 6), address),
            ),
        ],
        None => seq![
            host_to(
                (r + 6) as usize,
                Primitive::Create,
                Args::Four(reg(r, 5), reg(r, 2), reg(r, 1), address),
            ),
        ],
    }
}

/// Registers that a creation binds.
pub open spec fn creation_regs(salt: Option<Operand>) -> nat {
    if salt.is_some() {
        9
    } else {
        8
    }
}

/// The creation primitive: the salted one where there is a salt.
pub open spec fn creation_primitive(salt: Option<Operand>) -> Primitive {
    if salt.is_some() {
        Primitive::Create2
    } else {
        Primitive::Create
    }
}

/// A contract creation: the code blob `blob` of `len` bytes and the encoded
/// constructor arguments of job `job` go into one buffer, the value is
/// staged, and the creation primitive is called.
pub open spec fn create_contract_code(
    want_success: bool,
    blob: usize,
    len: u64,
    job: usize,
    address: Operand,
    value: Option<Operand>,
    salt: Option<Operand>,
    ns: Namespace,
    r: usize,
) -> Seq<Instr> {
    encode_code(Some((Operand::Global(blob), len)), job, r) + value_le_code(
        creation_value(value, ns),
        ns,
        (r + 4) as usize,
    ) + creation_call_code(address, salt, ns, r) + status_code(
        reg(r, (creation_regs(salt) - 2) as usize),
        (r + creation_regs(salt) - 1) as usize,
        want_success,
    )
}

/// Why a creation fails, if it does.
pub open spec fn create_contract_refusal(
    b: Binary,
    want_success: bool,
    len: nat,
    salt: Option<Operand>,
) -> Option<CompileError> {
    if len > u32::MAX {
        Some(CompileError::BlobTooLarge)
    } else {
        b.refusal(leave_needs(creation_primitive(salt), want_success), creation_regs(salt))
    }
}

/// The staging of a value as instructions.
fn value_le_instrs(value: Operand, ns: Namespace, r: usize) -> (out: Vec<Instr>)
    requires
        r + 1 <= usize::MAX,
    ensures
        out@ == value_le_code(value, ns, r),
{
    let n: u32 = ns.value_length as u32;
    let out = vec![
        Instr::Alloca { dst: r, bytes: n },
        Instr::Store { ptr: reg(r, 0), value },
        Instr::Alloca { dst: r + 1, bytes: n },
        helper(Helper::Be32ToLeN, Args::Three(reg(r, 0), reg(r, 1), word(n))),
    ];
    assert(out@ =~= value_le_code(value, ns, r));
    out
}

/// The status test as instructions, appended to `code`.
fn push_status(code: &mut Vec<Instr>, status: Operand, flag: usize, want_success: bool)
    ensures
        final(code)@ == old(code)@ + status_code(status, flag, want_success),
{
    code.push(Instr::Compare { dst: flag, pred: Predicate::Eq, lhs: status, rhs: word(0) });
    if !want_success {
        code.push(Instr::SkipIf { cond: Operand::Reg(flag), count: 3 });
        let mut bail = halt_instrs(STATUS_REVERT, Operand::Null, word(0));
        code.append(&mut bail);
    }
    assert(code@ =~= old(code)@ + status_code(status, flag, want_success));
}

/// The primitives that a call through `p` needs.
fn leave_primitives(p: Primitive, want_success: bool) -> (out: Vec<Primitive>)
    ensures
        out@ == leave_needs(p, want_success),
{
    let out = if want_success {
        vec![p]
    } else {
        vec![p, Primitive::SetReturn, Primitive::SystemHalt]
    };
    assert(out@ =~= leave_needs(p, want_success));
    out
}

impl LachainTarget {
    /// Deploys a contract. `code` is its deployable blob, `tys` and `args`
    /// are the constructor's parameter types and arguments, and `address`
    /// points to where the host writes the new address. With
    /// `want_success`, the answer is the flag that tells whether the host
    /// reported success; without, failure reverts the invocation.
    pub fn create_contract(
        &self,
        binary: &mut Binary,
        want_success: bool,
        code: &Vec<u8>,
        tys: &Vec<AbiType>,
        address: Operand,
        args: &Vec<Operand>,
        value: Option<Operand>,
        salt: Option<Operand>,
        ns: Namespace,
    ) -> (out: Result<Option<Operand>, CompileError>)
        ensures
            old(binary).wf() ==> final(binary).wf(),
            match create_contract_refusal(*old(binary), want_success, code@.len(), salt) {
                Some(e) => out == Err::<Option<Operand>, CompileError>(e) && *final(binary) == *old(
                    binary,
                ),
                None => {
                    &&& out == Ok::<Option<Operand>, CompileError>(
                        flag_value(
                            want_success,
                            reg(old(binary).next_reg, (creation_regs(salt) - 1) as usize),
                        ),
                    )
                    &&& final(binary).code@ == old(binary).code@ + create_contract_code(
                        want_success,
                        old(binary).globals@.len() as usize,
                        code@.len() as u64,
                        old(binary).jobs@.len() as usize,
                        address,
                        value,
                        salt,
                        ns,
                        old(binary).next_reg,
                    )
                    &&& final(binary).next_reg == old(binary).next_reg + creation_regs(salt)
                    &&& final(binary).grows(*old(binary))
                    &&& final(binary).adds_global(*old(binary), code@)
                    &&& final(binary).adds_job(
                        *old(binary),
                        JobSpec {
                            load: false,
                            bswap: false,
                            packed: Seq::empty(),
                            args: args@,
                            tys: tys@,
                        },
                    )
                },
            },
    {
        let ghost before = *binary;
        if code.len() > u32::MAX as usize {
            return Err(CompileError::BlobTooLarge);
        }
        let len: u64 = code.len() as u64;
        let (primitive, regs): (Primitive, usize) = match salt {
            Some(_) => (Primitive::Create2, 9),
            None => (Primitive::Create, 8),
        };
        let needs = leave_primitives(primitive, want_success);
        match binary.check(&needs, regs) {
            Err(e) => {
                return Err(e);
            },
            Ok(()) => {},
        }
        let r = binary.next_reg;
        let blob = binary.add_global(code.clone());
        let ghost with_blob = *binary;
        let packed: Vec<Operand> = Vec::new();
        let constant = Some((Operand::Global(blob), len));
        proof {
            assert(binary.refusal(Seq::empty(), 4) is None);
        }
        match self.encode(binary, constant, false, &packed, args, tys) {
            Err(e) => {
                assert(false);
                return Err(e);
            },
            Ok(_) => {},
        }
        let ghost encoded = *binary;
        match binary.take_regs(regs - 4) {
            Err(e) => {
                assert(false);
                return Err(e);
            },
            Ok(_) => {},
        }
        let sent = match value {
            Some(v) => v,
            None => zero(ns.value_length as u32),
        };
        let mut rest = value_le_instrs(sent, ns, r + 4);
        match salt {
            Some(s) => {
                rest.push(Instr::Alloca { dst: r + 6, bytes: ns.value_length as u32 });
                rest.push(Instr::Store { ptr: reg(r, 6), value: s });
                rest.push(
                    host_to(
                        r + 7,
                        Primitive::Create2,
                        Args::Five(reg(r, 5), reg(r, 2), reg(r, 1), reg(r, 6), address),
                    ),
                );
            },
            None => {
                rest.push(
                    host_to(
                        r + 6,
                        Primitive::Create,
                        Args::Four(reg(r, 5), reg(r, 2), reg(r, 1), address),
                    ),
                );
            },
        }
        assert(rest@ =~= value_le_code(creation_value(value, ns), ns, (r + 4) as usize)
            + creation_call_code(address, salt, ns, r));
        push_status(&mut rest, reg(r, regs - 2), r + regs - 1, want_success);
        binary.append(rest);
        assert(binary.code@ =~= before.code@ + create_contract_code(
            want_success,
            blob,
            len,
            before.jobs@.len() as usize,
            address,
            value,
            salt,
            ns,
            r,
        ));
        if want_success {
            Ok(Some(reg(r, regs - 1)))
        } else {
            Ok(None)
        }
    }

    /// Calls another contract: `payload_len` bytes at `payload` go to the
    /// contract at `address`, with `gas` and `value`. With `want_success`,
    /// the answer is the flag that tells whether the host reported success;
    /// without, failure reverts the invocation.
    pub fn external_call(
        &self,
        binary: &mut Binary,
        want_success: bool,
        payload: Operand,
        payload_len: Operand,
        address: Operand,
        gas: Operand,
        value: Operand,
        callty: CallTy,
        ns: Namespace,
    ) -> (out: Result<Option<Operand>, CompileError>)
        ensures
            lowered(
                out,
                *old(binary),
                *final(binary),
                old(binary).refusal(leave_needs(callty.primitive_of(), want_success), 5),
                flag_value(want_success, reg(old(binary).next_reg, 4)),
                external_call_code(
                    want_success,
                    payload,
                    payload_len,
                    address,
                    gas,
                    value,
                    callty,
                    ns,
                    old(binary).next_reg,
                ),
                5,
            ),
    {
        let ghost before = *binary;
        let needs = leave_primitives(callty.primitive(), want_success);
        match binary.begin(needs, 5) {
            Err(e) => Err(e),
            Ok(r) => {
                let mut code = value_le_instrs(value, ns, r);
                code.push(Instr::Alloca { dst: r + 2, bytes: 8 });
                code.push(Instr::Store { ptr: reg(r, 2), value: gas });
                code.push(
                    host_to(
                        r + 3,
                        callty.primitive(),
                        Args::Five(address, payload_len, payload, reg(r, 1), reg(r, 2)),
                    ),
                );
                push_status(&mut code, reg(r, 3), r + 4, want_success);
                assert(code@ =~= external_call_code(
                    want_success,
                    payload,
                    payload_len,
                    address,
                    gas,
                    value,
                    callty,
                    ns,
                    r,
                ));
                binary.finish(code, Ghost(before), Ghost(5));
                if want_success {
                    Ok(Some(reg(r, 4)))
                } else {
                    Ok(None)
                }
            },
        }
    }

    /// Calls another contract with the parameters of `envelope`.
    pub fn call(
        &self,
        binary: &mut Binary,
        want_success: bool,
        envelope: CallEnvelope,
        ns: Namespace,
    ) -> (out: Result<Option<Operand>, CompileError>)
        ensures
            lowered(
                out,
                *old(binary),
                *final(binary),
                old(binary).refusal(leave_needs(envelope.kind.primitive_of(), want_success), 5),
                flag_value(want_success, reg(old(binary).next_reg, 4)),
                external_call_code(
                    want_success,
                    envelope.payload,
                    envelope.payload_len,
                    envelope.target,
                    envelope.gas,
                    envelope.value,
                    envelope.kind,
                    ns,
                    old(binary).next_reg,
                ),
                5,
            ),
    {
        self.external_call(
            binary,
            want_success,
            envelope.payload,
            envelope.payload_len,
            envelope.target,
            envelope.gas,
            envelope.value,
            envelope.kind,
            ns,
        )
    }

    /// Sends `value` to `address`. With `want_success`, the answer is the
    /// flag that tells whether the host reported success; without, failure
    /// reverts the invocation.
    pub fn value_transfer(
        &self,
        binary: &mut Binary,
        want_success: bool,
        address: Operand,
        value: Operand,
        ns: Namespace,
    ) -> (out: Result<Option<Operand>, CompileError>)
        ensures
            lowered(
                out,
                *old(binary),
                *final(binary),
                old(binary).refusal(leave_needs(Primitive::Transfer, want_success), 4),
                flag_value(want_success, reg(old(binary).next_reg, 3)),
                value_transfer_code(want_success, address, value, ns, old(binary).next_reg),
                4,
            ),
    {
        let ghost before = *binary;
        let needs = leave_primitives(Primitive::Transfer, want_success);
        match binary.begin(needs, 4) {
            Err(e) => Err(e),
            Ok(r) => {
                let mut code = value_le_instrs(value, ns, r);
                code.push(host_to(r + 2, Primitive::Transfer, Args::Two(address, reg(r, 1))));
                push_status(&mut code, reg(r, 2), r + 3, want_success);
                assert(code@ =~= value_transfer_code(want_success, address, value, ns, r));
                binary.finish(code, Ghost(before), Ghost(4));
                if want_success {
                    Ok(Some(reg(r, 3)))
                } else {
                    Ok(None)
                }
            },
        }
    }
}

} // verus!
