use lachain_backend::binary::{Binary, Namespace, OptLevel};
use lachain_backend::calls::CallTy;
use lachain_backend::exec::{Call, Halt, Host, Machine};
use lachain_backend::host::Primitive;
use lachain_backend::ir::{AbiType, Args, Callee, CompileError, Instr, Operand};
use lachain_backend::runner::End;
use lachain_backend::target::LachainTarget;

const NS: Namespace = Namespace { address_length: 20, value_length: 32 };

fn module() -> (LachainTarget, Binary) {
    let target = LachainTarget::new();
    let mut binary = Binary::new("calls", "calls.sol", OptLevel::Default, false);
    target.declare_externals(&mut binary);
    (target, binary)
}

fn pointer(m: &mut Machine, r: usize, data: &[u8]) {
    let at = m.store(&data.to_vec()).unwrap();
    m.bind(r, at.to_le_bytes().to_vec());
}

fn reverted() -> End {
    End::Halted(Halt { status: 1, data_pointer: 0, data_length: 0, data: Vec::new() })
}

fn value() -> Vec<u8> {
    (1..=32).collect()
}

fn reversed_value() -> Vec<u8> {
    (1..=32).rev().collect()
}

/// Registers 0 to 4: payload, payload length, address, gas, value.
fn call_machine(binary: &Binary, status: Option<u32>) -> Machine {
    let mut host = Host::new(20);
    if let Some(status) = status {
        host.push_reply(status, vec![0xca, 0xfe], Vec::new());
    }
    let mut m = Machine::new(host, &binary.globals, Vec::new(), Vec::new()).unwrap();
    pointer(&mut m, 0, b"payload");
    m.bind(1, 7u32.to_le_bytes().to_vec());
    pointer(&mut m, 2, &[0x42u8; 20]);
    m.bind(3, 100_000u64.to_le_bytes().to_vec());
    m.bind(4, value());
    m
}

fn emit_call(want_success: bool, callty: CallTy) -> (Binary, Option<Operand>) {
    let (target, mut binary) = module();
    binary.next_reg = 5;
    let flag = target
        .external_call(
            &mut binary,
            want_success,
            Operand::Reg(0),
            Operand::Reg(1),
            Operand::Reg(2),
            Operand::Reg(3),
            Operand::Reg(4),
            callty,
            NS,
        )
        .unwrap();
    (binary, flag)
}

fn expected_call(primitive: Primitive) -> Call {
    Call {
        primitive,
        target: vec![0x42u8; 20],
        input: b"payload".to_vec(),
        value: reversed_value(),
        gas: 100_000u64.to_le_bytes().to_vec(),
        salt: None,
    }
}

#[test]
fn successful_call_sets_the_flag_and_continues() {
    let (binary, flag) = emit_call(true, CallTy::Regular);
    let mut m = call_machine(&binary, Some(0));
    assert_eq!(m.run(&binary.code), End::Completed);
    assert_eq!(flag, Some(Operand::Reg(9)));
    assert_eq!(m.reg(9), Some(vec![1]));
    assert_eq!(m.host.calls, vec![expected_call(Primitive::InvokeContract)]);
    assert_eq!(m.host.return_data, vec![0xca, 0xfe]);
}

#[test]
fn failed_call_clears_the_flag_and_continues() {
    let (binary, _) = emit_call(true, CallTy::Regular);
    let mut m = call_machine(&binary, Some(3));
    assert_eq!(m.run(&binary.code), End::Completed);
    assert_eq!(m.reg(9), Some(vec![0]));
    assert_eq!(m.host.calls.len(), 1);
}

#[test]
fn failed_call_without_flag_reverts() {
    let (binary, flag) = emit_call(false, CallTy::Regular);
    assert_eq!(flag, None);
    for status in [1u32, 2, 0xffff_ffff] {
        let mut m = call_machine(&binary, Some(status));
        assert_eq!(m.run(&binary.code), reverted());
        assert_eq!(m.host.calls, vec![expected_call(Primitive::InvokeContract)]);
    }
}

#[test]
fn successful_call_without_flag_continues() {
    let (binary, _) = emit_call(false, CallTy::Regular);
    let mut m = call_machine(&binary, Some(0));
    assert_eq!(m.run(&binary.code), End::Completed);
    let mut m = call_machine(&binary, None);
    assert_eq!(m.run(&binary.code), End::Completed);
}

#[test]
fn call_kind_selects_the_primitive() {
    for (callty, primitive) in [
        (CallTy::Regular, Primitive::InvokeContract),
        (CallTy::Static, Primitive::InvokeStaticContract),
        (CallTy::Delegate, Primitive::InvokeDelegateContract),
    ] {
        assert_eq!(callty.primitive(), primitive);
        let (binary, _) = emit_call(true, callty);
        assert_eq!(
            binary.code[6],
            Instr::Call {
                result: Some(8),
                callee: Callee::Host(primitive),
                args: Args::Five(
                    Operand::Reg(2),
                    Operand::Reg(1),
                    Operand::Reg(0),
                    Operand::Reg(6),
                    Operand::Reg(7)
                ),
            }
        );
        let mut m = call_machine(&binary, Some(0));
        assert_eq!(m.run(&binary.code), End::Completed);
        assert_eq!(m.host.calls, vec![expected_call(primitive)]);
    }
}

#[test]
fn call_without_flag_needs_the_termination_primitives() {
    let target = LachainTarget::new();
    let mut binary = Binary::new("c", "c.sol", OptLevel::Default, false);
    binary.declare(Primitive::InvokeContract);
    let r = Operand::Reg(0);
    assert_eq!(
        target.external_call(&mut binary, false, r, r, r, r, r, CallTy::Regular, NS),
        Err(CompileError::UndeclaredPrimitive(Primitive::SetReturn))
    );
    assert_eq!(
        target.external_call(&mut binary, true, r, r, r, r, r, CallTy::Regular, NS),
        Ok(Some(Operand::Reg(4)))
    );
    assert_eq!(
        target.external_call(&mut binary, true, r, r, r, r, r, CallTy::Static, NS),
        Err(CompileError::UndeclaredPrimitive(Primitive::InvokeStaticContract))
    );
}

fn emit_transfer(want_success: bool) -> (Binary, Option<Operand>) {
    let (target, mut binary) = module();
    binary.next_reg = 5;
    let flag = target
        .value_transfer(&mut binary, want_success, Operand::Reg(2), Operand::Reg(4), NS)
        .unwrap();
    (binary, flag)
}

#[test]
fn transfer_hands_over_the_converted_value() {
    let (binary, flag) = emit_transfer(true);
    let mut m = call_machine(&binary, Some(0));
    assert_eq!(m.run(&binary.code), End::Completed);
    assert_eq!(flag, Some(Operand::Reg(8)));
    assert_eq!(m.reg(8), Some(vec![1]));
    assert_eq!(
        m.host.calls,
        vec![Call {
            primitive: Primitive::Transfer,
            target: vec![0x42u8; 20],
            input: Vec::new(),
            value: reversed_value(),
            gas: Vec::new(),
            salt: None,
        }]
    );
}

#[test]
fn failed_transfer_without_flag_reverts() {
    let (binary, flag) = emit_transfer(false);
    assert_eq!(flag, None);
    let mut m = call_machine(&binary, Some(1));
    assert_eq!(m.run(&binary.code), reverted());
    let mut m = call_machine(&binary, Some(0));
    assert_eq!(m.run(&binary.code), End::Completed);
}

/// Registers 0 to 3: where the address goes, constructor argument, value, salt.
fn create_machine(binary: &Binary, encoded: &[u8], status: u32, address: &[u8]) -> Machine {
    let mut host = Host::new(20);
    host.push_reply(status, Vec::new(), address.to_vec());
    let encodings = vec![encoded.to_vec(); binary.jobs.len()];
    let mut m = Machine::new(host, &binary.globals, encodings, Vec::new()).unwrap();
    pointer(&mut m, 0, &[0u8; 20]);
    m.bind(1, vec![9u8; 32]);
    m.bind(2, value());
    m.bind(3, vec![0x5au8; 32]);
    m
}

fn emit_create(
    binary: &mut Binary,
    want_success: bool,
    value: Option<Operand>,
    salt: Option<Operand>,
) -> Option<Operand> {
    let target = LachainTarget::new();
    target
        .create_contract(
            binary,
            want_success,
            &b"\0asm-code".to_vec(),
            &vec![AbiType::Uint(256)],
            Operand::Reg(0),
            &vec![Operand::Reg(1)],
            value,
            salt,
            NS,
        )
        .unwrap()
}

fn created_address(m: &Machine) -> Vec<u8> {
    let at = u32::from_le_bytes(m.reg(0).unwrap().try_into().unwrap()) as usize;
    m.mem[at..at + 20].to_vec()
}

#[test]
fn create2_is_repeatable() {
    let address = [0x77u8; 20];
    // once at the start of a function
    let (_, mut first) = module();
    first.next_reg = 4;
    let flag = emit_create(&mut first, true, Some(Operand::Reg(2)), Some(Operand::Reg(3)));
    assert_eq!(flag, Some(Operand::Reg(12)));
    let mut m1 = create_machine(&first, b"ARGS", 0, &address);
    assert_eq!(m1.run(&first.code), End::Completed);

    // once behind other code, other module data and other codec work
    let (target, mut second) = module();
    second.next_reg = 40;
    second.add_global(vec![1, 2, 3]);
    target.storage_delete_single_slot(&mut second, Operand::Reg(0)).unwrap();
    target.abi_encode_to_vector(&mut second, &Vec::new(), &Vec::new(), &Vec::new()).unwrap();
    let start = second.code.len();
    emit_create(&mut second, true, Some(Operand::Reg(2)), Some(Operand::Reg(3)));
    let code: Vec<Instr> = second.code[start..].to_vec();
    let mut m2 = create_machine(&second, b"ARGS", 0, &address);
    m2.store(&vec![0u8; 100]).unwrap();
    assert_eq!(m2.run(&code), End::Completed);

    let expected = Call {
        primitive: Primitive::Create2,
        target: Vec::new(),
        input: b"\0asm-codeARGS".to_vec(),
        value: reversed_value(),
        gas: Vec::new(),
        salt: Some(vec![0x5au8; 32]),
    };
    assert_eq!(m1.host.calls, vec![expected.clone()]);
    assert_eq!(m2.host.calls, vec![expected]);
    assert_eq!(created_address(&m1), address.to_vec());
    assert_eq!(created_address(&m2), address.to_vec());
    assert_eq!(m1.reg(12), Some(vec![1]));
}

#[test]
fn plain_create_passes_no_salt() {
    let (_, mut binary) = module();
    binary.next_reg = 4;
    let flag = emit_create(&mut binary, true, Some(Operand::Reg(2)), None);
    assert_eq!(flag, Some(Operand::Reg(11)));
    assert!(binary.code.iter().all(|i| !matches!(
        i,
        Instr::Call { callee: Callee::Host(Primitive::Create2), .. }
    )));
    assert_eq!(
        binary.code[10],
        Instr::Call {
            result: Some(10),
            callee: Callee::Host(Primitive::Create),
            args: Args::Four(Operand::Reg(9), Operand::Reg(6), Operand::Reg(5), Operand::Reg(0)),
        }
    );
    let mut m = create_machine(&binary, b"", 0, &[0x11u8; 20]);
    assert_eq!(m.run(&binary.code), End::Completed);
    assert_eq!(m.host.calls.len(), 1);
    assert_eq!(m.host.calls[0].primitive, Primitive::Create);
    assert_eq!(m.host.calls[0].salt, None);
    assert_eq!(m.host.calls[0].input, b"\0asm-code".to_vec());
    assert_eq!(created_address(&m), vec![0x11u8; 20]);
}

#[test]
fn create_without_value_sends_zero() {
    let (_, mut binary) = module();
    binary.next_reg = 4;
    emit_create(&mut binary, true, None, None);
    let mut m = create_machine(&binary, b"xy", 0, &[0x11u8; 20]);
    assert_eq!(m.run(&binary.code), End::Completed);
    assert_eq!(m.host.calls[0].value, vec![0u8; 32]);
}

#[test]
fn failed_create_without_flag_reverts() {
    let (_, mut binary) = module();
    binary.next_reg = 4;
    let flag = emit_create(&mut binary, false, Some(Operand::Reg(2)), Some(Operand::Reg(3)));
    assert_eq!(flag, None);
    let mut m = create_machine(&binary, b"ARGS", 1, &[0u8; 20]);
    assert_eq!(m.run(&binary.code), reverted());
    assert_eq!(m.host.calls.len(), 1);
    let mut m = create_machine(&binary, b"ARGS", 0, &[0u8; 20]);
    assert_eq!(m.run(&binary.code), End::Completed);
}

#[test]
fn create_records_blob_and_job() {
    let (_, mut binary) = module();
    binary.next_reg = 4;
    emit_create(&mut binary, true, None, Some(Operand::Reg(3)));
    assert_eq!(binary.globals.len(), 3);
    assert_eq!(binary.globals[2], b"\0asm-code".to_vec());
    assert_eq!(binary.jobs.len(), 1);
    assert_eq!(binary.jobs[0].args, vec![Operand::Reg(1)]);
    assert_eq!(binary.jobs[0].tys, vec![AbiType::Uint(256)]);
    assert!(binary.jobs[0].packed.is_empty());
    assert!(!binary.jobs[0].load);
    assert_eq!(binary.next_reg, 13);
}

#[test]
fn create_needs_its_primitive() {
    let target = LachainTarget::new();
    let mut binary = Binary::new("c", "c.sol", OptLevel::Default, false);
    binary.declare(Primitive::Create);
    let before = binary.clone();
    let args = Vec::new();
    let tys = Vec::new();
    let blob = vec![1u8];
    assert_eq!(
        target.create_contract(
            &mut binary,
            true,
            &blob,
            &tys,
            Operand::Reg(0),
            &args,
            None,
            Some(Operand::Reg(1)),
            NS
        ),
        Err(CompileError::UndeclaredPrimitive(Primitive::Create2))
    );
    assert_eq!(
        target.create_contract(
            &mut binary,
            false,
            &blob,
            &tys,
            Operand::Reg(0),
            &args,
            None,
            None,
            NS
        ),
        Err(CompileError::UndeclaredPrimitive(Primitive::SetReturn))
    );
    assert_eq!(binary, before);
}
