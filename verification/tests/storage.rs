use lachain_backend::binary::{Binary, OptLevel};
use lachain_backend::exec::{Host, Machine};
use lachain_backend::host::Primitive;
use lachain_backend::ir::{Args, Callee, CompileError, Feature, Helper, Instr, Operand};
use lachain_backend::runner::End;
use lachain_backend::target::LachainTarget;

fn module() -> (LachainTarget, Binary) {
    let target = LachainTarget::new();
    let mut binary = Binary::new("storage", "storage.sol", OptLevel::Default, false);
    target.declare_externals(&mut binary);
    (target, binary)
}

fn machine(binary: &Binary) -> Machine {
    Machine::new(Host::new(20), &binary.globals, Vec::new(), Vec::new()).unwrap()
}

fn pointer(m: &mut Machine, r: usize, data: &[u8]) -> Operand {
    let at = m.store(&data.to_vec()).unwrap();
    m.bind(r, at.to_le_bytes().to_vec());
    Operand::Reg(r)
}

fn register(op: Operand) -> usize {
    match op {
        Operand::Reg(r) => r,
        _ => panic!("the result is a register"),
    }
}

fn round_trip(bits: u32, value: &[u8]) {
    let (target, mut binary) = module();
    binary.next_reg = 2;
    let slot = Operand::Reg(0);
    let dest = Operand::Reg(1);
    target.set_storage(&mut binary, slot, dest, bits).unwrap();
    let out = target.get_storage_int(&mut binary, slot, bits).unwrap();

    let mut m = machine(&binary);
    let key = [7u8; 32];
    pointer(&mut m, 0, &key);
    pointer(&mut m, 1, value);
    assert_eq!(m.run(&binary.code), End::Completed);
    assert_eq!(m.reg(register(out)), Some(value.to_vec()));
    let entry = m.host.storage.last().unwrap();
    assert_eq!(entry.key, key.to_vec());
    assert_eq!(entry.value.len(), 32);
    assert_eq!(&entry.value[..value.len()], value);
    assert!(entry.value[value.len()..].iter().all(|b| *b == 0));
}

#[test]
fn narrow_value_round_trips_through_storage() {
    round_trip(64, &[1, 2, 3, 4, 5, 6, 7, 8]);
}

#[test]
fn single_byte_round_trips_through_storage() {
    round_trip(8, &[0xfe]);
}

#[test]
fn full_word_round_trips_through_storage() {
    let value: Vec<u8> = (1..=32).collect();
    round_trip(256, &value);
}

#[test]
fn full_word_is_written_without_scratch() {
    let (target, mut binary) = module();
    binary.next_reg = 2;
    target.set_storage(&mut binary, Operand::Reg(0), Operand::Reg(1), 256).unwrap();
    assert_eq!(
        binary.code,
        vec![Instr::Call {
            result: None,
            callee: Callee::Host(Primitive::SaveStorage),
            args: Args::Two(Operand::Reg(0), Operand::Reg(1)),
        }]
    );
    assert_eq!(binary.next_reg, 2);
}

#[test]
fn narrow_value_is_laid_over_a_zeroed_word() {
    let (target, mut binary) = module();
    binary.next_reg = 2;
    target.set_storage(&mut binary, Operand::Reg(0), Operand::Reg(1), 128).unwrap();
    assert_eq!(
        binary.code,
        vec![
            Instr::Alloca { dst: 2, bytes: 32 },
            Instr::Call {
                result: None,
                callee: Callee::Runtime(Helper::Bzero8),
                args: Args::Two(Operand::Reg(2), Operand::Const { bits: 32, value: 4 }),
            },
            Instr::Load { dst: 3, ptr: Operand::Reg(1), bytes: 16 },
            Instr::Store { ptr: Operand::Reg(2), value: Operand::Reg(3) },
            Instr::Call {
                result: None,
                callee: Callee::Host(Primitive::SaveStorage),
                args: Args::Two(Operand::Reg(0), Operand::Reg(2)),
            },
        ]
    );
    assert_eq!(binary.next_reg, 4);
}

#[test]
fn fresh_memory_is_not_zero() {
    // The scratch word has to be zeroed by the code: the machine hands out
    // memory that is filled with a pattern.
    let (_, binary) = module();
    let mut m = machine(&binary);
    let code = vec![
        Instr::Alloca { dst: 0, bytes: 4 },
        Instr::Load { dst: 1, ptr: Operand::Reg(0), bytes: 4 },
    ];
    assert_eq!(m.run(&code), End::Completed);
    assert_eq!(m.reg(1), Some(vec![0xAA; 4]));
}

#[test]
fn deleted_slot_reads_as_zero() {
    for bits in [8u32, 32, 160, 256] {
        let (target, mut binary) = module();
        binary.next_reg = 2;
        let slot = Operand::Reg(0);
        target.set_storage(&mut binary, slot, Operand::Reg(1), 256).unwrap();
        target.storage_delete_single_slot(&mut binary, slot).unwrap();
        let out = target.get_storage_int(&mut binary, slot, bits).unwrap();
        let mut m = machine(&binary);
        pointer(&mut m, 0, &[9u8; 32]);
        pointer(&mut m, 1, &[0xffu8; 32]);
        assert_eq!(m.run(&binary.code), End::Completed);
        assert_eq!(m.reg(register(out)), Some(vec![0u8; (bits / 8) as usize]));
        assert_eq!(m.host.storage.len(), 2);
        assert_eq!(m.host.storage[1].value, vec![0u8; 32]);
    }
}

#[test]
fn unwritten_slot_reads_as_zero() {
    let (target, mut binary) = module();
    binary.next_reg = 1;
    let out = target.get_storage_int(&mut binary, Operand::Reg(0), 64).unwrap();
    let mut m = machine(&binary);
    pointer(&mut m, 0, &[3u8; 32]);
    assert_eq!(m.run(&binary.code), End::Completed);
    assert_eq!(m.reg(register(out)), Some(vec![0u8; 8]));
}

#[test]
fn slots_are_independent() {
    let (target, mut binary) = module();
    binary.next_reg = 4;
    target.set_storage(&mut binary, Operand::Reg(0), Operand::Reg(2), 32).unwrap();
    target.set_storage(&mut binary, Operand::Reg(1), Operand::Reg(3), 32).unwrap();
    let first = target.get_storage_int(&mut binary, Operand::Reg(0), 32).unwrap();
    let second = target.get_storage_int(&mut binary, Operand::Reg(1), 32).unwrap();
    let mut m = machine(&binary);
    pointer(&mut m, 0, &[1u8; 32]);
    pointer(&mut m, 1, &[2u8; 32]);
    pointer(&mut m, 2, &[0x11, 0x22, 0x33, 0x44]);
    pointer(&mut m, 3, &[0x55, 0x66, 0x77, 0x88]);
    assert_eq!(m.run(&binary.code), End::Completed);
    assert_eq!(m.reg(register(first)), Some(vec![0x11, 0x22, 0x33, 0x44]));
    assert_eq!(m.reg(register(second)), Some(vec![0x55, 0x66, 0x77, 0x88]));
}

fn vector(data: &[u8]) -> Vec<u8> {
    let mut out = (data.len() as u32).to_le_bytes().to_vec();
    out.extend_from_slice(&(data.len() as u32).to_le_bytes());
    out.extend_from_slice(data);
    out
}

fn string_round_trip(data: &[u8]) {
    let (target, mut binary) = module();
    binary.next_reg = 2;
    let slot = Operand::Reg(0);
    target.set_storage_string(&mut binary, slot, Operand::Reg(1)).unwrap();
    let out = target.get_storage_string(&mut binary, slot).unwrap();
    let mut m = machine(&binary);
    pointer(&mut m, 0, &[5u8; 32]);
    pointer(&mut m, 1, &vector(data));
    assert_eq!(m.run(&binary.code), End::Completed);
    let buffer = m.reg(register(out)).unwrap();
    let at = u32::from_le_bytes([buffer[0], buffer[1], buffer[2], buffer[3]]) as usize;
    let len = u32::from_le_bytes([m.mem[at], m.mem[at + 1], m.mem[at + 2], m.mem[at + 3]]);
    let size =
        u32::from_le_bytes([m.mem[at + 4], m.mem[at + 5], m.mem[at + 6], m.mem[at + 7]]);
    assert_eq!(len as usize, data.len());
    assert_eq!(size as usize, data.len());
    assert_eq!(&m.mem[at + 8..at + 8 + data.len()], data);
    assert_eq!(m.mem.len(), at + 8 + data.len());
    assert_eq!(m.host.strings.last().unwrap().value, data.to_vec());
}

#[test]
fn string_round_trips_through_storage() {
    string_round_trip(b"hello, storage");
}

#[test]
fn empty_string_round_trips_through_storage() {
    string_round_trip(b"");
}

#[test]
fn long_string_round_trips_through_storage() {
    let data: Vec<u8> = (0..1000u32).map(|i| (i % 251) as u8).collect();
    string_round_trip(&data);
}

#[test]
fn string_write_passes_key_data_and_length() {
    let (target, mut binary) = module();
    binary.next_reg = 2;
    target.set_storage_string(&mut binary, Operand::Reg(0), Operand::Reg(1)).unwrap();
    assert_eq!(
        binary.code,
        vec![
            Instr::Load { dst: 2, ptr: Operand::Reg(1), bytes: 4 },
            Instr::Offset {
                dst: 3,
                base: Operand::Reg(1),
                delta: Operand::Const { bits: 32, value: 8 },
            },
            Instr::Call {
                result: None,
                callee: Callee::Host(Primitive::SaveStorageString),
                args: Args::Three(Operand::Reg(0), Operand::Reg(3), Operand::Reg(2)),
            },
        ]
    );
}

#[test]
fn undeclared_primitive_is_a_compile_error() {
    let target = LachainTarget::new();
    let mut binary = Binary::new("empty", "empty.sol", OptLevel::Default, false);
    let before = binary.clone();
    assert_eq!(
        target.set_storage(&mut binary, Operand::Reg(0), Operand::Reg(1), 256),
        Err(CompileError::UndeclaredPrimitive(Primitive::SaveStorage))
    );
    assert_eq!(
        target.get_storage_string(&mut binary, Operand::Reg(0)),
        Err(CompileError::UndeclaredPrimitive(Primitive::GetStorageStringSize))
    );
    assert_eq!(binary, before);
}

#[test]
fn boolean_round_trips_through_storage() {
    round_trip(1, &[1]);
}

#[test]
fn width_between_bytes_takes_the_next_whole_byte() {
    round_trip(12, &[0xcd, 0x0a]);
    round_trip(255, &[0x7f; 32]);
    let (target, mut binary) = module();
    binary.next_reg = 2;
    target.set_storage(&mut binary, Operand::Reg(0), Operand::Reg(1), 17).unwrap();
    assert_eq!(binary.code[2], Instr::Load { dst: 3, ptr: Operand::Reg(1), bytes: 3 });
    let out = target.get_storage_int(&mut binary, Operand::Reg(0), 9).unwrap();
    assert_eq!(out, Operand::Reg(5));
    assert_eq!(binary.code[7], Instr::Load { dst: 5, ptr: Operand::Reg(4), bytes: 2 });
}

#[test]
fn width_outside_1_to_256_is_a_compile_error() {
    let (target, mut binary) = module();
    let before = binary.clone();
    for bits in [0u32, 257, 264, 512, u32::MAX] {
        assert_eq!(
            target.set_storage(&mut binary, Operand::Reg(0), Operand::Reg(1), bits),
            Err(CompileError::BadWidth(bits))
        );
        assert_eq!(
            target.get_storage_int(&mut binary, Operand::Reg(0), bits),
            Err(CompileError::BadWidth(bits))
        );
    }
    assert_eq!(binary, before);
}

#[test]
fn exhausted_registers_are_a_compile_error() {
    let (target, mut binary) = module();
    binary.next_reg = usize::MAX - 1;
    let before = binary.clone();
    assert_eq!(
        target.set_storage(&mut binary, Operand::Reg(0), Operand::Reg(1), 64),
        Err(CompileError::OutOfRegisters)
    );
    assert_eq!(
        target.get_storage_string(&mut binary, Operand::Reg(0)),
        Err(CompileError::OutOfRegisters)
    );
    assert_eq!(binary, before);
    // a full word needs no register
    assert_eq!(target.set_storage(&mut binary, Operand::Reg(0), Operand::Reg(1), 256), Ok(()));
}

#[test]
fn extended_storage_shapes_are_unsupported() {
    let (target, mut binary) = module();
    let before = binary.clone();
    let a = Operand::Reg(0);
    let b = Operand::Reg(1);
    let c = Operand::Reg(2);
    assert_eq!(
        target.set_storage_extfunc(&mut binary, a, b),
        Err(CompileError::Unsupported(Feature::StorageExternalFunction))
    );
    assert_eq!(
        target.get_storage_extfunc(&mut binary, a),
        Err(CompileError::Unsupported(Feature::StorageExternalFunction))
    );
    assert_eq!(
        target.get_storage_bytes_subscript(&mut binary, a, b),
        Err(CompileError::Unsupported(Feature::StorageBytesSubscript))
    );
    assert_eq!(
        target.set_storage_bytes_subscript(&mut binary, a, b, c),
        Err(CompileError::Unsupported(Feature::StorageBytesSubscript))
    );
    assert_eq!(
        target.storage_push(&mut binary, a, b),
        Err(CompileError::Unsupported(Feature::StoragePush))
    );
    assert_eq!(
        target.storage_pop(&mut binary, a),
        Err(CompileError::Unsupported(Feature::StoragePop))
    );
    assert_eq!(binary, before);
    assert_eq!(
        CompileError::Unsupported(Feature::StoragePush).message(),
        "unsupported on this target"
    );
}
