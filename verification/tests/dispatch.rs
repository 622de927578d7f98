use lachain_backend::binary::{Binary, Contract, DispatchEntry, Namespace, OptLevel};
use lachain_backend::exec::{Halt, Host, Machine};
use lachain_backend::host::Primitive;
use lachain_backend::ir::{AbiType, CompileError, Instr};
use lachain_backend::runner::End;
use lachain_backend::target::LachainTarget;

const NS: Namespace = Namespace { address_length: 20, value_length: 32 };

const TRANSFER: u32 = 0xa9059cbb;
const BALANCE_OF: u32 = 0x70a08231;

fn entry(selector: u32, payable: bool, function: usize, params: Vec<AbiType>) -> DispatchEntry {
    DispatchEntry { selector, payable, function, params }
}

fn token() -> Contract {
    Contract {
        name: "token".to_string(),
        functions: vec![
            entry(TRANSFER, true, 11, vec![AbiType::Address, AbiType::Uint(256)]),
            entry(BALANCE_OF, false, 22, vec![AbiType::Address]),
        ],
    }
}

fn reverted() -> End {
    End::Halted(Halt { status: 1, data_pointer: 0, data_length: 0, data: Vec::new() })
}

fn invoke(contract: &Contract, call_data: &[u8], value: u8) -> (End, Machine) {
    let binary = LachainTarget::build(contract, NS, "token.sol", OptLevel::Default, false).unwrap();
    let mut host = Host::new(20);
    host.call_data = call_data.to_vec();
    let mut sent = vec![0u8; 32];
    sent[0] = value;
    host.set_context(Primitive::GetMsgValue, sent);
    let mut m = Machine::new(host, &binary.globals, Vec::new(), decode(contract, call_data)).unwrap();
    let end = m.run(&binary.code);
    (end, m)
}

/// What a codec makes of the bytes behind the selector, for each function:
/// one 32-byte word for each parameter, or nothing where the bytes do not
/// suffice.
fn decode(contract: &Contract, call_data: &[u8]) -> Vec<Option<Vec<Vec<u8>>>> {
    let rest = if call_data.len() >= 4 { &call_data[4..] } else { &[][..] };
    contract
        .functions
        .iter()
        .map(|f| {
            if rest.len() < 32 * f.params.len() {
                None
            } else {
                Some((0..f.params.len()).map(|i| rest[32 * i..32 * i + 32].to_vec()).collect())
            }
        })
        .collect()
}

fn call(selector: u32, rest: &[u8]) -> Vec<u8> {
    let mut out = selector.to_be_bytes().to_vec();
    out.extend_from_slice(rest);
    out
}

#[test]
fn nonpayable_function_refuses_value() {
    let (end, _) = invoke(&token(), &call(BALANCE_OF, &[0u8; 32]), 1);
    assert_eq!(end, reverted());
}

#[test]
fn nonpayable_function_runs_without_value() {
    let (end, _) = invoke(&token(), &call(BALANCE_OF, &[0u8; 32]), 0);
    assert_eq!(end, End::Entered(22));
}

#[test]
fn payable_function_runs_with_value() {
    let (end, _) = invoke(&token(), &call(TRANSFER, &[0u8; 64]), 5);
    assert_eq!(end, End::Entered(11));
    let (end, _) = invoke(&token(), &call(TRANSFER, &[0u8; 64]), 0);
    assert_eq!(end, End::Entered(11));
}

#[test]
fn unmatched_selector_reverts_whatever_follows() {
    for rest in [&[][..], &[0u8; 1][..], &[0xffu8; 64][..], &TRANSFER.to_be_bytes()[..]] {
        for value in [0u8, 1] {
            let (end, _) = invoke(&token(), &call(0xdeadbeef, rest), value);
            assert_eq!(end, reverted());
        }
    }
}

#[test]
fn selector_is_read_big_endian() {
    // the same four bytes in the other order select nothing
    let mut data = BALANCE_OF.to_le_bytes().to_vec();
    data.extend_from_slice(&[0u8; 32]);
    let (end, _) = invoke(&token(), &data, 0);
    assert_eq!(end, reverted());
}

#[test]
fn short_call_data_reverts() {
    for len in 0..4 {
        let data = &BALANCE_OF.to_be_bytes()[..len];
        let (end, _) = invoke(&token(), data, 0);
        assert_eq!(end, reverted());
    }
}

#[test]
fn contract_without_functions_reverts() {
    let empty = Contract { name: "empty".to_string(), functions: Vec::new() };
    let (end, _) = invoke(&empty, &call(TRANSFER, &[]), 0);
    assert_eq!(end, reverted());
}

#[test]
fn value_is_refused_on_entry_where_nothing_is_payable() {
    let contract = Contract {
        name: "plain".to_string(),
        functions: vec![
            entry(TRANSFER, false, 1, Vec::new()),
            entry(BALANCE_OF, false, 2, Vec::new()),
        ],
    };
    let binary = LachainTarget::build(&contract, NS, "plain.sol", OptLevel::Less, true).unwrap();
    assert!(binary.function_abort_value_transfers);
    assert!(binary.math_overflow_check);
    assert_eq!(binary.opt, OptLevel::Less);
    assert_eq!(binary.filename, "plain.sol");
    assert_eq!(binary.name, "plain");
    // the value check is the first thing in the entry point, and no case repeats it
    let reads = binary
        .code
        .iter()
        .filter(|i| {
            matches!(
                i,
                Instr::Call {
                    callee: lachain_backend::ir::Callee::Host(Primitive::GetMsgValue),
                    ..
                }
            )
        })
        .count();
    assert_eq!(reads, 1);
    assert!(matches!(binary.code[0], Instr::Alloca { dst: 0, bytes: 32 }));
    let (end, _) = invoke(&contract, &call(BALANCE_OF, &[]), 1);
    assert_eq!(end, reverted());
    let (end, _) = invoke(&contract, &call(0x12345678, &[]), 1);
    assert_eq!(end, reverted());
    let (end, _) = invoke(&contract, &call(BALANCE_OF, &[]), 0);
    assert_eq!(end, End::Entered(2));
}

#[test]
fn first_of_two_equal_selectors_wins() {
    let contract = Contract {
        name: "twice".to_string(),
        functions: vec![entry(TRANSFER, true, 1, Vec::new()), entry(TRANSFER, true, 2, Vec::new())],
    };
    let (end, _) = invoke(&contract, &call(TRANSFER, &[]), 0);
    assert_eq!(end, End::Entered(1));
}

#[test]
fn prelude_copies_the_call_data() {
    let data = call(BALANCE_OF, &[9u8; 37]);
    let (end, m) = invoke(&token(), &data, 0);
    assert_eq!(end, End::Entered(22));
    // the two module variables hold the length and the buffer
    let len_at = m.globals[0] as usize;
    let data_at = m.globals[1] as usize;
    let len = u32::from_le_bytes(m.mem[len_at..len_at + 4].try_into().unwrap()) as usize;
    let at = u32::from_le_bytes(m.mem[data_at..data_at + 4].try_into().unwrap()) as usize;
    assert_eq!(len, data.len());
    assert_eq!(&m.mem[at..at + len], &data[..]);
}

#[test]
fn build_declares_the_standard_table_once() {
    let binary = LachainTarget::build(&token(), NS, "token.sol", OptLevel::Default, false).unwrap();
    assert_eq!(binary.externals.len(), 36);
    for (i, p) in binary.externals.iter().enumerate() {
        assert_eq!(p.index(), i);
    }
    assert!(!binary.function_abort_value_transfers);
    assert_eq!(binary.jobs.len(), 2);
    assert_eq!(binary.jobs[0].tys, vec![AbiType::Address, AbiType::Uint(256)]);
    assert_eq!(binary.jobs[1].tys, vec![AbiType::Address]);
    assert!(!binary.jobs[0].bswap);
    assert_eq!(binary.globals, vec![vec![0u8; 4], vec![0u8; 4]]);
    // prelude 2, selector 5, then 1 + 2 for the payable function with its two
    // arguments, and 1 + 3 + 1 for the other with its value check and one argument
    assert_eq!(binary.next_reg, 2 + 5 + 3 + 5);
}

#[test]
fn dispatch_needs_declared_primitives() {
    let target = LachainTarget::new();
    let mut binary = Binary::new("token", "token.sol", OptLevel::Default, false);
    let before = binary.clone();
    assert_eq!(
        target.function_dispatch(&mut binary, &token(), NS),
        Err(CompileError::UndeclaredPrimitive(Primitive::SetReturn))
    );
    assert_eq!(
        target.runtime_prelude(&mut binary, NS),
        Err(CompileError::UndeclaredPrimitive(Primitive::GetCallSize))
    );
    assert_eq!(binary, before);
    binary.declare(Primitive::SetReturn);
    binary.declare(Primitive::SystemHalt);
    binary.declare(Primitive::GetCallSize);
    binary.declare(Primitive::CopyCallValue);
    assert_eq!(
        target.function_dispatch(&mut binary, &token(), NS),
        Err(CompileError::UndeclaredPrimitive(Primitive::GetMsgValue))
    );
    binary.declare(Primitive::GetMsgValue);
    binary.declare(Primitive::GetMsgValue);
    assert_eq!(binary.externals.len(), 5);
    assert_eq!(target.function_dispatch(&mut binary, &token(), NS), Ok(()));
}

#[test]
fn prelude_answers_buffer_and_length() {
    let target = LachainTarget::new();
    let mut binary = Binary::new("p", "p.sol", OptLevel::Default, false);
    target.declare_externals(&mut binary);
    let (args, len) = target.runtime_prelude(&mut binary, NS).unwrap();
    assert_eq!(args, lachain_backend::ir::Operand::Reg(1));
    assert_eq!(len, lachain_backend::ir::Operand::Reg(0));
    assert_eq!(binary.code.len(), 6);
    let mut host = Host::new(20);
    host.call_data = vec![1, 2, 3];
    let mut m = Machine::new(host, &binary.globals, Vec::new(), Vec::new()).unwrap();
    assert_eq!(m.run(&binary.code), End::Completed);
    assert_eq!(m.reg(0), Some(vec![3, 0, 0, 0]));
    let at = u32::from_le_bytes(m.reg(1).unwrap().try_into().unwrap()) as usize;
    assert_eq!(&m.mem[at..at + 3], &[1, 2, 3]);
}

#[test]
fn value_is_refused_before_arguments_are_decoded() {
    let binary = LachainTarget::build(&token(), NS, "token.sol", OptLevel::Default, false).unwrap();
    let position = |wanted: &dyn Fn(&Instr) -> bool| {
        binary.code.iter().position(|i| wanted(i)).unwrap()
    };
    let reads_value = position(&|i| {
        matches!(
            i,
            Instr::Call { callee: lachain_backend::ir::Callee::Host(Primitive::GetMsgValue), .. }
        )
    });
    let second_decode = position(&|i| matches!(i, Instr::Decode { job: 1, .. }));
    let first_decode = position(&|i| matches!(i, Instr::Decode { job: 0, .. }));
    // only the function that is not payable checks, and it checks first
    assert!(first_decode < reads_value);
    assert!(reads_value < second_decode);
    // every case ends in the marker that control never reaches
    assert_eq!(binary.code[first_decode + 2], Instr::Unreachable);
    assert_eq!(binary.code[second_decode + 2], Instr::Unreachable);
    assert_eq!(
        binary.code[first_decode + 1],
        Instr::Invoke { function: 11, first: 8, count: 2 }
    );
    assert_eq!(binary.code.last(), Some(&Instr::Unreachable));
}

#[test]
fn short_arguments_revert_before_the_body() {
    // the selector alone, and arguments one byte short
    for rest in [&[][..], &[0u8; 31][..]] {
        let (end, m) = invoke(&token(), &call(BALANCE_OF, rest), 0);
        assert_eq!(end, reverted());
        assert!(m.host.storage.is_empty());
        assert!(m.host.calls.is_empty());
    }
    let (end, _) = invoke(&token(), &call(TRANSFER, &[0u8; 63]), 7);
    assert_eq!(end, reverted());
    let (end, _) = invoke(&token(), &call(TRANSFER, &[0u8; 64]), 7);
    assert_eq!(end, End::Entered(11));
}

#[test]
fn decoded_arguments_stand_in_the_registers_of_the_call() {
    let mut rest = vec![0x11u8; 32];
    rest.extend_from_slice(&[0x22u8; 32]);
    let (end, m) = invoke(&token(), &call(TRANSFER, &rest), 0);
    assert_eq!(end, End::Entered(11));
    let binary = LachainTarget::build(&token(), NS, "token.sol", OptLevel::Default, false).unwrap();
    let (first, count) = binary
        .code
        .iter()
        .find_map(|i| match i {
            Instr::Invoke { function: 11, first, count } => Some((*first, *count)),
            _ => None,
        })
        .unwrap();
    assert_eq!(count, 2);
    assert_eq!(m.reg(first), Some(vec![0x11u8; 32]));
    assert_eq!(m.reg(first + 1), Some(vec![0x22u8; 32]));
}
