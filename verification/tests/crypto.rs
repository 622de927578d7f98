use lachain_backend::binary::{Binary, Namespace, OptLevel};
use lachain_backend::builtins::{Builtin, HashTy};
use lachain_backend::exec::{Entry, Halt, Host, Machine};
use lachain_backend::host::Primitive;
use lachain_backend::ir::{Args, Callee, CompileError, Feature, Instr, Operand};
use lachain_backend::runner::End;
use lachain_backend::target::LachainTarget;

const NS: Namespace = Namespace { address_length: 20, value_length: 32 };

fn module() -> (LachainTarget, Binary) {
    let target = LachainTarget::new();
    let mut binary = Binary::new("crypto", "crypto.sol", OptLevel::Default, false);
    target.declare_externals(&mut binary);
    (target, binary)
}

fn pointer(m: &mut Machine, r: usize, data: &[u8]) {
    let at = m.store(&data.to_vec()).unwrap();
    m.bind(r, at.to_le_bytes().to_vec());
}

fn register(op: Operand) -> usize {
    match op {
        Operand::Reg(r) => r,
        _ => panic!("the result is a register"),
    }
}

fn unhex(s: &str) -> Vec<u8> {
    (0..s.len() / 2).map(|i| u8::from_str_radix(&s[2 * i..2 * i + 2], 16).unwrap()).collect()
}

/// The digest as the program sees it: the register's bytes, most
/// significant first.
fn hashed(hash: HashTy, input: &[u8]) -> Vec<u8> {
    let (target, mut binary) = module();
    binary.next_reg = 2;
    let out = target.hash(&mut binary, hash, Operand::Reg(0), Operand::Reg(1)).unwrap();
    let mut m = Machine::new(Host::new(20), &binary.globals, Vec::new(), Vec::new()).unwrap();
    pointer(&mut m, 0, input);
    m.bind(1, (input.len() as u32).to_le_bytes().to_vec());
    assert_eq!(m.run(&binary.code), End::Completed);
    let mut value = m.reg(register(out)).unwrap();
    value.reverse();
    value
}

#[test]
fn keccak256_matches_published_vectors() {
    assert_eq!(
        hashed(HashTy::Keccak256, b""),
        unhex("c5d2460186f7233c927e7db2dcc703c0e500b653ca82273b7bfad8045d85a470")
    );
    assert_eq!(
        hashed(HashTy::Keccak256, b"abc"),
        unhex("4e03657aea45a94fc7d47ba826c8d667c0d1e6e33a64a036ec44f58fa12d6c45")
    );
}

#[test]
fn sha256_matches_published_vectors() {
    assert_eq!(
        hashed(HashTy::Sha256, b""),
        unhex("e3b0c44298fc1c149afbf4c8996fb92427ae41e4649b934ca495991b7852b855")
    );
    assert_eq!(
        hashed(HashTy::Sha256, b"abc"),
        unhex("ba7816bf8f01cfea414140de5dae2223b00361a396177a9cb410ff61f20015ad")
    );
}

#[test]
fn ripemd160_matches_published_vectors() {
    assert_eq!(hashed(HashTy::Ripemd160, b""), unhex("9c1185a5c5e9fc54612808977ee8f548b2258d31"));
    assert_eq!(
        hashed(HashTy::Ripemd160, b"abc"),
        unhex("8eb208f7e05d987a9b044a8e98c6b087f15a0bfc")
    );
}

#[test]
fn hash_reverses_the_digest() {
    // without the reversal the host's bytes would stand in the register as they are
    let (target, mut binary) = module();
    binary.next_reg = 3;
    target
        .keccak256_hash(&mut binary, Operand::Reg(0), Operand::Reg(1), Operand::Reg(2))
        .unwrap();
    let out = target.hash(&mut binary, HashTy::Keccak256, Operand::Reg(0), Operand::Reg(1)).unwrap();
    let mut m = Machine::new(Host::new(20), &binary.globals, Vec::new(), Vec::new()).unwrap();
    pointer(&mut m, 0, b"abc");
    m.bind(1, 3u32.to_le_bytes().to_vec());
    pointer(&mut m, 2, &[0u8; 32]);
    assert_eq!(m.run(&binary.code), End::Completed);
    let at = u32::from_le_bytes(m.reg(2).unwrap().try_into().unwrap()) as usize;
    let raw = m.mem[at..at + 32].to_vec();
    assert_eq!(raw, unhex("4e03657aea45a94fc7d47ba826c8d667c0d1e6e33a64a036ec44f58fa12d6c45"));
    let mut reversed = m.reg(register(out)).unwrap();
    assert_ne!(reversed, raw);
    reversed.reverse();
    assert_eq!(reversed, raw);
}

#[test]
fn hash_table_names_primitive_and_length() {
    assert_eq!(HashTy::Keccak256.lowering(), Some((Primitive::CryptoKeccak256, 32)));
    assert_eq!(HashTy::Ripemd160.lowering(), Some((Primitive::CryptoRipemd160, 20)));
    assert_eq!(HashTy::Sha256.lowering(), Some((Primitive::CryptoSha256, 32)));
    assert_eq!(HashTy::Blake2_128.lowering(), None);
    assert_eq!(HashTy::Blake2_256.lowering(), None);
    let (target, mut binary) = module();
    let before = binary.clone();
    assert_eq!(
        target.hash(&mut binary, HashTy::Blake2_256, Operand::Reg(0), Operand::Reg(1)),
        Err(CompileError::Unsupported(Feature::Hash))
    );
    assert_eq!(binary, before);
}

#[test]
fn getters_have_their_widths() {
    let table = [
        (Builtin::BlockNumber, Primitive::GetBlockNumber, 8u32),
        (Builtin::GasLimit, Primitive::GetBlockGasLimit, 8),
        (Builtin::Timestamp, Primitive::GetBlockTimestamp, 8),
        (Builtin::ChainId, Primitive::GetChainId, 8),
        (Builtin::Gasleft, Primitive::GetGasLeft, 8),
        (Builtin::BlockDifficulty, Primitive::GetBlockDifficulty, 32),
        (Builtin::BlockCoinbase, Primitive::GetBlockCoinbaseAddress, 20),
        (Builtin::Sender, Primitive::GetSender, 20),
        (Builtin::Origin, Primitive::GetTxOrigin, 20),
        (Builtin::GetAddress, Primitive::GetAddress, 20),
        (Builtin::Value, Primitive::GetMsgValue, 32),
        (Builtin::Gasprice, Primitive::GetTxGasPrice, 32),
    ];
    for (builtin, primitive, bytes) in table {
        assert_eq!(builtin.getter(NS), Some((primitive, bytes)));
        let (target, mut binary) = module();
        let out = target.builtin(&mut binary, builtin, NS).unwrap();
        assert_eq!(
            binary.code,
            vec![
                Instr::Alloca { dst: 0, bytes },
                Instr::Call {
                    result: None,
                    callee: Callee::Host(primitive),
                    args: Args::One(Operand::Reg(0)),
                },
                Instr::Load { dst: 1, ptr: Operand::Reg(0), bytes },
            ]
        );
        let mut host = Host::new(20);
        let datum: Vec<u8> = (0..bytes as u8).map(|i| i + 1).collect();
        host.set_context(primitive, datum.clone());
        let mut m = Machine::new(host, &binary.globals, Vec::new(), Vec::new()).unwrap();
        assert_eq!(m.run(&binary.code), End::Completed);
        assert_eq!(m.reg(register(out)), Some(datum));
    }
}

#[test]
fn address_width_follows_the_namespace() {
    let wide = Namespace { address_length: 32, value_length: 16 };
    assert_eq!(Builtin::Sender.getter(wide), Some((Primitive::GetSender, 32)));
    assert_eq!(Builtin::Value.getter(wide), Some((Primitive::GetMsgValue, 16)));
    assert_eq!(Builtin::BlockNumber.getter(wide), Some((Primitive::GetBlockNumber, 8)));
}

#[test]
fn value_transferred_reads_the_value() {
    let (target, mut binary) = module();
    let out = target.value_transferred(&mut binary, NS).unwrap();
    let mut host = Host::new(20);
    let mut sent = vec![0u8; 32];
    sent[0] = 0x2a;
    host.set_context(Primitive::GetMsgValue, sent.clone());
    let mut m = Machine::new(host, &binary.globals, Vec::new(), Vec::new()).unwrap();
    assert_eq!(m.run(&binary.code), End::Completed);
    assert_eq!(m.reg(register(out)), Some(sent));
}

#[test]
fn block_hash_stages_the_number() {
    let (target, mut binary) = module();
    binary.next_reg = 1;
    let out = target.builtin(&mut binary, Builtin::BlockHash(Operand::Reg(0)), NS).unwrap();
    let mut host = Host::new(20);
    host.block_hashes.push(Entry { key: 77u64.to_le_bytes().to_vec(), value: vec![0xabu8; 32] });
    let mut m = Machine::new(host, &binary.globals, Vec::new(), Vec::new()).unwrap();
    m.bind(0, 77u64.to_le_bytes().to_vec());
    assert_eq!(m.run(&binary.code), End::Completed);
    assert_eq!(m.reg(register(out)), Some(vec![0xabu8; 32]));
}

#[test]
fn balance_stages_the_address() {
    let (target, mut binary) = module();
    binary.next_reg = 1;
    let out = target.builtin(&mut binary, Builtin::Balance(Operand::Reg(0)), NS).unwrap();
    let mut host = Host::new(20);
    let mut balance = vec![0u8; 32];
    balance[1] = 1;
    host.balances.push(Entry { key: vec![0x42u8; 20], value: balance.clone() });
    let mut m = Machine::new(host, &binary.globals, Vec::new(), Vec::new()).unwrap();
    m.bind(0, vec![0x42u8; 20]);
    assert_eq!(m.run(&binary.code), End::Completed);
    assert_eq!(m.reg(register(out)), Some(balance));
    // an account that the host does not know has nothing
    let mut m = Machine::new(Host::new(20), &binary.globals, Vec::new(), Vec::new()).unwrap();
    m.bind(0, vec![0x43u8; 20]);
    assert_eq!(m.run(&binary.code), End::Completed);
    assert_eq!(m.reg(register(out)), Some(vec![0u8; 32]));
}

#[test]
fn ecrecover_issues_one_call_and_keeps_the_address_as_it_is() {
    let (target, mut binary) = module();
    binary.next_reg = 4;
    let expr = Builtin::Ecrecover(
        Operand::Reg(0),
        Operand::Reg(1),
        Operand::Reg(2),
        Operand::Reg(3),
    );
    let out = target.builtin(&mut binary, expr, NS).unwrap();
    let calls = binary.code.iter().filter(|i| matches!(i, Instr::Call { .. })).count();
    assert_eq!(calls, 1);
    assert_eq!(
        binary.code[7],
        Instr::Call {
            result: None,
            callee: Callee::Host(Primitive::CryptoRecover),
            args: Args::Five(
                Operand::Reg(4),
                Operand::Reg(1),
                Operand::Reg(5),
                Operand::Reg(6),
                Operand::Reg(7)
            ),
        }
    );
    let signer: Vec<u8> = (1..=20).collect();
    let mut key = vec![0x10u8; 32];
    key.push(27);
    key.extend_from_slice(&[0x20u8; 32]);
    key.extend_from_slice(&[0x30u8; 32]);
    let mut host = Host::new(20);
    host.recoveries.push(Entry { key, value: signer.clone() });
    let mut m = Machine::new(host, &binary.globals, Vec::new(), Vec::new()).unwrap();
    m.bind(0, vec![0x10u8; 32]);
    m.bind(1, vec![27]);
    m.bind(2, vec![0x20u8; 32]);
    m.bind(3, vec![0x30u8; 32]);
    assert_eq!(m.run(&binary.code), End::Completed);
    assert_eq!(m.reg(register(out)), Some(signer));
}

#[test]
fn other_builtins_are_unsupported() {
    let (target, mut binary) = module();
    let before = binary.clone();
    for expr in [Builtin::MinimumBalance, Builtin::TombstoneDeposit, Builtin::Random(Operand::Null)]
    {
        assert_eq!(
            target.builtin(&mut binary, expr, NS),
            Err(CompileError::Unsupported(Feature::Builtin))
        );
    }
    assert_eq!(binary, before);
}

#[test]
fn print_and_selfdestruct_are_outside_the_standard_table() {
    let (target, mut binary) = module();
    let before = binary.clone();
    assert_eq!(
        target.print(&mut binary, Operand::Reg(0), Operand::Reg(1)),
        Err(CompileError::UndeclaredPrimitive(Primitive::PrintMem))
    );
    assert_eq!(
        target.selfdestruct(&mut binary, Operand::Reg(0), NS),
        Err(CompileError::UndeclaredPrimitive(Primitive::SelfDestruct))
    );
    assert_eq!(binary, before);
    binary.declare(Primitive::PrintMem);
    binary.declare(Primitive::SelfDestruct);
    binary.next_reg = 2;
    target.print(&mut binary, Operand::Reg(0), Operand::Reg(1)).unwrap();
    target.selfdestruct(&mut binary, Operand::Reg(0), NS).unwrap();
    let mut m = Machine::new(Host::new(20), &binary.globals, Vec::new(), Vec::new()).unwrap();
    pointer(&mut m, 0, &[0x99u8; 20]);
    m.bind(1, 4u32.to_le_bytes().to_vec());
    let end = m.run(&binary.code);
    assert_eq!(
        end,
        End::Halted(Halt { status: 0, data_pointer: 0, data_length: 0, data: Vec::new() })
    );
    assert_eq!(m.host.calls.len(), 1);
    assert_eq!(m.host.calls[0].primitive, Primitive::SelfDestruct);
}

#[test]
fn event_goes_to_the_log() {
    let (target, mut binary) = module();
    binary.next_reg = 2;
    target
        .send_event(&mut binary, 3, Operand::Reg(0), Operand::Reg(1), &Vec::new())
        .unwrap();
    let mut m = Machine::new(Host::new(20), &binary.globals, Vec::new(), Vec::new()).unwrap();
    pointer(&mut m, 0, b"event");
    m.bind(1, 5u32.to_le_bytes().to_vec());
    assert_eq!(m.run(&binary.code), End::Completed);
    assert_eq!(m.host.events, vec![b"event".to_vec()]);
}

#[test]
fn return_data_is_copied_into_a_vector() {
    let (target, mut binary) = module();
    let out = target.return_data(&mut binary).unwrap();
    let mut host = Host::new(20);
    host.return_data = vec![1, 2, 3, 4, 5];
    let mut m = Machine::new(host, &binary.globals, Vec::new(), Vec::new()).unwrap();
    assert_eq!(m.run(&binary.code), End::Completed);
    let at = u32::from_le_bytes(m.reg(register(out)).unwrap().try_into().unwrap()) as usize;
    assert_eq!(&m.mem[at..at + 4], &5u32.to_le_bytes());
    assert_eq!(&m.mem[at + 4..at + 8], &5u32.to_le_bytes());
    assert_eq!(&m.mem[at + 8..at + 13], &[1, 2, 3, 4, 5]);
}

#[test]
fn termination_hands_back_status_and_data() {
    let (target, mut binary) = module();
    binary.next_reg = 2;
    target.return_abi(&mut binary, Operand::Reg(0), Operand::Reg(1)).unwrap();
    let mut m = Machine::new(Host::new(20), &binary.globals, Vec::new(), Vec::new()).unwrap();
    pointer(&mut m, 0, b"result");
    m.bind(1, 6u32.to_le_bytes().to_vec());
    let at = u32::from_le_bytes(m.reg(0).unwrap().try_into().unwrap());
    assert_eq!(
        m.run(&binary.code),
        End::Halted(Halt { status: 0, data_pointer: at, data_length: 6, data: b"result".to_vec() })
    );

    let (target, mut binary) = module();
    binary.next_reg = 2;
    target.assert_failure(&mut binary, Operand::Reg(0), Operand::Reg(1)).unwrap();
    assert_eq!(
        binary.code,
        vec![
            Instr::Call {
                result: None,
                callee: Callee::Host(Primitive::SetReturn),
                args: Args::Two(Operand::Reg(0), Operand::Reg(1)),
            },
            Instr::Call {
                result: None,
                callee: Callee::Host(Primitive::SystemHalt),
                args: Args::One(Operand::Const { bits: 32, value: 1 }),
            },
            Instr::Unreachable,
        ]
    );
    let mut m = Machine::new(Host::new(20), &binary.globals, Vec::new(), Vec::new()).unwrap();
    pointer(&mut m, 0, b"reason");
    m.bind(1, 6u32.to_le_bytes().to_vec());
    assert_eq!(
        m.run(&binary.code),
        End::Halted(Halt { status: 1, data_pointer: at, data_length: 6, data: b"reason".to_vec() })
    );

    let (target, mut binary) = module();
    target.return_empty_abi(&mut binary).unwrap();
    let mut m = Machine::new(Host::new(20), &binary.globals, Vec::new(), Vec::new()).unwrap();
    assert_eq!(
        m.run(&binary.code),
        End::Halted(Halt { status: 0, data_pointer: 0, data_length: 0, data: Vec::new() })
    );

    let (target, mut binary) = module();
    target.return_code(&mut binary, Operand::Const { bits: 32, value: 7 }).unwrap();
    let mut m = Machine::new(Host::new(20), &binary.globals, Vec::new(), Vec::new()).unwrap();
    assert_eq!(
        m.run(&binary.code),
        End::Halted(Halt { status: 1, data_pointer: 0, data_length: 0, data: Vec::new() })
    );
}
