use lachain_backend::binary::{Binary, OptLevel};
use lachain_backend::bytes::{bytes_eq, le_encode, read_bytes, word_decode, write_bytes, zero_bytes};
use lachain_backend::exec::{Host, Machine};
use lachain_backend::ir::{AbiType, Args, ArithOp, Callee, CompileError, Helper, Instr, Operand};
use lachain_backend::runner::{End, Flow};
use lachain_backend::target::LachainTarget;

fn module() -> (LachainTarget, Binary) {
    let target = LachainTarget::new();
    let mut binary = Binary::new("codec", "codec.sol", OptLevel::Default, false);
    target.declare_externals(&mut binary);
    (target, binary)
}

fn address(m: &Machine, r: usize) -> usize {
    u32::from_le_bytes(m.reg(r).unwrap().try_into().unwrap()) as usize
}

#[test]
fn selector_goes_first_as_a_packed_number() {
    let (target, mut binary) = module();
    binary.next_reg = 3;
    let args = vec![Operand::Reg(1), Operand::Reg(2)];
    let tys = vec![AbiType::Address, AbiType::Bool];
    let (data, len) =
        target.abi_encode(&mut binary, Some(Operand::Reg(0)), true, &args, &tys).unwrap();
    assert_eq!((data, len), (Operand::Reg(4), Operand::Reg(3)));
    let job = &binary.jobs[0];
    assert_eq!(job.packed, vec![Operand::Reg(0)]);
    assert_eq!(job.args, args);
    assert_eq!(job.tys, vec![AbiType::Uint(32), AbiType::Address, AbiType::Bool]);
    assert!(job.load);
    assert!(!job.bswap);
}

#[test]
fn without_selector_nothing_is_packed() {
    let (target, mut binary) = module();
    let args = vec![Operand::Reg(1)];
    let tys = vec![AbiType::String];
    target.abi_encode(&mut binary, None, false, &args, &tys).unwrap();
    let job = &binary.jobs[0];
    assert!(job.packed.is_empty());
    assert_eq!(job.tys, tys);
    assert!(!job.load);
}

#[test]
fn encode_allocates_once_and_exactly() {
    let (target, mut binary) = module();
    let (data, len) = target
        .encode(&mut binary, None, false, &Vec::new(), &Vec::new(), &Vec::new())
        .unwrap();
    assert_eq!(
        binary.code,
        vec![
            Instr::EncodedLength { dst: 0, job: 0 },
            Instr::Call {
                result: Some(1),
                callee: Callee::Runtime(Helper::Malloc),
                args: Args::One(Operand::Reg(0)),
            },
            Instr::Encode { dest: Operand::Reg(1), job: 0 },
        ]
    );
    let mut m = Machine::new(Host::new(20), &binary.globals, vec![b"encoded".to_vec()], Vec::new()).unwrap();
    let before = m.mem.len();
    assert_eq!(m.run(&binary.code), End::Completed);
    assert_eq!(m.mem.len(), before + 7);
    assert_eq!(data, Operand::Reg(1));
    assert_eq!(len, Operand::Reg(0));
    assert_eq!(m.reg(0), Some(7u32.to_le_bytes().to_vec()));
    assert_eq!(&m.mem[address(&m, 1)..], b"encoded");
}

#[test]
fn constant_prefix_stands_before_the_encoding() {
    let (target, mut binary) = module();
    let blob = binary.add_global(b"PREFIX".to_vec());
    let (data, len) = target
        .encode(
            &mut binary,
            Some((Operand::Global(blob), 6)),
            false,
            &Vec::new(),
            &Vec::new(),
            &Vec::new(),
        )
        .unwrap();
    assert_eq!((data, len), (Operand::Reg(2), Operand::Reg(1)));
    assert_eq!(
        binary.code[1],
        Instr::Arith {
            dst: 1,
            op: ArithOp::Add,
            lhs: Operand::Reg(0),
            rhs: Operand::Const { bits: 32, value: 6 },
        }
    );
    let mallocs = binary
        .code
        .iter()
        .filter(|i| matches!(i, Instr::Call { callee: Callee::Runtime(Helper::Malloc), .. }))
        .count();
    assert_eq!(mallocs, 1);
    let mut m = Machine::new(Host::new(20), &binary.globals, vec![b"tail".to_vec()], Vec::new()).unwrap();
    let before = m.mem.len();
    assert_eq!(m.run(&binary.code), End::Completed);
    assert_eq!(m.mem.len(), before + 10);
    assert_eq!(m.reg(1), Some(10u32.to_le_bytes().to_vec()));
    assert_eq!(&m.mem[address(&m, 2)..], b"PREFIXtail");
}

#[test]
fn oversized_prefix_is_a_compile_error() {
    let (target, mut binary) = module();
    let before = binary.clone();
    assert_eq!(
        target.encode(
            &mut binary,
            Some((Operand::Null, u32::MAX as u64 + 1)),
            false,
            &Vec::new(),
            &Vec::new(),
            &Vec::new()
        ),
        Err(CompileError::BlobTooLarge)
    );
    assert_eq!(binary, before);
    assert!(target
        .encode(
            &mut binary,
            Some((Operand::Null, u32::MAX as u64)),
            false,
            &Vec::new(),
            &Vec::new(),
            &Vec::new()
        )
        .is_ok());
}

#[test]
fn encode_to_vector_builds_a_length_prefixed_buffer() {
    let (target, mut binary) = module();
    let packed = vec![Operand::Reg(7)];
    let out = target
        .abi_encode_to_vector(&mut binary, &packed, &Vec::new(), &vec![AbiType::Bytes(4)])
        .unwrap();
    assert_eq!(out, Operand::Reg(0));
    assert_eq!(binary.code, vec![Instr::EncodeVector { dst: 0, job: 0 }]);
    assert_eq!(binary.jobs[0].packed, packed);
    let mut m = Machine::new(Host::new(20), &binary.globals, vec![vec![1, 2, 3]], Vec::new()).unwrap();
    assert_eq!(m.run(&binary.code), End::Completed);
    let at = address(&m, 0);
    assert_eq!(&m.mem[at..], &[3, 0, 0, 0, 3, 0, 0, 0, 1, 2, 3]);
}

#[test]
fn decode_answers_one_register_for_each_value() {
    let (target, mut binary) = module();
    binary.next_reg = 2;
    let spec = vec![AbiType::Uint(8), AbiType::String, AbiType::Int(64)];
    let values = target.abi_decode(&mut binary, Operand::Reg(0), Operand::Reg(1), &spec).unwrap();
    assert_eq!(values, vec![Operand::Reg(2), Operand::Reg(3), Operand::Reg(4)]);
    assert_eq!(binary.next_reg, 5);
    assert_eq!(
        binary.code,
        vec![Instr::Decode { first: 2, data: Operand::Reg(0), len: Operand::Reg(1), job: 0 }]
    );
    assert_eq!(binary.jobs[0].tys, spec);
    assert!(!binary.jobs[0].bswap);
    binary.next_reg = usize::MAX - 1;
    assert_eq!(
        target.abi_decode(&mut binary, Operand::Reg(0), Operand::Reg(1), &spec),
        Err(CompileError::OutOfRegisters)
    );
}

#[test]
fn integers_are_encoded_least_significant_byte_first() {
    assert_eq!(le_encode(0x0102_0304, 4), vec![4, 3, 2, 1]);
    assert_eq!(le_encode(0x0102_0304, 2), vec![4, 3]);
    assert_eq!(le_encode(1, 32), {
        let mut v = vec![0u8; 32];
        v[0] = 1;
        v
    });
    assert_eq!(le_encode(u64::MAX, 0), Vec::<u8>::new());
    assert_eq!(word_decode(&vec![4, 3, 2, 1]), Some(0x0102_0304));
    assert_eq!(word_decode(&vec![0xff; 4]), Some(u32::MAX));
    assert_eq!(word_decode(&vec![1, 2, 3]), None);
    assert_eq!(word_decode(&vec![1, 2, 3, 4, 5]), None);
    assert_eq!(zero_bytes(3), vec![0, 0, 0]);
    assert!(bytes_eq(&vec![1, 2], &vec![1, 2]));
    assert!(!bytes_eq(&vec![1, 2], &vec![1, 3]));
    assert!(!bytes_eq(&vec![1, 2], &vec![1, 2, 3]));
}

#[test]
fn memory_ranges_are_checked() {
    let mut mem = vec![1u8, 2, 3, 4, 5];
    assert_eq!(read_bytes(&mem, 1, 3), Some(vec![2, 3, 4]));
    assert_eq!(read_bytes(&mem, 5, 0), Some(vec![]));
    assert_eq!(read_bytes(&mem, 3, 3), None);
    assert_eq!(read_bytes(&mem, 6, 0), None);
    assert!(write_bytes(&mut mem, 3, &vec![9, 9]));
    assert_eq!(mem, vec![1, 2, 3, 9, 9]);
    assert!(!write_bytes(&mut mem, 4, &vec![7, 7]));
    assert_eq!(mem, vec![1, 2, 3, 9, 9]);
}

#[test]
fn machine_traps_on_what_has_no_meaning() {
    let (_, binary) = module();
    let fresh = || Machine::new(Host::new(20), &binary.globals, Vec::new(), Vec::new()).unwrap();
    // an unbound register
    assert_eq!(
        fresh().run(&vec![Instr::Load { dst: 1, ptr: Operand::Reg(0), bytes: 4 }]),
        End::Trapped
    );
    // a read past the end of the memory
    let mut m = fresh();
    m.bind(0, (m.mem.len() as u32 - 2).to_le_bytes().to_vec());
    assert_eq!(
        m.run(&vec![Instr::Load { dst: 1, ptr: Operand::Reg(0), bytes: 4 }]),
        End::Trapped
    );
    // the unreachable marker
    assert_eq!(fresh().run(&vec![Instr::Unreachable]), End::Trapped);
    // a skip past the end of the code
    assert_eq!(
        fresh().run(&vec![Instr::SkipIf { cond: Operand::Const { bits: 8, value: 1 }, count: 1 }]),
        End::Trapped
    );
    // a call with the wrong number of arguments
    assert_eq!(
        fresh().run(&vec![Instr::Call {
            result: None,
            callee: Callee::Runtime(Helper::InitHeap),
            args: Args::One(Operand::Null),
        }]),
        End::Trapped
    );
    // a result register on a callee that returns nothing
    assert_eq!(
        fresh().run(&vec![Instr::Call {
            result: Some(0),
            callee: Callee::Runtime(Helper::InitHeap),
            args: Args::Empty,
        }]),
        End::Trapped
    );
    // a constant whose width is not a whole number of bytes
    assert_eq!(
        fresh().run(&vec![Instr::Store {
            ptr: Operand::Global(0),
            value: Operand::Const { bits: 12, value: 1 }
        }]),
        End::Trapped
    );
}

#[test]
fn skip_goes_behind_the_guarded_instructions() {
    let (_, binary) = module();
    let mut m = Machine::new(Host::new(20), &binary.globals, Vec::new(), Vec::new()).unwrap();
    let code = vec![
        Instr::SkipIf { cond: Operand::Const { bits: 8, value: 1 }, count: 1 },
        Instr::Unreachable,
        Instr::SkipIf { cond: Operand::Const { bits: 8, value: 0 }, count: 1 },
        Instr::Alloca { dst: 0, bytes: 1 },
    ];
    assert_eq!(m.step(&code[0]), Flow::Skip(1));
    assert_eq!(m.step(&code[2]), Flow::Next);
    assert_eq!(m.run(&code), End::Completed);
    assert!(m.reg(0).is_some());
}

#[test]
fn arithmetic_wraps_at_32_bits() {
    let (_, binary) = module();
    let mut m = Machine::new(Host::new(20), &binary.globals, Vec::new(), Vec::new()).unwrap();
    let word = |v: u32| Operand::Const { bits: 32, value: v as u64 };
    let code = vec![
        Instr::Arith { dst: 0, op: ArithOp::Add, lhs: word(u32::MAX), rhs: word(2) },
        Instr::Arith { dst: 1, op: ArithOp::Sub, lhs: word(1), rhs: word(2) },
        Instr::Arith { dst: 2, op: ArithOp::Sub, lhs: word(10), rhs: word(4) },
        Instr::Offset { dst: 3, base: word(100), delta: word(28) },
    ];
    assert_eq!(m.run(&code), End::Completed);
    assert_eq!(m.reg(0), Some(1u32.to_le_bytes().to_vec()));
    assert_eq!(m.reg(1), Some(u32::MAX.to_le_bytes().to_vec()));
    assert_eq!(m.reg(2), Some(6u32.to_le_bytes().to_vec()));
    assert_eq!(m.reg(3), Some(128u32.to_le_bytes().to_vec()));
}

#[test]
fn module_data_is_laid_out_behind_a_guard() {
    let (_, mut binary) = module();
    binary.add_global(b"blob".to_vec());
    let m = Machine::new(Host::new(20), &binary.globals, Vec::new(), Vec::new()).unwrap();
    assert_eq!(m.globals, vec![16, 20, 24]);
    assert_eq!(m.mem.len(), 28);
    assert_eq!(&m.mem[24..], b"blob");
    assert_eq!(m.eval(Operand::Global(2)), Some(24u32.to_le_bytes().to_vec()));
    assert_eq!(m.eval(Operand::Global(3)), None);
    assert_eq!(m.eval(Operand::Null), Some(vec![0; 4]));
    assert_eq!(m.eval_word(Operand::Global(0)), Some(16));
}

#[test]
fn decoding_binds_the_values_or_reverts() {
    let (target, mut binary) = module();
    binary.next_reg = 2;
    let spec = vec![AbiType::Uint(64), AbiType::Bool];
    let values = target.abi_decode(&mut binary, Operand::Reg(0), Operand::Reg(1), &spec).unwrap();
    binary.code.push(Instr::Alloca { dst: 9, bytes: 1 });
    let run = |outcome: Option<Vec<Vec<u8>>>| {
        let mut m =
            Machine::new(Host::new(20), &binary.globals, Vec::new(), vec![outcome]).unwrap();
        let at = m.store(&vec![0u8; 40]).unwrap();
        m.bind(0, at.to_le_bytes().to_vec());
        m.bind(1, 40u32.to_le_bytes().to_vec());
        let end = m.run(&binary.code);
        (end, m)
    };
    let (end, m) = run(Some(vec![vec![7, 0, 0, 0, 0, 0, 0, 0], vec![1]]));
    assert_eq!(end, End::Completed);
    assert_eq!(values, vec![Operand::Reg(2), Operand::Reg(3)]);
    assert_eq!(m.reg(2), Some(vec![7, 0, 0, 0, 0, 0, 0, 0]));
    assert_eq!(m.reg(3), Some(vec![1]));
    assert!(m.reg(9).is_some());
    let (end, m) = run(None);
    assert_eq!(
        end,
        End::Halted(lachain_backend::exec::Halt {
            status: 1,
            data_pointer: 0,
            data_length: 0,
            data: Vec::new()
        })
    );
    // nothing behind the failed decoding ran
    assert!(m.reg(9).is_none());
    assert!(m.reg(2).is_none());
    // a machine that has no outcome for the job cannot go on
    let mut m = Machine::new(Host::new(20), &binary.globals, Vec::new(), Vec::new()).unwrap();
    let at = m.store(&vec![0u8; 40]).unwrap();
    m.bind(0, at.to_le_bytes().to_vec());
    m.bind(1, 40u32.to_le_bytes().to_vec());
    assert_eq!(m.run(&binary.code), End::Trapped);
}
