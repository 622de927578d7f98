use inkwell::context::Context;
use lachain_backend::binary::{Binary, Contract, DispatchEntry, Namespace, OptLevel};
use lachain_backend::calls::CallTy;
use lachain_backend::ir::{AbiType, Instr, Operand};
use lachain_backend::llvm::{render, RenderError};
use lachain_backend::target::LachainTarget;
use lachain_backend::typing::{Kind, Reason, TypeError};

const NS: Namespace = Namespace { address_length: 20, value_length: 32 };

fn token() -> Contract {
    Contract {
        name: "token".to_string(),
        functions: vec![
            DispatchEntry {
                selector: 0xa9059cbb,
                payable: true,
                function: 11,
                params: vec![AbiType::Address, AbiType::Uint(256)],
            },
            DispatchEntry {
                selector: 0x70a08231,
                payable: false,
                function: 22,
                params: vec![AbiType::Address],
            },
        ],
    }
}

#[test]
fn entry_point_renders_as_valid_llvm() {
    let binary = LachainTarget::build(&token(), NS, "token.sol", OptLevel::Default, false).unwrap();
    let context = Context::create();
    let rendered = render(&context, &binary).unwrap();
    println!("{}", rendered.text);
    assert!(rendered.valid);
    let text = rendered.text;
    assert!(text.contains("define void @start()"));
    assert!(text.contains("declare void @save_storage(i8*, i8*)"));
    assert!(text.contains("declare i32 @invoke_contract(i8*, i32, i8*, i8*, i8*)"));
    assert!(text.contains("declare void @crypto_recover(i8*, i8, i8*, i8*, i8*)"));
    assert!(text.contains("declare i32 @create2(i8*, i8*, i32, i8*, i8*)"));
    assert!(text.contains("declare i8* @__malloc(i32)"));
    assert!(text.contains("call void @__init_heap()"));
    assert!(text.contains("call i32 @get_call_size()"));
    assert!(text.contains("call void @function_11()"));
    assert!(text.contains("call void @function_22()"));
    assert!(text.contains("call void @system_halt(i32 1)"));
    assert!(text.contains("unreachable"));
    // the selectors are compared as numbers
    assert!(text.contains(&format!("{}", 0xa9059cbbu32 as i32)));
    assert!(text.contains("1889567281"));
}

#[test]
fn halt_primitive_is_tagged_noreturn() {
    let binary = LachainTarget::build(&token(), NS, "token.sol", OptLevel::Default, false).unwrap();
    let context = Context::create();
    let text = render(&context, &binary).unwrap().text;
    let line = text.lines().find(|l| l.contains("@system_halt(i32)")).unwrap();
    let group = line.rsplit('#').next().unwrap().trim().to_string();
    let attributes = text
        .lines()
        .find(|l| l.starts_with(&format!("attributes #{} ", group)))
        .unwrap();
    assert!(attributes.contains("noreturn"));
    let tagged = text.lines().filter(|l| l.starts_with("declare") && l.contains('#')).count();
    assert_eq!(tagged, 1);
}

#[test]
fn every_primitive_is_declared_once() {
    let binary = LachainTarget::build(&token(), NS, "token.sol", OptLevel::Default, false).unwrap();
    let context = Context::create();
    let text = render(&context, &binary).unwrap().text;
    for p in &binary.externals {
        let needle = format!("@{}(", p.name());
        let declared =
            text.lines().filter(|l| l.starts_with("declare") && l.contains(&needle)).count();
        assert_eq!(declared, 1);
    }
}

#[test]
fn lowerings_render_as_valid_llvm() {
    let target = LachainTarget::new();
    let mut binary = Binary::new("all", "all.sol", OptLevel::Default, false);
    target.declare_externals(&mut binary);
    let (data, len) = target.runtime_prelude(&mut binary, NS).unwrap();
    let value = target.value_transferred(&mut binary, NS).unwrap();
    target.set_storage(&mut binary, data, data, 64).unwrap();
    target.set_storage(&mut binary, data, data, 256).unwrap();
    target.get_storage_int(&mut binary, data, 8).unwrap();
    target.storage_delete_single_slot(&mut binary, data).unwrap();
    target.set_storage_string(&mut binary, data, data).unwrap();
    let string = target.get_storage_string(&mut binary, data).unwrap();
    let digest = target
        .hash(&mut binary, lachain_backend::builtins::HashTy::Ripemd160, string, len)
        .unwrap();
    target.keccak256_hash(&mut binary, data, len, string).unwrap();
    let gas = Operand::Const { bits: 64, value: 5000 };
    target
        .external_call(&mut binary, false, data, len, string, gas, value, CallTy::Static, NS)
        .unwrap();
    target.value_transfer(&mut binary, true, data, value, NS).unwrap();
    target
        .create_contract(
            &mut binary,
            true,
            &vec![0, 1, 2, 3],
            &vec![AbiType::Bool],
            data,
            &vec![digest],
            None,
            Some(value),
            NS,
        )
        .unwrap();
    target.return_data(&mut binary).unwrap();
    target.send_event(&mut binary, 0, data, len, &Vec::new()).unwrap();
    target.abi_encode(&mut binary, Some(len), false, &vec![value], &vec![AbiType::Uint(256)]).unwrap();
    target.abi_encode_to_vector(&mut binary, &Vec::new(), &vec![value], &vec![AbiType::Uint(256)])
        .unwrap();
    target.abi_decode(&mut binary, data, len, &vec![AbiType::Bool]).unwrap();
    for expr in [
        lachain_backend::builtins::Builtin::Timestamp,
        lachain_backend::builtins::Builtin::Sender,
        lachain_backend::builtins::Builtin::BlockHash(gas),
        lachain_backend::builtins::Builtin::Balance(value),
        lachain_backend::builtins::Builtin::Ecrecover(
            value,
            Operand::Const { bits: 8, value: 27 },
            value,
            value,
        ),
    ] {
        target.builtin(&mut binary, expr, NS).unwrap();
    }
    target.return_abi(&mut binary, data, len).unwrap();
    assert!(binary.typecheck(&Vec::new()).is_ok());
    let context = Context::create();
    let rendered = render(&context, &binary).unwrap();
    println!("{}", rendered.text);
    assert!(rendered.valid);
    assert!(rendered.text.contains("@data_2 = "));
    assert!(rendered.text.contains("call i32 @invoke_static_contract("));
    assert!(rendered.text.contains("call void @crypto_ripemd160("));
    assert!(rendered.text.contains("call i32 @create2("));
    assert!(rendered.text.contains("load i160, i160*"));
}

#[test]
fn ill_typed_code_is_not_rendered() {
    let target = LachainTarget::new();
    let mut binary = Binary::new("bad", "bad.sol", OptLevel::Default, false);
    target.declare_externals(&mut binary);
    binary.code.push(Instr::Load { dst: 0, ptr: Operand::Reg(7), bytes: 4 });
    let fault = TypeError { pc: 0, reason: Reason::UnboundRegister };
    assert_eq!(binary.typecheck(&Vec::new()), Err(fault));
    let context = Context::create();
    assert_eq!(render(&context, &binary), Err(RenderError::Type(fault)));
    // with the register bound on entry the check passes
    let mut params = vec![Kind::Unbound; 8];
    params[7] = Kind::Pointer;
    let kinds = binary.typecheck(&params).unwrap();
    assert_eq!(kinds[0], Kind::Int(32));
}

#[test]
fn check_names_the_fault() {
    let target = LachainTarget::new();
    let fresh = || {
        let mut binary = Binary::new("bad", "bad.sol", OptLevel::Default, false);
        target.declare_externals(&mut binary);
        binary
    };
    let word = |v: u64| Operand::Const { bits: 32, value: v };
    let cases: Vec<(Vec<Instr>, usize, Reason)> = vec![
        (
            vec![Instr::Alloca { dst: 0, bytes: 4 }, Instr::Alloca { dst: 0, bytes: 4 }],
            1,
            Reason::ReboundRegister,
        ),
        (vec![Instr::Alloca { dst: 0, bytes: 0 }], 0, Reason::BadWidth),
        (
            vec![Instr::Load { dst: 0, ptr: Operand::Const { bits: 64, value: 0 }, bytes: 4 }],
            0,
            Reason::NotAPointer,
        ),
        (vec![Instr::Load { dst: 0, ptr: Operand::Null, bytes: 33 }], 0, Reason::BadWidth),
        (vec![Instr::Store { ptr: Operand::Global(9), value: word(1) }], 0, Reason::UnknownGlobal),
        (
            vec![Instr::Arith {
                dst: 0,
                op: lachain_backend::ir::ArithOp::Add,
                lhs: word(1),
                rhs: Operand::Const { bits: 8, value: 1 },
            }],
            0,
            Reason::NotAWord,
        ),
        (
            vec![Instr::Compare {
                dst: 0,
                pred: lachain_backend::ir::Predicate::Eq,
                lhs: word(1),
                rhs: Operand::Const { bits: 8, value: 1 },
            }],
            0,
            Reason::WidthMismatch,
        ),
        (vec![Instr::SkipIf { cond: word(1), count: 0 }], 0, Reason::NotAFlag),
        (
            vec![
                Instr::Compare {
                    dst: 0,
                    pred: lachain_backend::ir::Predicate::Uge,
                    lhs: word(1),
                    rhs: word(2),
                },
                Instr::SkipIf { cond: Operand::Reg(0), count: 1 },
            ],
            1,
            Reason::SkipTooFar,
        ),
        (vec![Instr::EncodedLength { dst: 0, job: 0 }], 0, Reason::UnknownJob),
        (
            vec![Instr::Call {
                result: None,
                callee: lachain_backend::ir::Callee::Host(
                    lachain_backend::host::Primitive::PrintMem,
                ),
                args: lachain_backend::ir::Args::Two(Operand::Null, word(0)),
            }],
            0,
            Reason::Undeclared,
        ),
        (
            vec![Instr::Call {
                result: None,
                callee: lachain_backend::ir::Callee::Host(
                    lachain_backend::host::Primitive::SetReturn,
                ),
                args: lachain_backend::ir::Args::One(Operand::Null),
            }],
            0,
            Reason::Arity,
        ),
        (
            vec![Instr::Call {
                result: None,
                callee: lachain_backend::ir::Callee::Host(
                    lachain_backend::host::Primitive::SetReturn,
                ),
                args: lachain_backend::ir::Args::Two(
                    Operand::Null,
                    Operand::Const { bits: 64, value: 0 },
                ),
            }],
            0,
            Reason::BadArgument,
        ),
        (
            vec![Instr::Call {
                result: Some(0),
                callee: lachain_backend::ir::Callee::Host(
                    lachain_backend::host::Primitive::SetReturn,
                ),
                args: lachain_backend::ir::Args::Two(Operand::Null, word(0)),
            }],
            0,
            Reason::NoResult,
        ),
    ];
    for (code, pc, reason) in cases {
        let mut binary = fresh();
        binary.code = code;
        assert_eq!(binary.typecheck(&Vec::new()), Err(TypeError { pc, reason }));
    }
}

#[test]
fn entry_routine_is_rendered_under_its_name() {
    let binary = LachainTarget::build(&token(), NS, "token.sol", OptLevel::Default, false).unwrap();
    let context = Context::create();
    let text = render(&context, &binary).unwrap().text;
    let routine = LachainTarget::entry_routine();
    assert!(text.contains(&format!("define void @{}()", routine.name)));
    let defined = text.lines().filter(|l| l.starts_with("define ")).count();
    assert_eq!(defined, 1);
}
