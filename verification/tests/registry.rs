use lachain_backend::binary::{Binary, OptLevel};
use lachain_backend::host::{standard_primitives, ParamTy, Primitive, RetTy, STANDARD_PRIMITIVES};
use lachain_backend::ir::Helper;
use lachain_backend::target::{EthAbiDecoder, LachainTarget};

#[test]
fn standard_table_has_every_primitive_once() {
    let table = standard_primitives();
    assert_eq!(table.len(), STANDARD_PRIMITIVES);
    assert_eq!(table.len(), 36);
    let mut names: Vec<&str> = table.iter().map(|p| p.name()).collect();
    names.sort();
    names.dedup();
    assert_eq!(names.len(), 36);
    assert!(!table.contains(&Primitive::PrintMem));
    assert!(!table.contains(&Primitive::SelfDestruct));
    assert_eq!(Primitive::PrintMem.index(), 36);
    assert_eq!(Primitive::SelfDestruct.index(), 37);
}

#[test]
fn only_the_halt_primitive_never_returns() {
    for p in standard_primitives() {
        assert_eq!(p.noreturn(), p == Primitive::SystemHalt);
        assert_eq!(p.signature().noreturn, p == Primitive::SystemHalt);
    }
    let halt = Primitive::SystemHalt.signature();
    assert_eq!(halt.name, "system_halt");
    assert_eq!(halt.params, vec![ParamTy::U32]);
    assert_eq!(halt.ret, RetTy::Void);
}

#[test]
#[allow(non_snake_case)]
fn signatures_are_the_wire_format() {
    let (P, W, B) = (ParamTy::BytePtr, ParamTy::U32, ParamTy::U8);
    let table: Vec<(Primitive, &str, Vec<ParamTy>, RetTy)> = vec![
        (Primitive::SaveStorage, "save_storage", vec![P, P], RetTy::Void),
        (Primitive::LoadStorage, "load_storage", vec![P, P], RetTy::Void),
        (Primitive::SaveStorageString, "save_storage_string", vec![P, P, W], RetTy::Void),
        (Primitive::LoadStorageString, "load_storage_string", vec![P, P], RetTy::Void),
        (Primitive::GetStorageStringSize, "get_storage_string_size", vec![P], RetTy::U32),
        (Primitive::GetCallSize, "get_call_size", vec![], RetTy::U32),
        (Primitive::GetReturnSize, "get_return_size", vec![], RetTy::U32),
        (Primitive::CopyCallValue, "copy_call_value", vec![W, W, P], RetTy::Void),
        (Primitive::CopyReturnValue, "copy_return_value", vec![P, W, W], RetTy::Void),
        (Primitive::InvokeContract, "invoke_contract", vec![P, W, P, P, P], RetTy::U32),
        (Primitive::InvokeStaticContract, "invoke_static_contract", vec![P, W, P, P, P], RetTy::U32),
        (
            Primitive::InvokeDelegateContract,
            "invoke_delegate_contract",
            vec![P, W, P, P, P],
            RetTy::U32,
        ),
        (Primitive::Transfer, "transfer", vec![P, P], RetTy::U32),
        (Primitive::GetMsgValue, "get_msgvalue", vec![P], RetTy::Void),
        (Primitive::GetAddress, "get_address", vec![P], RetTy::Void),
        (Primitive::GetSender, "get_sender", vec![P], RetTy::Void),
        (Primitive::GetExternalBalance, "get_external_balance", vec![P, P], RetTy::Void),
        (Primitive::GetGasLeft, "get_gas_left", vec![P], RetTy::Void),
        (Primitive::GetTxGasPrice, "get_tx_gas_price", vec![P], RetTy::Void),
        (Primitive::GetTxOrigin, "get_tx_origin", vec![P], RetTy::Void),
        (Primitive::GetBlockNumber, "get_block_number", vec![P], RetTy::Void),
        (Primitive::GetBlockHash, "get_block_hash", vec![P, P], RetTy::Void),
        (Primitive::GetBlockGasLimit, "get_block_gas_limit", vec![P], RetTy::Void),
        (Primitive::GetBlockDifficulty, "get_block_difficulty", vec![P], RetTy::Void),
        (Primitive::GetBlockCoinbaseAddress, "get_block_coinbase_address", vec![P], RetTy::Void),
        (Primitive::GetBlockTimestamp, "get_block_timestamp", vec![P], RetTy::Void),
        (Primitive::GetChainId, "get_chain_id", vec![P], RetTy::Void),
        (Primitive::Create, "create", vec![P, P, W, P], RetTy::U32),
        (Primitive::Create2, "create2", vec![P, P, W, P, P], RetTy::U32),
        (Primitive::WriteLog, "write_log", vec![P, W], RetTy::Void),
        (Primitive::SetReturn, "set_return", vec![P, W], RetTy::Void),
        (Primitive::CryptoKeccak256, "crypto_keccak256", vec![P, W, P], RetTy::Void),
        (Primitive::CryptoRipemd160, "crypto_ripemd160", vec![P, W, P], RetTy::Void),
        (Primitive::CryptoSha256, "crypto_sha256", vec![P, W, P], RetTy::Void),
        (Primitive::CryptoRecover, "crypto_recover", vec![P, B, P, P, P], RetTy::Void),
        (Primitive::SystemHalt, "system_halt", vec![W], RetTy::Void),
    ];
    assert_eq!(table.len(), 36);
    let standard = standard_primitives();
    for (i, (p, name, params, ret)) in table.into_iter().enumerate() {
        assert_eq!(standard[i], p);
        assert_eq!(p.index(), i);
        assert_eq!(p.name(), name);
        assert_eq!(p.params(), params);
        assert_eq!(p.ret(), ret);
        let entry = p.signature();
        assert_eq!(entry.id, p);
        assert_eq!(entry.name, name);
        assert_eq!(entry.params, params);
        assert_eq!(entry.ret, ret);
    }
    assert_eq!(Primitive::PrintMem.name(), "printMem");
    assert_eq!(Primitive::SelfDestruct.name(), "selfDestruct");
}

#[test]
fn declaring_twice_declares_once() {
    let target = LachainTarget::new();
    let mut binary = Binary::new("m", "m.sol", OptLevel::Default, false);
    assert!(!binary.is_declared(Primitive::SystemHalt));
    target.declare_externals(&mut binary);
    assert_eq!(binary.externals, standard_primitives());
    let once = binary.clone();
    target.declare_externals(&mut binary);
    assert_eq!(binary, once);
    for p in standard_primitives() {
        assert!(binary.is_declared(p));
    }
    assert!(!binary.is_declared(Primitive::PrintMem));
}

#[test]
fn declaring_keeps_what_was_declared() {
    let target = LachainTarget::new();
    let mut binary = Binary::new("m", "m.sol", OptLevel::Default, false);
    binary.declare(Primitive::PrintMem);
    binary.declare(Primitive::SystemHalt);
    target.declare_externals(&mut binary);
    assert_eq!(binary.externals.len(), 37);
    assert_eq!(binary.externals[0], Primitive::PrintMem);
    assert_eq!(binary.externals[1], Primitive::SystemHalt);
    assert_eq!(binary.externals[2], Primitive::SaveStorage);
    let halts = binary.externals.iter().filter(|p| **p == Primitive::SystemHalt).count();
    assert_eq!(halts, 1);
}

#[test]
fn helpers_have_their_names() {
    assert_eq!(Helper::InitHeap.name(), "__init_heap");
    assert_eq!(Helper::Malloc.name(), "__malloc");
    assert_eq!(Helper::Memcpy.name(), "__memcpy");
    assert_eq!(Helper::Bzero8.name(), "__bzero8");
    assert_eq!(Helper::Be32ToLeN.name(), "__be32toleN");
    assert_eq!(Helper::BeNToLeN.name(), "__beNtoleN");
}

#[test]
fn target_does_not_swap_decoded_bytes() {
    assert_eq!(LachainTarget::new().abi(), EthAbiDecoder { bswap: false });
}

#[test]
fn entry_routine_is_start_without_parameters_or_result() {
    let routine = LachainTarget::entry_routine();
    assert_eq!(routine.name, "start");
    assert!(routine.params.is_empty());
    assert_eq!(routine.ret, RetTy::Void);
}
