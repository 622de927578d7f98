use lachain_backend::binary::{Binary, Contract, DispatchEntry, Namespace, OptLevel};
use lachain_backend::calls::{CallEnvelope, CallTy};
use lachain_backend::exec::{Halt, Host};
use lachain_backend::host::Primitive;
use lachain_backend::invoke::{invoke, MAX_CALL_DATA};
use lachain_backend::ir::{AbiType, Operand};
use lachain_backend::runner::End;
use lachain_backend::target::LachainTarget;

const NS: Namespace = Namespace { address_length: 20, value_length: 32 };

fn contract() -> Contract {
    Contract {
        name: "vault".to_string(),
        functions: vec![
            DispatchEntry {
                selector: 0xd0e30db0,
                payable: true,
                function: 1,
                params: Vec::new(),
            },
            DispatchEntry {
                selector: 0x2e1a7d4d,
                payable: false,
                function: 2,
                params: vec![AbiType::Uint(256)],
            },
        ],
    }
}

fn host(call_data: &[u8], value: u8) -> Host {
    let mut host = Host::new(20);
    host.call_data = call_data.to_vec();
    let mut sent = vec![0u8; 32];
    sent[31] = value;
    host.set_context(Primitive::GetMsgValue, sent);
    host
}

/// The codec decodes the arguments of both functions.
fn decoded() -> Vec<Option<Vec<Vec<u8>>>> {
    vec![Some(Vec::new()), Some(vec![vec![0u8; 32]])]
}

fn reverted() -> End {
    End::Halted(Halt { status: 1, data_pointer: 0, data_length: 0, data: Vec::new() })
}

#[test]
fn invocation_enters_the_selected_function() {
    let (end, machine) = invoke(&contract(), NS, host(&[0xd0, 0xe3, 0x0d, 0xb0], 9), decoded()).unwrap();
    assert_eq!(end, End::Entered(1));
    assert!(machine.host.calls.is_empty());
    let mut data = vec![0x2e, 0x1a, 0x7d, 0x4d];
    data.extend_from_slice(&[0u8; 32]);
    let (end, _) = invoke(&contract(), NS, host(&data, 0), decoded()).unwrap();
    assert_eq!(end, End::Entered(2));
}

#[test]
fn invocation_reverts_what_the_dispatch_refuses() {
    let mut data = vec![0x2e, 0x1a, 0x7d, 0x4d];
    data.extend_from_slice(&[0u8; 32]);
    let (end, _) = invoke(&contract(), NS, host(&data, 1), decoded()).unwrap();
    assert_eq!(end, reverted());
    let (end, _) = invoke(&contract(), NS, host(&[1, 2, 3, 4, 5], 0), decoded()).unwrap();
    assert_eq!(end, reverted());
    let (end, _) = invoke(&contract(), NS, host(&[], 0), decoded()).unwrap();
    assert_eq!(end, reverted());
}

#[test]
fn invocation_needs_a_sound_setting() {
    let narrow = Namespace { address_length: 20, value_length: 16 };
    assert!(invoke(&contract(), narrow, host(&[], 0), decoded()).is_none());
    let zero = Namespace { address_length: 0, value_length: 32 };
    assert!(invoke(&contract(), zero, host(&[], 0), decoded()).is_none());
    let mut short = host(&[], 0);
    short.context.pop();
    assert!(invoke(&contract(), NS, short, decoded()).is_none());
    assert_eq!(MAX_CALL_DATA, 0xffff_ff00);
}

#[test]
fn built_entry_point_passes_the_check() {
    let binary =
        LachainTarget::build(&contract(), NS, "vault.sol", OptLevel::Aggressive, false).unwrap();
    let kinds = binary.typecheck(&Vec::new()).unwrap();
    assert_eq!(kinds.len(), 2 + 5 + 1 + 4);
    let plain = Contract {
        name: "plain".to_string(),
        functions: vec![DispatchEntry {
            selector: 1,
            payable: false,
            function: 0,
            params: vec![AbiType::Bool; 3],
        }],
    };
    let binary = LachainTarget::build(&plain, NS, "plain.sol", OptLevel::Nothing, false).unwrap();
    assert!(binary.typecheck(&Vec::new()).is_ok());
}

#[test]
fn envelope_is_an_external_call() {
    let target = LachainTarget::new();
    let mut direct = Binary::new("c", "c.sol", OptLevel::Default, false);
    target.declare_externals(&mut direct);
    let mut bundled = direct.clone();
    let (payload, payload_len, address, gas, value) = (
        Operand::Reg(0),
        Operand::Reg(1),
        Operand::Reg(2),
        Operand::Reg(3),
        Operand::Reg(4),
    );
    direct.next_reg = 5;
    bundled.next_reg = 5;
    let a = target
        .external_call(
            &mut direct,
            false,
            payload,
            payload_len,
            address,
            gas,
            value,
            CallTy::Delegate,
            NS,
        )
        .unwrap();
    let envelope = CallEnvelope {
        target: address,
        payload,
        payload_len,
        value,
        gas,
        kind: CallTy::Delegate,
    };
    let b = target.call(&mut bundled, false, envelope, NS).unwrap();
    assert_eq!(a, b);
    assert_eq!(direct, bundled);
}

#[test]
fn invocation_reverts_where_the_arguments_do_not_decode() {
    let withdraw = [0x2e, 0x1a, 0x7d, 0x4d];
    let failing = vec![Some(Vec::new()), None];
    let (end, machine) = invoke(&contract(), NS, host(&withdraw, 0), failing.clone()).unwrap();
    assert_eq!(end, reverted());
    assert!(machine.host.calls.is_empty());
    // the other function is not touched by that
    let (end, _) = invoke(&contract(), NS, host(&[0xd0, 0xe3, 0x0d, 0xb0], 0), failing).unwrap();
    assert_eq!(end, End::Entered(1));
    // an outcome for every function, with one value for each parameter
    assert!(invoke(&contract(), NS, host(&withdraw, 0), vec![Some(Vec::new())]).is_none());
    let wrong = vec![Some(Vec::new()), Some(Vec::new())];
    assert!(invoke(&contract(), NS, host(&withdraw, 0), wrong).is_none());
}
