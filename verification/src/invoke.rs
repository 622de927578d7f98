//! An invocation from end to end: the entry point of a contract is built,
//! a machine is set up for the module, and the entry point runs on a host.
//! What comes out is what the dispatch decides.

use vstd::prelude::*;
use crate::binary::{Contract, Namespace, OptLevel};
use crate::bytes::{filler, lemma_word_round_trip};

use crate::entry::{build_early_abort, dispatch_regs};
use crate::entry_laws::{
    decision,
    decodable,
    has_call_data_variables,
    has_value,
    law_dispatch,
    Decision,
};
use crate::exec::{initial_addresses, initial_memory, outcomes, rows, Host, Machine};
use crate::host::Primitive;
use crate::machine::{reverted, HostState, State};
use crate::runner::End;
use crate::target::LachainTarget;

verus! {

/// Largest call data that `invoke` takes: what fits into the address space
/// beside the module's variables and the scratch buffers of the entry
/// point.
pub const MAX_CALL_DATA: usize = 0xffff_ff00;

/// Whether `invoke` can run the entry point of `contract` on `host`: the
/// widths of the chain are sound, the codec has an outcome for the
/// arguments of every function, with one value for each parameter where it
/// decodes, the host holds a value of the chain's width, the call data
/// fits into the address space, and the entry point does not need more
/// registers than there are.
pub open spec fn can_invoke(
    contract: &Contract,
    ns: Namespace,
    host: HostState,
    decodings: Seq<Option<Seq<Seq<u8>>>>,
) -> bool {
    &&& ns.wf()
    &&& decodable(decodings, contract.functions@, 0)
    &&& host.context.len() == 38
    &&& host.context[Primitive::GetMsgValue.index_of() as int].len() == ns.value_length
    &&& host.call_data.len() <= MAX_CALL_DATA
    &&& dispatch_regs(contract.functions@, build_early_abort(contract)) + 4 <= usize::MAX
}

/// The memory of a fresh machine for a module whose only data are the two
/// call-data variables.
proof fn lemma_initial_state(globals: Seq<Seq<u8>>, s: State)
    requires
        globals.len() == 2,
        globals[0].len() == 4,
        globals[1].len() == 4,
        s.mem == initial_memory(globals),
        s.globals == initial_addresses(globals),
    ensures
        s.mem.len() == 24,
        has_call_data_variables(s),
{
    let none = globals.subrange(0, 0);
    let one = globals.subrange(0, 1);
    assert(none =~= Seq::<Seq<u8>>::empty());
    assert(initial_memory(none) == filler(16));
    assert(one.drop_last() =~= none);
    assert(one.last() == globals[0]);
    assert(initial_memory(one) == filler(16) + globals[0]);
    assert(globals.drop_last() =~= one);
    assert(initial_memory(globals) == filler(16) + globals[0] + globals[1]);
    assert(s.globals[0] == 16);
    assert(s.globals[1] == 20);
    lemma_word_round_trip(16);
    lemma_word_round_trip(20);
}

/// Runs the entry point of `contract` on `host`. `decodings` holds, for
/// each function in order, what the codec makes of the call data behind the
/// selector as arguments of that function: the decoded values, or `None`
/// where the data is too short or malformed. Answers how the invocation
/// ended and the machine as it stands then; `None` where the entry point
/// cannot run.
pub fn invoke(
    contract: &Contract,
    ns: Namespace,
    host: Host,
    decodings: Vec<Option<Vec<Vec<u8>>>>,
) -> (out: Option<(End, Machine)>)
    ensures
        out.is_some() == can_invoke(contract, ns, host@, outcomes(decodings@)),
        out matches Some((end, m)) ==> match decision(
            contract.functions@,
            build_early_abort(contract),
            host@.call_data,
            host@.context[Primitive::GetMsgValue.index_of() as int],
            outcomes(decodings@),
            0,
        ) {
            Decision::Revert => end matches End::Halted(h) && h@ == reverted(),
            Decision::Enter(f) => end == End::Entered(f),
        },
{
    if ns.address_length < 1 || ns.address_length > 32 || ns.value_length != 32 {
        return None;
    }
    if decodings.len() < contract.functions.len() {
        return None;
    }
    let mut k: usize = 0;
    while k < contract.functions.len()
        invariant
            k <= contract.functions@.len(),
            contract.functions@.len() <= decodings@.len(),
            forall|j: int|
                0 <= j < k ==> (outcomes(decodings@)[0 + j] matches Some(values) ==> values.len()
                    == (#[trigger] contract.functions@[j]).params@.len()),
        decreases contract.functions@.len() - k,
    {
        match &decodings[k] {
            Some(values) => {
                if values.len() != contract.functions[k].params.len() {
                    assert(!decodable(outcomes(decodings@), contract.functions@, 0)) by {
                        assert(outcomes(decodings@)[0 + k as int] matches Some(v) && v.len()
                            != contract.functions@[k as int].params@.len());
                    }
                    return None;
                }
            },
            None => {},
        }
        k += 1;
    }
    assert(decodable(outcomes(decodings@), contract.functions@, 0));
    if host.context.len() != 38 || host.context[Primitive::GetMsgValue.index()].len()
        != ns.value_length as usize || host.call_data.len() > MAX_CALL_DATA {
        return None;
    }
    let binary = match LachainTarget::build(contract, ns, "", OptLevel::Nothing, false) {
        Ok(binary) => binary,
        Err(_) => {
            return None;
        },
    };
    if binary.next_reg > usize::MAX - 4 {
        return None;
    }
    let ghost before = host@;
    proof {
        let globals = rows(binary.globals@);
        let s = State {
            regs: Seq::empty(),
            mem: initial_memory(globals),
            globals: initial_addresses(globals),
            encodings: Seq::empty(),
            decodings: outcomes(decodings@),
            host: before,
        };
        lemma_initial_state(globals, s);
    }
    let mut machine = match Machine::new(host, &binary.globals, Vec::new(), decodings) {
        Some(machine) => machine,
        None => {
            return None;
        },
    };
    let ghost start = machine@;
    proof {
        lemma_initial_state(rows(binary.globals@), start);
        assert(has_value(start, ns));
        assert(crate::entry_laws::can_start(
            start,
            contract.functions@,
            build_early_abort(contract),
            ns,
            0,
            0,
        ));
        law_dispatch(start, contract.functions@, build_early_abort(contract), ns, 0, 0);
    }
    let end = machine.run(&binary.code);
    Some((end, machine))
}

} // verus!
