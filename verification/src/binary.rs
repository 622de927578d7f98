//! The module under construction: the host primitives it declares, its
//! module-level data, the work it has handed to the ABI codec, and the body
//! of the function that is being emitted.

use vstd::prelude::*;
use crate::host::Primitive;
use crate::ir::{AbiType, CodecJob, CompileError, Instr, JobSpec};

verus! {

/// Index of the module variable that holds the length of the call data.
pub const CALLDATA_LEN: usize = 0;

/// Index of the module variable that holds the pointer to the call data.
pub const CALLDATA_DATA: usize = 1;

/// Size in bytes of the header of a length-prefixed buffer: a 32-bit length
/// and a 32-bit capacity, followed by the data.
pub const VECTOR_HEADER: u32 = 8;

/// Widths that depend on the chain.
#[derive(Clone, Copy, Debug, PartialEq, Eq, Structural)]
pub struct Namespace {
    /// Bytes in an address.
    pub address_length: u8,
    /// Bytes in a value (an amount of currency): 32 on this chain.
    pub value_length: u8,
}

/// An externally callable function of a contract.
#[derive(Clone, Debug, PartialEq, Eq)]
pub struct DispatchEntry {
    /// Leading four bytes of call data that select the function, read as a
    /// big-endian number.
    pub selector: u32,
    /// Whether the function accepts value.
    pub payable: bool,
    /// Handle of the function body.
    pub function: usize,
    /// Types of the parameters.
    pub params: Vec<AbiType>,
}

/// What the backend needs to know of a type-checked contract.
#[derive(Clone, Debug, PartialEq, Eq)]
pub struct Contract {
    pub name: String,
    /// The message-call table.
    pub functions: Vec<DispatchEntry>,
}

/// How hard the later passes are to optimise the module.
#[derive(Clone, Copy, Debug, PartialEq, Eq, Structural)]
pub enum OptLevel {
    Nothing,
    Less,
    Default,
    Aggressive,
}

/// A module under construction.
#[derive(Clone, Debug, PartialEq, Eq)]
pub struct Binary {
    pub name: String,
    /// Name of the source file, for diagnostics of later passes.
    pub filename: String,
    pub opt: OptLevel,
    /// Arithmetic in function bodies is checked for overflow.
    pub math_overflow_check: bool,
    /// Host primitives declared so far, in declaration order.
    pub externals: Vec<Primitive>,
    /// Initial contents of the module-level data. The first two are the
    /// variables for the call data's length and pointer.
    pub globals: Vec<Vec<u8>>,
    /// Work handed to the ABI codec, referred to by index.
    pub jobs: Vec<CodecJob>,
    /// Body of the function being emitted.
    pub code: Vec<Instr>,
    /// The lowest register that no instruction has bound yet.
    pub next_reg: usize,
    /// No function of the contract accepts value, so value is refused once,
    /// on entry, rather than per function.
    pub function_abort_value_transfers: bool,
}

/// The first primitive of `needs` that `declared` lacks.
pub open spec fn first_missing(declared: Seq<Primitive>, needs: Seq<Primitive>) -> Option<
    Primitive,
>
    decreases needs.len(),
{
    if needs.len() == 0 {
        None
    } else if !declared.contains(needs[0]) {
        Some(needs[0])
    } else {
        first_missing(declared, needs.skip(1))
    }
}

/// Nothing is missing exactly when every needed primitive is declared, and
/// what is reported missing is needed and not declared.
pub proof fn lemma_first_missing(declared: Seq<Primitive>, needs: Seq<Primitive>)
    ensures
        first_missing(declared, needs) is None <==> forall|i: int|
            0 <= i < needs.len() ==> declared.contains(#[trigger] needs[i]),
        first_missing(declared, needs) matches Some(p) ==> needs.contains(p) && !declared.contains(
            p,
        ),
    decreases needs.len(),
{
    if needs.len() > 0 {
        let rest = needs.skip(1);
        lemma_first_missing(declared, rest);
        assert forall|i: int| 0 <= i < rest.len() implies rest[i] == needs[i + 1] by {}
        if declared.contains(needs[0]) {
            if first_missing(declared, rest) is None {
                assert forall|i: int| 0 <= i < needs.len() implies declared.contains(
                    #[trigger] needs[i],
                ) by {
                    if i > 0 {
                        assert(rest[i - 1] == needs[i]);
                    }
                }
            } else {
                let p = first_missing(declared, rest).unwrap();
                let k = choose|k: int| 0 <= k < rest.len() && rest[k] == p;
                assert(needs[k + 1] == p);
            }
        }
    }
}

impl Namespace {
    /// An address has between 1 and 32 bytes, and a value is a 256-bit word.
    pub open spec fn wf(self) -> bool {
        &&& 1 <= self.address_length <= 32
        &&& self.value_length == 32
    }
}

impl Binary {
    /// No primitive is declared twice, and the two call-data variables exist.
    pub open spec fn wf(self) -> bool {
        &&& self.externals@.no_duplicates()
        &&& self.globals@.len() >= 2
        &&& self.globals@[CALLDATA_LEN as int]@.len() == 4
        &&& self.globals@[CALLDATA_DATA as int]@.len() == 4
    }

    /// Whether the module declares `p`.
    pub open spec fn declares(self, p: Primitive) -> bool {
        self.externals@.contains(p)
    }

    /// Why emitting code that calls `needs` and binds `regs` registers
    /// fails here, if it does.
    pub open spec fn refusal(self, needs: Seq<Primitive>, regs: nat) -> Option<CompileError> {
        match first_missing(self.externals@, needs) {
            Some(p) => Some(CompileError::UndeclaredPrimitive(p)),
            None => if self.next_reg + regs > usize::MAX {
                Some(CompileError::OutOfRegisters)
            } else {
                None
            },
        }
    }

    /// `self` is `before` with `code` appended to the function body and
    /// `regs` more registers bound; declarations and tables are the same.
    pub open spec fn extends(self, before: Binary, code: Seq<Instr>, regs: nat) -> bool {
        &&& self.code@ == before.code@ + code
        &&& self.next_reg == before.next_reg + regs
        &&& self.grows(before)
        &&& self.globals@ == before.globals@
        &&& self.jobs@ == before.jobs@
    }

    /// `self` has the name, declarations and flags of `before`.
    pub open spec fn grows(self, before: Binary) -> bool {
        &&& self.name == before.name
        &&& self.filename == before.filename
        &&& self.opt == before.opt
        &&& self.math_overflow_check == before.math_overflow_check
        &&& self.externals@ == before.externals@
        &&& self.function_abort_value_transfers == before.function_abort_value_transfers
    }

    /// `self` has one job more than `before`: `job`, at the end.
    pub open spec fn adds_job(self, before: Binary, job: JobSpec) -> bool {
        &&& self.jobs@.len() == before.jobs@.len() + 1
        &&& self.jobs@.drop_last() == before.jobs@
        &&& self.jobs@.last()@ == job
    }

    /// `self` has one module-level datum more than `before`: `bytes`, at
    /// the end.
    pub open spec fn adds_global(self, before: Binary, bytes: Seq<u8>) -> bool {
        &&& self.globals@.len() == before.globals@.len() + 1
        &&& self.globals@.drop_last() == before.globals@
        &&& self.globals@.last()@ == bytes
    }

    /// An empty module: nothing declared, no code, and the two call-data
    /// variables zeroed.
    pub fn new(name: &str, filename: &str, opt: OptLevel, math_overflow_check: bool) -> (out:
        Binary)
        ensures
            out.wf(),
            out.name@ == name@,
            out.filename@ == filename@,
            out.opt == opt,
            out.math_overflow_check == math_overflow_check,
            out.externals@.len() == 0,
            out.code@.len() == 0,
            out.jobs@.len() == 0,
            out.globals@.len() == 2,
            out.globals@[0]@ == seq![0u8, 0u8, 0u8, 0u8],
            out.globals@[1]@ == seq![0u8, 0u8, 0u8, 0u8],
            out.next_reg == 0,
            !out.function_abort_value_transfers,
    {
        let len_var: Vec<u8> = vec![0u8, 0u8, 0u8, 0u8];
        let data_var: Vec<u8> = vec![0u8, 0u8, 0u8, 0u8];
        Binary {
            name: name.to_owned(),
            filename: filename.to_owned(),
            opt,
            math_overflow_check,
            externals: Vec::new(),
            globals: vec![len_var, data_var],
            jobs: Vec::new(),
            code: Vec::new(),
            next_reg: 0,
            function_abort_value_transfers: false,
        }
    }

    /// Whether the module declares `p`.
    pub fn is_declared(&self, p: Primitive) -> (out: bool)
        ensures
            out == self.declares(p),
    {
        let mut i: usize = 0;
        while i < self.externals.len()
            invariant
                i <= self.externals@.len(),
                forall|j: int| 0 <= j < i ==> self.externals@[j] != p,
            decreases self.externals@.len() - i,
        {
            if self.externals[i] == p {
                return true;
            }
            i += 1;
        }
        false
    }

    /// Declares `p`, unless the module declares it already.
    pub fn declare(&mut self, p: Primitive)
        ensures
            old(self).wf() ==> final(self).wf(),
            final(self).declares(p),
            old(self).declares(p) ==> final(self).externals@ == old(self).externals@,
            !old(self).declares(p) ==> final(self).externals@ == old(self).externals@.push(p),
            final(self).name == old(self).name,
            final(self).filename == old(self).filename,
            final(self).opt == old(self).opt,
            final(self).math_overflow_check == old(self).math_overflow_check,
            final(self).globals == old(self).globals,
            final(self).jobs == old(self).jobs,
            final(self).code == old(self).code,
            final(self).next_reg == old(self).next_reg,
            final(self).function_abort_value_transfers == old(
                self,
            ).function_abort_value_transfers,
    {
        if !self.is_declared(p) {
            self.externals.push(p);
            assert(self.externals@[self.externals@.len() - 1] == p);
        }
    }

    /// Binds `count` fresh registers and answers the first of them.
    pub fn take_regs(&mut self, count: usize) -> (out: Result<usize, CompileError>)
        ensures
            old(self).next_reg + count > usize::MAX ==> out == Err::<usize, CompileError>(
                CompileError::OutOfRegisters,
            ) && *final(self) == *old(self),
            old(self).next_reg + count <= usize::MAX ==> out == Ok::<usize, CompileError>(
                old(self).next_reg,
            ) && final(self).extends(*old(self), Seq::empty(), count as nat),
    {
        if count > usize::MAX - self.next_reg {
            return Err(CompileError::OutOfRegisters);
        }
        let first = self.next_reg;
        self.next_reg = first + count;
        assert(self.code@ + Seq::<Instr>::empty() =~= self.code@);
        Ok(first)
    }

    /// Appends `code` to the function body.
    pub fn append(&mut self, code: Vec<Instr>)
        ensures
            final(self).extends(*old(self), code@, 0),
    {
        let mut code = code;
        self.code.append(&mut code);
    }

    /// Checks that the module declares every primitive of `needs` and has
    /// `regs` registers left.
    pub fn check(&self, needs: &Vec<Primitive>, regs: usize) -> (out: Result<(), CompileError>)
        ensures
            match self.refusal(needs@, regs as nat) {
                Some(e) => out == Err::<(), CompileError>(e),
                None => out == Ok::<(), CompileError>(()),
            },
    {
        let mut i: usize = 0;
        assert(needs@.skip(0) =~= needs@);
        while i < needs.len()
            invariant
                i <= needs@.len(),
                first_missing(self.externals@, needs@) == first_missing(
                    self.externals@,
                    needs@.skip(i as int),
                ),
            decreases needs@.len() - i,
        {
            if !self.is_declared(needs[i]) {
                return Err(CompileError::UndeclaredPrimitive(needs[i]));
            }
            assert(needs@.skip(i as int).skip(1) =~= needs@.skip(i + 1));
            i += 1;
        }
        if regs > usize::MAX - self.next_reg {
            return Err(CompileError::OutOfRegisters);
        }
        Ok(())
    }

    /// Hands a job to the codec and answers its index.
    pub fn add_job(&mut self, job: CodecJob) -> (out: usize)
        ensures
            out == old(self).jobs@.len(),
            final(self).adds_job(*old(self), job@),
            final(self).grows(*old(self)),
            final(self).code == old(self).code,
            final(self).next_reg == old(self).next_reg,
            final(self).globals == old(self).globals,
    {
        let index = self.jobs.len();
        self.jobs.push(job);
        assert(self.jobs@.drop_last() =~= old(self).jobs@);
        index
    }

    /// Adds a module-level datum with the given contents and answers its
    /// index.
    pub fn add_global(&mut self, bytes: Vec<u8>) -> (out: usize)
        ensures
            out == old(self).globals@.len(),
            final(self).adds_global(*old(self), bytes@),
            final(self).grows(*old(self)),
            final(self).code == old(self).code,
            final(self).next_reg == old(self).next_reg,
            final(self).jobs == old(self).jobs,
            old(self).wf() ==> final(self).wf(),
    {
        let index = self.globals.len();
        self.globals.push(bytes);
        assert(self.globals@.drop_last() =~= old(self).globals@);
        index
    }

    /// Records whether value has to be refused on entry: it has to where no
    /// function of the contract is payable.
    pub fn set_early_value_aborts(&mut self, contract: &Contract)
        ensures
            final(self).function_abort_value_transfers == (forall|i: int|
                0 <= i < contract.functions@.len() ==> !contract.functions@[i].payable),
            final(self).name == old(self).name,
            final(self).filename == old(self).filename,
            final(self).opt == old(self).opt,
            final(self).math_overflow_check == old(self).math_overflow_check,
            final(self).externals == old(self).externals,
            final(self).globals == old(self).globals,
            final(self).jobs == old(self).jobs,
            final(self).code == old(self).code,
            final(self).next_reg == old(self).next_reg,
    {
        let mut any_payable = false;
        let mut i: usize = 0;
        while i < contract.functions.len()
            invariant
                i <= contract.functions@.len(),
                any_payable == (exists|j: int| 0 <= j < i && contract.functions@[j].payable),
            decreases contract.functions@.len() - i,
        {
            if contract.functions[i].payable {
                any_payable = true;
            }
            i += 1;
        }
        self.function_abort_value_transfers = !any_payable;
    }
}

} // verus!
