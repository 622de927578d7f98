//! The instruction vocabulary that the backend emits: loads, stores and
//! scratch allocation on the module's linear memory, calls of host primitives
//! and runtime helpers, and the forward branch that guards a bail-out.

use vstd::prelude::*;
use crate::host::{ParamTy, Primitive};

verus! {

/// A value handed to an instruction.
#[derive(Clone, Copy, Debug, PartialEq, Eq, Structural)]
pub enum Operand {
    /// The value that an earlier instruction bound to this register.
    Reg(usize),
    /// An integer constant of `bits` bits.
    Const { bits: u32, value: u64 },
    /// The null byte pointer.
    Null,
    /// The address of a module-level datum.
    Global(usize),
}

/// Arguments of a call, in the order the callee expects them.
#[derive(Clone, Copy, Debug, PartialEq, Eq, Structural)]
pub enum Args {
    Empty,
    One(Operand),
    Two(Operand, Operand),
    Three(Operand, Operand, Operand),
    Four(Operand, Operand, Operand, Operand),
    Five(Operand, Operand, Operand, Operand, Operand),
}

/// Helpers of the runtime library that is linked into every module.
#[derive(Clone, Copy, Debug, PartialEq, Eq, Structural)]
pub enum Helper {
    /// `__init_heap()`: sets up the allocator.
    InitHeap,
    /// `__malloc(size)`: a fresh buffer of `size` bytes.
    Malloc,
    /// `__memcpy(dest, src, length)`.
    Memcpy,
    /// `__bzero8(dest, count)`: zeroes `count` 8-byte units.
    Bzero8,
    /// `__be32toleN(from, to, length)`: copies the `length` low-order bytes
    /// of a 32-byte big-endian word, least significant first.
    Be32ToLeN,
    /// `__beNtoleN(from, to, length)`: copies `length` bytes in reverse order.
    BeNToLeN,
}

/// What a call instruction calls.
#[derive(Clone, Copy, Debug, PartialEq, Eq, Structural)]
pub enum Callee {
    Host(Primitive),
    Runtime(Helper),
}

/// Integer comparison.
#[derive(Clone, Copy, Debug, PartialEq, Eq, Structural)]
pub enum Predicate {
    Eq,
    Ne,
    /// Unsigned greater-or-equal, on 32-bit words.
    Uge,
}

/// 32-bit wrapping arithmetic.
#[derive(Clone, Copy, Debug, PartialEq, Eq, Structural)]
pub enum ArithOp {
    Add,
    Sub,
}

/// One emitted instruction.
#[derive(Clone, Copy, Debug, PartialEq, Eq)]
pub enum Instr {
    /// Binds `dst` to a fresh scratch buffer of `bytes` bytes whose contents
    /// are unspecified.
    Alloca { dst: usize, bytes: u32 },
    /// Binds `dst` to the `bytes` bytes at `ptr`, read as one integer.
    Load { dst: usize, ptr: Operand, bytes: u32 },
    /// Writes `value`, at its own width, to `ptr`.
    Store { ptr: Operand, value: Operand },
    /// Binds `dst` to the pointer `delta` bytes past `base`.
    Offset { dst: usize, base: Operand, delta: Operand },
    /// Binds `dst` to `lhs op rhs`.
    Arith { dst: usize, op: ArithOp, lhs: Operand, rhs: Operand },
    /// Binds `dst` to the one-bit outcome of the comparison.
    Compare { dst: usize, pred: Predicate, lhs: Operand, rhs: Operand },
    /// Calls a host primitive or a runtime helper; `result` is the register
    /// that takes what the callee returns.
    Call { result: Option<usize>, callee: Callee, args: Args },
    /// Binds `dst` to the number of bytes that the codec will write for `job`.
    EncodedLength { dst: usize, job: usize },
    /// Lets the codec write the encoding of `job` at `dest`.
    Encode { dest: Operand, job: usize },
    /// Binds `dst` to a length-prefixed buffer that holds the encoding of `job`.
    EncodeVector { dst: usize, job: usize },
    /// Lets the codec decode `len` bytes at `data` as the types of `job`,
    /// binding the registers from `first` on to the decoded values. Data
    /// that is too short or malformed reverts the invocation with no data.
    Decode { first: usize, data: Operand, len: Operand, job: usize },
    /// Enters the body of a contract function with the `count` decoded
    /// arguments from register `first` on. The body ends the invocation
    /// itself; control never comes back.
    Invoke { function: usize, first: usize, count: usize },
    /// Continues behind the next `count` instructions if `cond` holds, and
    /// with them if it does not.
    SkipIf { cond: Operand, count: usize },
    /// Marks a point that control never reaches.
    Unreachable,
}

/// Types of the contract ABI, as far as the backend names them.
#[derive(Clone, Copy, Debug, PartialEq, Eq, Structural)]
pub enum AbiType {
    Uint(u16),
    Int(u16),
    Bool,
    Address,
    Bytes(u8),
    String,
    DynamicBytes,
}

/// One piece of work for the ABI codec: the values to encode, or the types to
/// decode.
#[derive(Clone, Debug, PartialEq, Eq)]
pub struct CodecJob {
    /// Operands are pointers to the values rather than the values.
    pub load: bool,
    /// Integers have their bytes swapped once more.
    pub bswap: bool,
    /// Values written first, at their own width and without padding.
    pub packed: Vec<Operand>,
    /// Values encoded as a tuple after the packed ones.
    pub args: Vec<Operand>,
    /// Types of the packed values, then of the tuple's fields.
    pub tys: Vec<AbiType>,
}

/// Storage shapes and expressions that this target does not lower.
#[derive(Clone, Copy, Debug, PartialEq, Eq, Structural)]
pub enum Feature {
    /// External function pointers in storage.
    StorageExternalFunction,
    /// Element access on a dynamic byte string in storage.
    StorageBytesSubscript,
    /// `push` on a storage array.
    StoragePush,
    /// `pop` on a storage array.
    StoragePop,
    /// A builtin expression outside the table of the target.
    Builtin,
    /// A hash function that the host does not offer.
    Hash,
}

/// Why compilation stops. None of these is a runtime condition.
#[derive(Clone, Copy, Debug, PartialEq, Eq, Structural)]
pub enum CompileError {
    /// The module does not declare a primitive that the code needs.
    UndeclaredPrimitive(Primitive),
    /// The operation is unsupported on this target.
    Unsupported(Feature),
    /// A value's width is not between 1 and 256 bits.
    BadWidth(u32),
    /// A constant blob is too long for a 32-bit length.
    BlobTooLarge,
    /// The function under construction has no register left.
    OutOfRegisters,
}

/// A piece of codec work as a mathematical value.
pub struct JobSpec {
    pub load: bool,
    pub bswap: bool,
    pub packed: Seq<Operand>,
    pub args: Seq<Operand>,
    pub tys: Seq<AbiType>,
}

impl View for CodecJob {
    type V = JobSpec;

    open spec fn view(&self) -> JobSpec {
        JobSpec {
            load: self.load,
            bswap: self.bswap,
            packed: self.packed@,
            args: self.args@,
            tys: self.tys@,
        }
    }
}

impl Args {
    /// The arguments as a sequence.
    pub open spec fn list(self) -> Seq<Operand> {
        match self {
            Args::Empty => Seq::empty(),
            Args::One(a) => seq![a],
            Args::Two(a, b) => seq![a, b],
            Args::Three(a, b, c) => seq![a, b, c],
            Args::Four(a, b, c, d) => seq![a, b, c, d],
            Args::Five(a, b, c, d, e) => seq![a, b, c, d, e],
        }
    }

    /// The arguments as a vector.
    pub fn to_vec(self) -> (out: Vec<Operand>)
        ensures
            out@ == self.list(),
    {
        let out = match self {
            Args::Empty => Vec::new(),
            Args::One(a) => vec![a],
            Args::Two(a, b) => vec![a, b],
            Args::Three(a, b, c) => vec![a, b, c],
            Args::Four(a, b, c, d) => vec![a, b, c, d],
            Args::Five(a, b, c, d, e) => vec![a, b, c, d, e],
        };
        assert(out@ =~= self.list());
        out
    }
}

impl Helper {
    /// Parameter types, in the order the helper expects them.
    pub open spec fn params_of(self) -> Seq<ParamTy> {
        match self {
            Helper::InitHeap => Seq::empty(),
            Helper::Malloc => seq![ParamTy::U32],
            Helper::Bzero8 => seq![ParamTy::BytePtr, ParamTy::U32],
            _ => seq![ParamTy::BytePtr, ParamTy::BytePtr, ParamTy::U32],
        }
    }

    /// Parameter types, in the order the helper expects them.
    pub fn params(self) -> (out: Vec<ParamTy>)
        ensures
            out@ == self.params_of(),
    {
        let out = match self {
            Helper::InitHeap => Vec::new(),
            Helper::Malloc => vec![ParamTy::U32],
            Helper::Bzero8 => vec![ParamTy::BytePtr, ParamTy::U32],
            _ => vec![ParamTy::BytePtr, ParamTy::BytePtr, ParamTy::U32],
        };
        assert(out@ =~= self.params_of());
        out
    }

    /// Position of the helper in the list of helpers.
    pub open spec fn index_of(self) -> nat {
        match self {
            Helper::InitHeap => 0,
            Helper::Malloc => 1,
            Helper::Memcpy => 2,
            Helper::Bzero8 => 3,
            Helper::Be32ToLeN => 4,
            Helper::BeNToLeN => 5,
        }
    }

    /// Position of the helper in the list of helpers.
    pub fn index(self) -> (out: usize)
        ensures
            out == self.index_of(),
            out < 6,
    {
        match self {
            Helper::InitHeap => 0,
            Helper::Malloc => 1,
            Helper::Memcpy => 2,
            Helper::Bzero8 => 3,
            Helper::Be32ToLeN => 4,
            Helper::BeNToLeN => 5,
        }
    }

    /// Whether the helper returns a pointer; the others return nothing.
    pub open spec fn returns_pointer(self) -> bool {
        self == Helper::Malloc
    }

    /// Name of the helper in the runtime library.
    pub open spec fn name_of(self) -> Seq<char> {
        match self {
            Helper::InitHeap => "__init_heap"@,
            Helper::Malloc => "__malloc"@,
            Helper::Memcpy => "__memcpy"@,
            Helper::Bzero8 => "__bzero8"@,
            Helper::Be32ToLeN => "__be32toleN"@,
            Helper::BeNToLeN => "__beNtoleN"@,
        }
    }

    pub fn name(self) -> (out: &'static str)
        ensures
            out@ == self.name_of(),
    {
        match self {
            Helper::InitHeap => "__init_heap",
            Helper::Malloc => "__malloc",
            Helper::Memcpy => "__memcpy",
            Helper::Bzero8 => "__bzero8",
            Helper::Be32ToLeN => "__be32toleN",
            Helper::BeNToLeN => "__beNtoleN",
        }
    }
}

impl CompileError {
    /// A one-line diagnostic for the driver.
    pub open spec fn message_of(self) -> Seq<char> {
        match self {
            CompileError::UndeclaredPrimitive(_) => "host primitive is not declared"@,
            CompileError::Unsupported(_) => "unsupported on this target"@,
            CompileError::BadWidth(_) => "width is not between 1 and 256 bits"@,
            CompileError::BlobTooLarge => "constant data is longer than 32 bits can count"@,
            CompileError::OutOfRegisters => "function has no register left"@,
        }
    }

    pub fn message(self) -> (out: &'static str)
        ensures
            out@ == self.message_of(),
    {
        match self {
            CompileError::UndeclaredPrimitive(_) => "host primitive is not declared",
            CompileError::Unsupported(_) => "unsupported on this target",
            CompileError::BadWidth(_) => "width is not between 1 and 256 bits",
            CompileError::BlobTooLarge => "constant data is longer than 32 bits can count",
            CompileError::OutOfRegisters => "function has no register left",
        }
    }
}

} // verus!
