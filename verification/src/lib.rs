//! Code generation backend for the Lachain virtual machine.
//!
//! The backend lowers the operations of a contract (storage access, external
//! calls, contract creation, hashing, context queries, termination, and the
//! selector dispatch at the entry point) to sequences of instructions over
//! the native primitives of the host. A reference machine gives those
//! sequences a meaning, and the laws of the lowering are proved against it.
//!
//! * `host`, `ir`, `binary`, `emit`: the host interface, the instructions,
//!   and the module under construction.
//! * `target` and, by subject, `halt`, `storage`, `calls`, `builtins`,
//!   `codec`, `entry`: the lowerings.
//! * `bytes`, `digest`, `machine`, `exec`, `runner`, `invoke`: the reference
//!   machine, as a model and as a program.
//! * `semantics`, `steps` and the files named `*_laws`: what the lowerings
//!   mean on the machine.
//! * `typing`, `llvm`: the check of emitted code and its rendering as LLVM
//!   IR.

pub mod binary;
pub mod builtin_laws;
pub mod builtins;
pub mod bytes;
pub mod call_laws;
pub mod calls;
pub mod codec;
pub mod codec_laws;
pub mod create_laws;
pub mod digest;
pub mod emit;
pub mod entry;
pub mod entry_laws;
pub mod exec;
pub mod halt;
pub mod host;
pub mod invoke;
pub mod ir;
pub mod llvm;
pub mod machine;
pub mod runner;
pub mod semantics;
pub mod steps;
pub mod storage;
pub mod storage_laws;
pub mod target;
pub mod typing;
pub mod typing_laws;
