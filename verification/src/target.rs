//! The target itself. Its lowerings are spread over the files of this crate
//! by subject: termination, storage, calls and creation, hashing and context
//! builtins, the codec adapter, and the entry point.

use vstd::prelude::*;

verus! {

/// Configuration of the ABI codec for this target.
#[derive(Clone, Copy, Debug, PartialEq, Eq, Structural)]
pub struct EthAbiDecoder {
    /// Whether decoded integers have their bytes swapped once more.
    pub bswap: bool,
}

/// The Lachain target.
#[derive(Clone, Copy, Debug, PartialEq, Eq, Structural)]
pub struct LachainTarget {
    abi: EthAbiDecoder,
}

impl LachainTarget {
    /// The codec configuration of the target.
    pub closed spec fn codec(self) -> EthAbiDecoder {
        self.abi
    }

    /// The target, with a codec that leaves decoded integers as they are.
    pub fn new() -> (out: LachainTarget)
        ensures
            out.codec() == (EthAbiDecoder { bswap: false }),
    {
        LachainTarget { abi: EthAbiDecoder { bswap: false } }
    }

    /// The codec configuration of the target.
    pub fn abi(&self) -> (out: EthAbiDecoder)
        ensures
            out == self.codec(),
    {
        self.abi
    }
}

} // verus!
