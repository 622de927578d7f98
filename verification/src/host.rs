//! The host interface: every native primitive that generated code may call,
//! with its name and signature. This is the system-call table of the target.

use vstd::prelude::*;

verus! {

/// Type of one parameter of a host primitive.
#[derive(Clone, Copy, Debug, PartialEq, Eq, Structural)]
pub enum ParamTy {
    /// Pointer into linear memory.
    BytePtr,
    /// 32-bit integer.
    U32,
    /// 8-bit integer.
    U8,
}

/// What a host primitive hands back.
#[derive(Clone, Copy, Debug, PartialEq, Eq, Structural)]
pub enum RetTy {
    Void,
    /// 32-bit integer: a size, or a status where 0 means success.
    U32,
}

/// Identifier of a host primitive.
#[derive(Clone, Copy, Debug, PartialEq, Eq, Structural)]
pub enum Primitive {
    /// `save_storage`. Writes the 32-byte word at the second pointer under the 32-byte key at the first.
    SaveStorage,
    /// `load_storage`. Reads the 32-byte word stored under the key at the first pointer into the second.
    LoadStorage,
    /// `save_storage_string`. Stores a byte string: key, data, length.
    SaveStorageString,
    /// `load_storage_string`. Copies the byte string stored under the key into the result buffer.
    LoadStorageString,
    /// `get_storage_string_size`. Length of the byte string stored under the key.
    GetStorageStringSize,
    /// `get_call_size`. Length of the call data.
    GetCallSize,
    /// `get_return_size`. Length of the data returned by the last external call.
    GetReturnSize,
    /// `copy_call_value`. Copies call data `from .. to` into the buffer.
    CopyCallValue,
    /// `copy_return_value`. Copies `length` bytes of return data from `offset` into the buffer.
    CopyReturnValue,
    /// `invoke_contract`. Calls a contract: address, input length, input, value, gas.
    InvokeContract,
    /// `invoke_static_contract`. Calls a contract without letting it change state.
    InvokeStaticContract,
    /// `invoke_delegate_contract`. Runs another contract's code on the caller's state.
    InvokeDelegateContract,
    /// `transfer`. Sends value to an address: address, value.
    Transfer,
    /// `get_msgvalue`. Value sent along with the invocation.
    GetMsgValue,
    /// `get_address`. Address of the running contract.
    GetAddress,
    /// `get_sender`. Address of the caller.
    GetSender,
    /// `get_external_balance`. Balance of the account at the first pointer.
    GetExternalBalance,
    /// `get_gas_left`. Gas left to the invocation.
    GetGasLeft,
    /// `get_tx_gas_price`. Gas price of the transaction.
    GetTxGasPrice,
    /// `get_tx_origin`. Address that signed the transaction.
    GetTxOrigin,
    /// `get_block_number`. Number of the current block.
    GetBlockNumber,
    /// `get_block_hash`. Hash of the block whose number is at the first pointer.
    GetBlockHash,
    /// `get_block_gas_limit`. Gas limit of the current block.
    GetBlockGasLimit,
    /// `get_block_difficulty`. Difficulty of the current block.
    GetBlockDifficulty,
    /// `get_block_coinbase_address`. Address credited with the current block.
    GetBlockCoinbaseAddress,
    /// `get_block_timestamp`. Timestamp of the current block.
    GetBlockTimestamp,
    /// `get_chain_id`. Identifier of the chain.
    GetChainId,
    /// `create`. Deploys a contract: value, code and arguments, length, result address.
    Create,
    /// `create2`. Deploys a contract at an address fixed by a salt: value, data, length, salt, result.
    Create2,
    /// `write_log`. Appends an entry to the event log.
    WriteLog,
    /// `set_return`. Names the data that the invocation hands back.
    SetReturn,
    /// `crypto_keccak256`. Keccak-256 of the input: data, length, 32-byte result.
    CryptoKeccak256,
    /// `crypto_ripemd160`. RIPEMD-160 of the input: data, length, 20-byte result.
    CryptoRipemd160,
    /// `crypto_sha256`. SHA-256 of the input: data, length, 32-byte result.
    CryptoSha256,
    /// `crypto_recover`. Recovers the signer: hash, v, r, s, result address.
    CryptoRecover,
    /// `system_halt`. Ends the invocation with a status code. Never returns.
    SystemHalt,
    /// `printMem`. Debug output of a byte range. Not part of the standard table.
    PrintMem,
    /// `selfDestruct`. Destroys the contract and sends its funds on. Not part of the standard table.
    SelfDestruct,
}

/// One entry of the host interface.
pub struct HostPrimitive {
    pub id: Primitive,
    pub name: &'static str,
    pub params: Vec<ParamTy>,
    pub ret: RetTy,
    /// The primitive never hands control back.
    pub noreturn: bool,
}

/// Number of primitives in the standard table.
pub const STANDARD_PRIMITIVES: usize = 36;

impl Primitive {
    /// Name under which the host exports the primitive.
    pub open spec fn name_of(self) -> Seq<char> {
        match self {
            Primitive::SaveStorage => "save_storage"@,
            Primitive::LoadStorage => "load_storage"@,
            Primitive::SaveStorageString => "save_storage_string"@,
            Primitive::LoadStorageString => "load_storage_string"@,
            Primitive::GetStorageStringSize => "get_storage_string_size"@,
            Primitive::GetCallSize => "get_call_size"@,
            Primitive::GetReturnSize => "get_return_size"@,
            Primitive::CopyCallValue => "copy_call_value"@,
            Primitive::CopyReturnValue => "copy_return_value"@,
            Primitive::InvokeContract => "invoke_contract"@,
            Primitive::InvokeStaticContract => "invoke_static_contract"@,
            Primitive::InvokeDelegateContract => "invoke_delegate_contract"@,
            Primitive::Transfer => "transfer"@,
            Primitive::GetMsgValue => "get_msgvalue"@,
            Primitive::GetAddress => "get_address"@,
            Primitive::GetSender => "get_sender"@,
            Primitive::GetExternalBalance => "get_external_balance"@,
            Primitive::GetGasLeft => "get_gas_left"@,
            Primitive::GetTxGasPrice => "get_tx_gas_price"@,
            Primitive::GetTxOrigin => "get_tx_origin"@,
            Primitive::GetBlockNumber => "get_block_number"@,
            Primitive::GetBlockHash => "get_block_hash"@,
            Primitive::GetBlockGasLimit => "get_block_gas_limit"@,
            Primitive::GetBlockDifficulty => "get_block_difficulty"@,
            Primitive::GetBlockCoinbaseAddress => "get_block_coinbase_address"@,
            Primitive::GetBlockTimestamp => "get_block_timestamp"@,
            Primitive::GetChainId => "get_chain_id"@,
            Primitive::Create => "create"@,
            Primitive::Create2 => "create2"@,
            Primitive::WriteLog => "write_log"@,
            Primitive::SetReturn => "set_return"@,
            Primitive::CryptoKeccak256 => "crypto_keccak256"@,
            Primitive::CryptoRipemd160 => "crypto_ripemd160"@,
            Primitive::CryptoSha256 => "crypto_sha256"@,
            Primitive::CryptoRecover => "crypto_recover"@,
            Primitive::SystemHalt => "system_halt"@,
            Primitive::PrintMem => "printMem"@,
            Primitive::SelfDestruct => "selfDestruct"@,
        }
    }

    /// Parameter types, in the order the host expects them.
    pub open spec fn params_of(self) -> Seq<ParamTy> {
        match self {
            Primitive::SaveStorage => seq![ParamTy::BytePtr, ParamTy::BytePtr],
            Primitive::LoadStorage => seq![ParamTy::BytePtr, ParamTy::BytePtr],
            Primitive::SaveStorageString => seq![ParamTy::BytePtr, ParamTy::BytePtr, ParamTy::U32],
            Primitive::LoadStorageString => seq![ParamTy::BytePtr, ParamTy::BytePtr],
            Primitive::GetStorageStringSize => seq![ParamTy::BytePtr],
            Primitive::GetCallSize => Seq::empty(),
            Primitive::GetReturnSize => Seq::empty(),
            Primitive::CopyCallValue => seq![ParamTy::U32, ParamTy::U32, ParamTy::BytePtr],
            Primitive::CopyReturnValue => seq![ParamTy::BytePtr, ParamTy::U32, ParamTy::U32],
            Primitive::InvokeContract => seq![ParamTy::BytePtr, ParamTy::U32, ParamTy::BytePtr, ParamTy::BytePtr, ParamTy::BytePtr],
            Primitive::InvokeStaticContract => seq![ParamTy::BytePtr, ParamTy::U32, ParamTy::BytePtr, ParamTy::BytePtr, ParamTy::BytePtr],
            Primitive::InvokeDelegateContract => seq![ParamTy::BytePtr, ParamTy::U32, ParamTy::BytePtr, ParamTy::BytePtr, ParamTy::BytePtr],
            Primitive::Transfer => seq![ParamTy::BytePtr, ParamTy::BytePtr],
            Primitive::GetMsgValue => seq![ParamTy::BytePtr],
            Primitive::GetAddress => seq![ParamTy::BytePtr],
            Primitive::GetSender => seq![ParamTy::BytePtr],
            Primitive::GetExternalBalance => seq![ParamTy::BytePtr, ParamTy::BytePtr],
            Primitive::GetGasLeft => seq![ParamTy::BytePtr],
            Primitive::GetTxGasPrice => seq![ParamTy::BytePtr],
            Primitive::GetTxOrigin => seq![ParamTy::BytePtr],
            Primitive::GetBlockNumber => seq![ParamTy::BytePtr],
            Primitive::GetBlockHash => seq![ParamTy::BytePtr, ParamTy::BytePtr],
            Primitive::GetBlockGasLimit => seq![ParamTy::BytePtr],
            Primitive::GetBlockDifficulty => seq![ParamTy::BytePtr],
            Primitive::GetBlockCoinbaseAddress => seq![ParamTy::BytePtr],
            Primitive::GetBlockTimestamp => seq![ParamTy::BytePtr],
            Primitive::GetChainId => seq![ParamTy::BytePtr],
            Primitive::Create => seq![ParamTy::BytePtr, ParamTy::BytePtr, ParamTy::U32, ParamTy::BytePtr],
            Primitive::Create2 => seq![ParamTy::BytePtr, ParamTy::BytePtr, ParamTy::U32, ParamTy::BytePtr, ParamTy::BytePtr],
            Primitive::WriteLog => seq![ParamTy::BytePtr, ParamTy::U32],
            Primitive::SetReturn => seq![ParamTy::BytePtr, ParamTy::U32],
            Primitive::CryptoKeccak256 => seq![ParamTy::BytePtr, ParamTy::U32, ParamTy::BytePtr],
            Primitive::CryptoRipemd160 => seq![ParamTy::BytePtr, ParamTy::U32, ParamTy::BytePtr],
            Primitive::CryptoSha256 => seq![ParamTy::BytePtr, ParamTy::U32, ParamTy::BytePtr],
            Primitive::CryptoRecover => seq![ParamTy::BytePtr, ParamTy::U8, ParamTy::BytePtr, ParamTy::BytePtr, ParamTy::BytePtr],
            Primitive::SystemHalt => seq![ParamTy::U32],
            Primitive::PrintMem => seq![ParamTy::BytePtr, ParamTy::U32],
            Primitive::SelfDestruct => seq![ParamTy::BytePtr],
        }
    }

    /// Whether the primitive returns a 32-bit integer rather than nothing.
    pub open spec fn returns_word(self) -> bool {
        match self {
            Primitive::GetStorageStringSize => true,
            Primitive::GetCallSize => true,
            Primitive::GetReturnSize => true,
            Primitive::InvokeContract => true,
            Primitive::InvokeStaticContract => true,
            Primitive::InvokeDelegateContract => true,
            Primitive::Transfer => true,
            Primitive::Create => true,
            Primitive::Create2 => true,
            _ => false,
        }
    }

    /// Whether the primitive ends the invocation.
    pub open spec fn is_noreturn(self) -> bool {
        self == Primitive::SystemHalt
    }

    /// Position in the standard table; the two primitives outside it follow.
    pub open spec fn index_of(self) -> nat {
        match self {
            Primitive::SaveStorage => 0,
            Primitive::LoadStorage => 1,
            Primitive::SaveStorageString => 2,
            Primitive::LoadStorageString => 3,
            Primitive::GetStorageStringSize => 4,
            Primitive::GetCallSize => 5,
            Primitive::GetReturnSize => 6,
            Primitive::CopyCallValue => 7,
            Primitive::CopyReturnValue => 8,
            Primitive::InvokeContract => 9,
            Primitive::InvokeStaticContract => 10,
            Primitive::InvokeDelegateContract => 11,
            Primitive::Transfer => 12,
            Primitive::GetMsgValue => 13,
            Primitive::GetAddress => 14,
            Primitive::GetSender => 15,
            Primitive::GetExternalBalance => 16,
            Primitive::GetGasLeft => 17,
            Primitive::GetTxGasPrice => 18,
            Primitive::GetTxOrigin => 19,
            Primitive::GetBlockNumber => 20,
            Primitive::GetBlockHash => 21,
            Primitive::GetBlockGasLimit => 22,
            Primitive::GetBlockDifficulty => 23,
            Primitive::GetBlockCoinbaseAddress => 24,
            Primitive::GetBlockTimestamp => 25,
            Primitive::GetChainId => 26,
            Primitive::Create => 27,
            Primitive::Create2 => 28,
            Primitive::WriteLog => 29,
            Primitive::SetReturn => 30,
            Primitive::CryptoKeccak256 => 31,
            Primitive::CryptoRipemd160 => 32,
            Primitive::CryptoSha256 => 33,
            Primitive::CryptoRecover => 34,
            Primitive::SystemHalt => 35,
            Primitive::PrintMem => 36,
            Primitive::SelfDestruct => 37,
        }
    }

    /// Whether the standard table holds the primitive.
    pub open spec fn is_standard(self) -> bool {
        self.index_of() < STANDARD_PRIMITIVES
    }

    pub fn name(self) -> (out: &'static str)
        ensures
            out@ == self.name_of(),
    {
        match self {
            Primitive::SaveStorage => "save_storage",
            Primitive::LoadStorage => "load_storage",
            Primitive::SaveStorageString => "save_storage_string",
            Primitive::LoadStorageString => "load_storage_string",
            Primitive::GetStorageStringSize => "get_storage_string_size",
            Primitive::GetCallSize => "get_call_size",
            Primitive::GetReturnSize => "get_return_size",
            Primitive::CopyCallValue => "copy_call_value",
            Primitive::CopyReturnValue => "copy_return_value",
            Primitive::InvokeContract => "invoke_contract",
            Primitive::InvokeStaticContract => "invoke_static_contract",
            Primitive::InvokeDelegateContract => "invoke_delegate_contract",
            Primitive::Transfer => "transfer",
            Primitive::GetMsgValue => "get_msgvalue",
            Primitive::GetAddress => "get_address",
            Primitive::GetSender => "get_sender",
            Primitive::GetExternalBalance => "get_external_balance",
            Primitive::GetGasLeft => "get_gas_left",
            Primitive::GetTxGasPrice => "get_tx_gas_price",
            Primitive::GetTxOrigin => "get_tx_origin",
            Primitive::GetBlockNumber => "get_block_number",
            Primitive::GetBlockHash => "get_block_hash",
            Primitive::GetBlockGasLimit => "get_block_gas_limit",
            Primitive::GetBlockDifficulty => "get_block_difficulty",
            Primitive::GetBlockCoinbaseAddress => "get_block_coinbase_address",
            Primitive::GetBlockTimestamp => "get_block_timestamp",
            Primitive::GetChainId => "get_chain_id",
            Primitive::Create => "create",
            Primitive::Create2 => "create2",
            Primitive::WriteLog => "write_log",
            Primitive::SetReturn => "set_return",
            Primitive::CryptoKeccak256 => "crypto_keccak256",
            Primitive::CryptoRipemd160 => "crypto_ripemd160",
            Primitive::CryptoSha256 => "crypto_sha256",
            Primitive::CryptoRecover => "crypto_recover",
            Primitive::SystemHalt => "system_halt",
            Primitive::PrintMem => "printMem",
            Primitive::SelfDestruct => "selfDestruct",
        }
    }

    pub fn params(self) -> (out: Vec<ParamTy>)
        ensures
            out@ == self.params_of(),
    {
        let out = match self {
            Primitive::SaveStorage => vec![ParamTy::BytePtr, ParamTy::BytePtr],
            Primitive::LoadStorage => vec![ParamTy::BytePtr, ParamTy::BytePtr],
            Primitive::SaveStorageString => vec![ParamTy::BytePtr, ParamTy::BytePtr, ParamTy::U32],
            Primitive::LoadStorageString => vec![ParamTy::BytePtr, ParamTy::BytePtr],
            Primitive::GetStorageStringSize => vec![ParamTy::BytePtr],
            Primitive::GetCallSize => Vec::new(),
            Primitive::GetReturnSize => Vec::new(),
            Primitive::CopyCallValue => vec![ParamTy::U32, ParamTy::U32, ParamTy::BytePtr],
            Primitive::CopyReturnValue => vec![ParamTy::BytePtr, ParamTy::U32, ParamTy::U32],
            Primitive::InvokeContract => vec![ParamTy::BytePtr, ParamTy::U32, ParamTy::BytePtr, ParamTy::BytePtr, ParamTy::BytePtr],
            Primitive::InvokeStaticContract => vec![ParamTy::BytePtr, ParamTy::U32, ParamTy::BytePtr, ParamTy::BytePtr, ParamTy::BytePtr],
            Primitive::InvokeDelegateContract => vec![ParamTy::BytePtr, ParamTy::U32, ParamTy::BytePtr, ParamTy::BytePtr, ParamTy::BytePtr],
            Primitive::Transfer => vec![ParamTy::BytePtr, ParamTy::BytePtr],
            Primitive::GetMsgValue => vec![ParamTy::BytePtr],
            Primitive::GetAddress => vec![ParamTy::BytePtr],
            Primitive::GetSender => vec![ParamTy::BytePtr],
            Primitive::GetExternalBalance => vec![ParamTy::BytePtr, ParamTy::BytePtr],
            Primitive::GetGasLeft => vec![ParamTy::BytePtr],
            Primitive::GetTxGasPrice => vec![ParamTy::BytePtr],
            Primitive::GetTxOrigin => vec![ParamTy::BytePtr],
            Primitive::GetBlockNumber => vec![ParamTy::BytePtr],
            Primitive::GetBlockHash => vec![ParamTy::BytePtr, ParamTy::BytePtr],
            Primitive::GetBlockGasLimit => vec![ParamTy::BytePtr],
            Primitive::GetBlockDifficulty => vec![ParamTy::BytePtr],
            Primitive::GetBlockCoinbaseAddress => vec![ParamTy::BytePtr],
            Primitive::GetBlockTimestamp => vec![ParamTy::BytePtr],
            Primitive::GetChainId => vec![ParamTy::BytePtr],
            Primitive::Create => vec![ParamTy::BytePtr, ParamTy::BytePtr, ParamTy::U32, ParamTy::BytePtr],
            Primitive::Create2 => vec![ParamTy::BytePtr, ParamTy::BytePtr, ParamTy::U32, ParamTy::BytePtr, ParamTy::BytePtr],
            Primitive::WriteLog => vec![ParamTy::BytePtr, ParamTy::U32],
            Primitive::SetReturn => vec![ParamTy::BytePtr, ParamTy::U32],
            Primitive::CryptoKeccak256 => vec![ParamTy::BytePtr, ParamTy::U32, ParamTy::BytePtr],
            Primitive::CryptoRipemd160 => vec![ParamTy::BytePtr, ParamTy::U32, ParamTy::BytePtr],
            Primitive::CryptoSha256 => vec![ParamTy::BytePtr, ParamTy::U32, ParamTy::BytePtr],
            Primitive::CryptoRecover => vec![ParamTy::BytePtr, ParamTy::U8, ParamTy::BytePtr, ParamTy::BytePtr, ParamTy::BytePtr],
            Primitive::SystemHalt => vec![ParamTy::U32],
            Primitive::PrintMem => vec![ParamTy::BytePtr, ParamTy::U32],
            Primitive::SelfDestruct => vec![ParamTy::BytePtr],
        };
        assert(out@ =~= self.params_of());
        out
    }

    pub fn ret(self) -> (out: RetTy)
        ensures
            out == (if self.returns_word() {
                RetTy::U32
            } else {
                RetTy::Void
            }),
    {
        match self {
            Primitive::GetStorageStringSize => RetTy::U32,
            Primitive::GetCallSize => RetTy::U32,
            Primitive::GetReturnSize => RetTy::U32,
            Primitive::InvokeContract => RetTy::U32,
            Primitive::InvokeStaticContract => RetTy::U32,
            Primitive::InvokeDelegateContract => RetTy::U32,
            Primitive::Transfer => RetTy::U32,
            Primitive::Create => RetTy::U32,
            Primitive::Create2 => RetTy::U32,
            _ => RetTy::Void,
        }
    }

    pub fn noreturn(self) -> (out: bool)
        ensures
            out == self.is_noreturn(),
    {
        match self {
            Primitive::SystemHalt => true,
            _ => false,
        }
    }

    pub fn index(self) -> (out: usize)
        ensures
            out == self.index_of(),
            out < 38,
    {
        match self {
            Primitive::SaveStorage => 0,
            Primitive::LoadStorage => 1,
            Primitive::SaveStorageString => 2,
            Primitive::LoadStorageString => 3,
            Primitive::GetStorageStringSize => 4,
            Primitive::GetCallSize => 5,
            Primitive::GetReturnSize => 6,
            Primitive::CopyCallValue => 7,
            Primitive::CopyReturnValue => 8,
            Primitive::InvokeContract => 9,
            Primitive::InvokeStaticContract => 10,
            Primitive::InvokeDelegateContract => 11,
            Primitive::Transfer => 12,
            Primitive::GetMsgValue => 13,
            Primitive::GetAddress => 14,
            Primitive::GetSender => 15,
            Primitive::GetExternalBalance => 16,
            Primitive::GetGasLeft => 17,
            Primitive::GetTxGasPrice => 18,
            Primitive::GetTxOrigin => 19,
            Primitive::GetBlockNumber => 20,
            Primitive::GetBlockHash => 21,
            Primitive::GetBlockGasLimit => 22,
            Primitive::GetBlockDifficulty => 23,
            Primitive::GetBlockCoinbaseAddress => 24,
            Primitive::GetBlockTimestamp => 25,
            Primitive::GetChainId => 26,
            Primitive::Create => 27,
            Primitive::Create2 => 28,
            Primitive::WriteLog => 29,
            Primitive::SetReturn => 30,
            Primitive::CryptoKeccak256 => 31,
            Primitive::CryptoRipemd160 => 32,
            Primitive::CryptoSha256 => 33,
            Primitive::CryptoRecover => 34,
            Primitive::SystemHalt => 35,
            Primitive::PrintMem => 36,
            Primitive::SelfDestruct => 37,
        }
    }

    /// The full entry of the host interface for this primitive.
    pub fn signature(self) -> (out: HostPrimitive)
        ensures
            out.id == self,
            out.name@ == self.name_of(),
            out.params@ == self.params_of(),
            out.ret == (if self.returns_word() {
                RetTy::U32
            } else {
                RetTy::Void
            }),
            out.noreturn == self.is_noreturn(),
    {
        HostPrimitive {
            id: self,
            name: self.name(),
            params: self.params(),
            ret: self.ret(),
            noreturn: self.noreturn(),
        }
    }
}

/// The standard table, in declaration order.
pub open spec fn standard_table() -> Seq<Primitive> {
    seq![
        Primitive::SaveStorage,
        Primitive::LoadStorage,
        Primitive::SaveStorageString,
        Primitive::LoadStorageString,
        Primitive::GetStorageStringSize,
        Primitive::GetCallSize,
        Primitive::GetReturnSize,
        Primitive::CopyCallValue,
        Primitive::CopyReturnValue,
        Primitive::InvokeContract,
        Primitive::InvokeStaticContract,
        Primitive::InvokeDelegateContract,
        Primitive::Transfer,
        Primitive::GetMsgValue,
        Primitive::GetAddress,
        Primitive::GetSender,
        Primitive::GetExternalBalance,
        Primitive::GetGasLeft,
        Primitive::GetTxGasPrice,
        Primitive::GetTxOrigin,
        Primitive::GetBlockNumber,
        Primitive::GetBlockHash,
        Primitive::GetBlockGasLimit,
        Primitive::GetBlockDifficulty,
        Primitive::GetBlockCoinbaseAddress,
        Primitive::GetBlockTimestamp,
        Primitive::GetChainId,
        Primitive::Create,
        Primitive::Create2,
        Primitive::WriteLog,
        Primitive::SetReturn,
        Primitive::CryptoKeccak256,
        Primitive::CryptoRipemd160,
        Primitive::CryptoSha256,
        Primitive::CryptoRecover,
        Primitive::SystemHalt,
    ]
}

/// The standard table, in declaration order.
pub fn standard_primitives() -> (out: Vec<Primitive>)
    ensures
        out@ == standard_table(),
{
    let out = vec![
        Primitive::SaveStorage,
        Primitive::LoadStorage,
        Primitive::SaveStorageString,
        Primitive::LoadStorageString,
        Primitive::GetStorageStringSize,
        Primitive::GetCallSize,
        Primitive::GetReturnSize,
        Primitive::CopyCallValue,
        Primitive::CopyReturnValue,
        Primitive::InvokeContract,
        Primitive::InvokeStaticContract,
        Primitive::InvokeDelegateContract,
        Primitive::Transfer,
        Primitive::GetMsgValue,
        Primitive::GetAddress,
        Primitive::GetSender,
        Primitive::GetExternalBalance,
        Primitive::GetGasLeft,
        Primitive::GetTxGasPrice,
        Primitive::GetTxOrigin,
        Primitive::GetBlockNumber,
        Primitive::GetBlockHash,
        Primitive::GetBlockGasLimit,
        Primitive::GetBlockDifficulty,
        Primitive::GetBlockCoinbaseAddress,
        Primitive::GetBlockTimestamp,
        Primitive::GetChainId,
        Primitive::Create,
        Primitive::Create2,
        Primitive::WriteLog,
        Primitive::SetReturn,
        Primitive::CryptoKeccak256,
        Primitive::CryptoRipemd160,
        Primitive::CryptoSha256,
        Primitive::CryptoRecover,
        Primitive::SystemHalt,
    ];
    assert(out@ =~= standard_table());
    out
}

/// The standard table lists each of its primitives once, at its own index,
/// and nothing else.
pub proof fn lemma_standard_table()
    ensures
        standard_table().len() == STANDARD_PRIMITIVES,
        forall|i: int|
            0 <= i < standard_table().len() ==> (#[trigger] standard_table()[i]).index_of() == i,
        forall|p: Primitive| p.is_standard() ==> standard_table()[p.index_of() as int] == p,
        forall|p: Primitive| standard_table().contains(p) <==> p.is_standard(),
{
    let t = standard_table();
    assert forall|i: int| 0 <= i < t.len() implies (#[trigger] t[i]).index_of() == i by {}
    assert forall|p: Primitive| p.is_standard() implies t[p.index_of() as int] == p by {}
    assert forall|p: Primitive| t.contains(p) <==> p.is_standard() by {
        if p.is_standard() {
            assert(t[p.index_of() as int] == p);
        }
        if t.contains(p) {
            let i = choose|i: int| 0 <= i < t.len() && t[i] == p;
            assert(t[i].index_of() == i);
        }
    }
}

/// Length, first and last character of a name: enough to tell the names
/// of the primitives apart.
pub open spec fn fingerprint(name: Seq<char>) -> (nat, char, char) {
    (name.len(), name[0], name[name.len() - 1])
}

/// No two primitives have the same name, so a name declares one primitive.
pub proof fn lemma_names_distinct(p: Primitive, q: Primitive)
    requires
        p != q,
    ensures
        p.name_of() != q.name_of(),
{
    reveal_strlit("save_storage");
    reveal_strlit("load_storage");
    reveal_strlit("save_storage_string");
    reveal_strlit("load_storage_string");
    reveal_strlit("get_storage_string_size");
    reveal_strlit("get_call_size");
    reveal_strlit("get_return_size");
    reveal_strlit("copy_call_value");
    reveal_strlit("copy_return_value");
    reveal_strlit("invoke_contract");
    reveal_strlit("invoke_static_contract");
    reveal_strlit("invoke_delegate_contract");
    reveal_strlit("transfer");
    reveal_strlit("get_msgvalue");
    reveal_strlit("get_address");
    reveal_strlit("get_sender");
    reveal_strlit("get_external_balance");
    reveal_strlit("get_gas_left");
    reveal_strlit("get_tx_gas_price");
    reveal_strlit("get_tx_origin");
    reveal_strlit("get_block_number");
    reveal_strlit("get_block_hash");
    reveal_strlit("get_block_gas_limit");
    reveal_strlit("get_block_difficulty");
    reveal_strlit("get_block_coinbase_address");
    reveal_strlit("get_block_timestamp");
    reveal_strlit("get_chain_id");
    reveal_strlit("create");
    reveal_strlit("create2");
    reveal_strlit("write_log");
    reveal_strlit("set_return");
    reveal_strlit("crypto_keccak256");
    reveal_strlit("crypto_ripemd160");
    reveal_strlit("crypto_sha256");
    reveal_strlit("crypto_recover");
    reveal_strlit("system_halt");
    reveal_strlit("printMem");
    reveal_strlit("selfDestruct");
    assert(fingerprint(p.name_of()) != fingerprint(q.name_of()));
}

} // verus!
