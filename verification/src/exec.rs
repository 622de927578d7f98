//! The reference machine as a program. Every operation follows the
//! mathematical model in `machine` and is proved to come to the same
//! state.

use vstd::prelude::*;
use crate::bytes::{
    bytes_eq,
    filler,
    le_bytes,
    le_encode,
    read_bytes,
    word_decode,
    write_bytes,
    zeros,
    FILLER,
};
use crate::host::Primitive;
use crate::ir::Operand;
use crate::machine::{
    lookup,
    lookup_or,
    CallRecord,
    HaltOutcome,
    HostState,
    Pair,
    Reply,
    State,
    ADDRESS_SPACE,
};

verus! {

/// A key and what is stored under it.
#[derive(Clone, Debug, PartialEq, Eq)]
pub struct Entry {
    pub key: Vec<u8>,
    pub value: Vec<u8>,
}

/// One call that left the contract.
#[derive(Clone, Debug, PartialEq, Eq)]
pub struct Call {
    pub primitive: Primitive,
    pub target: Vec<u8>,
    pub input: Vec<u8>,
    pub value: Vec<u8>,
    pub gas: Vec<u8>,
    pub salt: Option<Vec<u8>>,
}

/// The host's answer to a call that left the contract.
#[derive(Clone, Debug, PartialEq, Eq)]
pub struct HostReply {
    pub status: u32,
    pub data: Vec<u8>,
    pub address: Vec<u8>,
}

/// How an invocation ended.
#[derive(Clone, Debug, PartialEq, Eq)]
pub struct Halt {
    pub status: u32,
    pub data_pointer: u32,
    pub data_length: u32,
    pub data: Vec<u8>,
}

/// The host as generated code sees it.
#[derive(Clone, Debug, PartialEq, Eq)]
pub struct Host {
    pub address_length: usize,
    pub storage: Vec<Entry>,
    pub strings: Vec<Entry>,
    pub balances: Vec<Entry>,
    pub block_hashes: Vec<Entry>,
    pub recoveries: Vec<Entry>,
    pub context: Vec<Vec<u8>>,
    pub call_data: Vec<u8>,
    pub return_data: Vec<u8>,
    pub replies: Vec<HostReply>,
    pub calls: Vec<Call>,
    pub events: Vec<Vec<u8>>,
    pub returned: Halt,
}

/// The whole machine.
#[derive(Clone, Debug, PartialEq, Eq)]
pub struct Machine {
    pub regs: Vec<Vec<u8>>,
    pub mem: Vec<u8>,
    pub globals: Vec<u32>,
    pub encodings: Vec<Vec<u8>>,
    /// What the codec makes of the data of each decoding job: the decoded
    /// values, or `None` for data that it cannot decode.
    pub decodings: Vec<Option<Vec<Vec<u8>>>>,
    pub host: Host,
}

/// A list of byte strings as mathematical values.
pub open spec fn rows(v: Seq<Vec<u8>>) -> Seq<Seq<u8>> {
    Seq::new(v.len(), |i: int| v[i]@)
}

/// The outcomes of decoding as mathematical values.
pub open spec fn outcomes(v: Seq<Option<Vec<Vec<u8>>>>) -> Seq<Option<Seq<Seq<u8>>>> {
    Seq::new(
        v.len(),
        |i: int|
            match v[i] {
                Some(values) => Some(rows(values@)),
                None => None,
            },
    )
}

/// A table as mathematical values.
pub open spec fn pairs(v: Seq<Entry>) -> Seq<Pair> {
    Seq::new(v.len(), |i: int| v[i]@)
}

/// A list of calls as mathematical values.
pub open spec fn records(v: Seq<Call>) -> Seq<CallRecord> {
    Seq::new(v.len(), |i: int| v[i]@)
}

/// A list of replies as mathematical values.
pub open spec fn answers(v: Seq<HostReply>) -> Seq<Reply> {
    Seq::new(v.len(), |i: int| v[i]@)
}

/// A list of addresses as mathematical values.
pub open spec fn addresses(v: Seq<u32>) -> Seq<nat> {
    Seq::new(v.len(), |i: int| v[i] as nat)
}

impl View for Entry {
    type V = Pair;

    open spec fn view(&self) -> Pair {
        Pair { key: self.key@, value: self.value@ }
    }
}

impl View for Call {
    type V = CallRecord;

    open spec fn view(&self) -> CallRecord {
        CallRecord {
            primitive: self.primitive,
            target: self.target@,
            input: self.input@,
            value: self.value@,
            gas: self.gas@,
            salt: match self.salt {
                Some(s) => Some(s@),
                None => None,
            },
        }
    }
}

impl View for HostReply {
    type V = Reply;

    open spec fn view(&self) -> Reply {
        Reply { status: self.status, data: self.data@, address: self.address@ }
    }
}

impl View for Halt {
    type V = HaltOutcome;

    open spec fn view(&self) -> HaltOutcome {
        HaltOutcome {
            status: self.status,
            data_pointer: self.data_pointer,
            data_length: self.data_length,
            data: self.data@,
        }
    }
}

impl View for Host {
    type V = HostState;

    open spec fn view(&self) -> HostState {
        HostState {
            address_length: self.address_length as nat,
            storage: pairs(self.storage@),
            strings: pairs(self.strings@),
            balances: pairs(self.balances@),
            block_hashes: pairs(self.block_hashes@),
            recoveries: pairs(self.recoveries@),
            context: rows(self.context@),
            call_data: self.call_data@,
            return_data: self.return_data@,
            replies: answers(self.replies@),
            calls: records(self.calls@),
            events: rows(self.events@),
            returned: self.returned@,
        }
    }
}

impl View for Machine {
    type V = State;

    open spec fn view(&self) -> State {
        State {
            regs: rows(self.regs@),
            mem: self.mem@,
            globals: addresses(self.globals@),
            encodings: rows(self.encodings@),
            decodings: outcomes(self.decodings@),
            host: self.host@,
        }
    }
}

/// A copy of a byte string.
pub fn copy_bytes(b: &Vec<u8>) -> (out: Vec<u8>)
    ensures
        out@ == b@,
{
    let mut out: Vec<u8> = Vec::new();
    let mut i: usize = 0;
    while i < b.len()
        invariant
            i <= b@.len(),
            out@ =~= b@.subrange(0, i as int),
        decreases b@.len() - i,
    {
        out.push(b[i]);
        i += 1;
    }
    assert(b@.subrange(0, b@.len() as int) =~= b@);
    out
}

/// A copy of a list of byte strings.
pub fn copy_rows(list: &Vec<Vec<u8>>) -> (out: Vec<Vec<u8>>)
    ensures
        rows(out@) == rows(list@),
{
    let mut out: Vec<Vec<u8>> = Vec::new();
    let mut i: usize = 0;
    while i < list.len()
        invariant
            i <= list@.len(),
            rows(out@) =~= rows(list@).subrange(0, i as int),
        decreases list@.len() - i,
    {
        let ghost before = out@;
        let row = copy_bytes(&list[i]);
        out.push(row);
        assert(rows(out@) =~= rows(before).push(row@));
        assert(rows(list@).subrange(0, i + 1) =~= rows(list@).subrange(0, i as int).push(
            list@[i as int]@,
        ));
        i += 1;
    }
    assert(rows(list@).subrange(0, list@.len() as int) =~= rows(list@));
    out
}

/// `n` filler bytes.
pub fn filler_bytes(n: usize) -> (out: Vec<u8>)
    ensures
        out@ == filler(n as nat),
{
    let mut out: Vec<u8> = Vec::new();
    let mut i: usize = 0;
    while i < n
        invariant
            i <= n,
            out@ =~= filler(i as nat),
        decreases n - i,
    {
        out.push(FILLER);
        i += 1;
    }
    out
}

/// The bytes of `b` in reverse order.
pub fn reversed(b: &Vec<u8>) -> (out: Vec<u8>)
    ensures
        out@ == b@.reverse(),
{
    let mut out: Vec<u8> = Vec::new();
    let mut i: usize = b.len();
    while i > 0
        invariant
            i <= b@.len(),
            out@.len() == b@.len() - i,
            forall|k: int| 0 <= k < out@.len() ==> out@[k] == b@[b@.len() - 1 - k],
        decreases i,
    {
        i -= 1;
        out.push(b[i]);
    }
    assert(out@ =~= b@.reverse());
    out
}

/// The value stored last under `key`.
pub fn table_lookup(table: &Vec<Entry>, key: &Vec<u8>) -> (out: Option<Vec<u8>>)
    ensures
        out.is_some() == lookup(pairs(table@), key@).is_some(),
        out.is_some() ==> out.unwrap()@ == lookup(pairs(table@), key@).unwrap(),
{
    let mut i: usize = table.len();
    assert(pairs(table@).subrange(0, i as int) =~= pairs(table@));
    while i > 0
        invariant
            i <= table@.len(),
            lookup(pairs(table@), key@) == lookup(pairs(table@).subrange(0, i as int), key@),
        decreases i,
    {
        i -= 1;
        let ghost upto = pairs(table@).subrange(0, i + 1);
        assert(upto.last() == table@[i as int]@);
        assert(upto.drop_last() =~= pairs(table@).subrange(0, i as int));
        if bytes_eq(&table[i].key, key) {
            return Some(copy_bytes(&table[i].value));
        }
    }
    None
}

/// The value stored last under `key`, or `default`.
pub fn table_lookup_or(table: &Vec<Entry>, key: &Vec<u8>, default: Vec<u8>) -> (out: Vec<u8>)
    ensures
        out@ == lookup_or(pairs(table@), key@, default@),
{
    match table_lookup(table, key) {
        Some(v) => v,
        None => default,
    }
}

/// Appends an entry to a table.
pub fn table_push(table: &mut Vec<Entry>, key: Vec<u8>, value: Vec<u8>)
    ensures
        pairs(final(table)@) == pairs(old(table)@).push(Pair { key: key@, value: value@ }),
{
    table.push(Entry { key, value });
    assert(pairs(table@) =~= pairs(old(table)@).push(Pair { key: key@, value: value@ }));
}

impl Host {
    /// A host with empty storage, no call data, and context data of 32
    /// zero bytes for the value sent and nothing for the rest.
    pub fn new(address_length: usize) -> (out: Host)
        ensures
            out@.address_length == address_length,
            out@.storage.len() == 0,
            out@.strings.len() == 0,
            out@.balances.len() == 0,
            out@.block_hashes.len() == 0,
            out@.recoveries.len() == 0,
            out@.context.len() == 38,
            forall|i: int|
                0 <= i < 38 ==> #[trigger] out@.context[i] == (if i
                    == Primitive::GetMsgValue.index_of() {
                    zeros(32)
                } else {
                    Seq::<u8>::empty()
                }),
            out@.call_data.len() == 0,
            out@.return_data.len() == 0,
            out@.replies.len() == 0,
            out@.calls.len() == 0,
            out@.events.len() == 0,
            out@.returned == (HaltOutcome {
                status: 0,
                data_pointer: 0,
                data_length: 0,
                data: Seq::empty(),
            }),
    {
        let mut context: Vec<Vec<u8>> = Vec::new();
        let mut i: usize = 0;
        while i < 38
            invariant
                i <= 38,
                context@.len() == i,
                forall|k: int|
                    0 <= k < i ==> (#[trigger] context@[k])@ == (if k
                        == Primitive::GetMsgValue.index_of() {
                        zeros(32)
                    } else {
                        Seq::<u8>::empty()
                    }),
            decreases 38 - i,
        {
            if i == Primitive::GetMsgValue.index() {
                context.push(crate::bytes::zero_bytes(32));
            } else {
                context.push(Vec::new());
            }
            i += 1;
        }
        Host {
            address_length,
            storage: Vec::new(),
            strings: Vec::new(),
            balances: Vec::new(),
            block_hashes: Vec::new(),
            recoveries: Vec::new(),
            context,
            call_data: Vec::new(),
            return_data: Vec::new(),
            replies: Vec::new(),
            calls: Vec::new(),
            events: Vec::new(),
            returned: Halt { status: 0, data_pointer: 0, data_length: 0, data: Vec::new() },
        }
    }

    /// Sets what a context getter writes. A host whose list of context data
    /// is too short for the getter stays as it is.
    pub fn set_context(&mut self, getter: Primitive, data: Vec<u8>)
        ensures
            getter.index_of() < old(self)@.context.len() ==> final(self)@ == (HostState {
                context: old(self)@.context.update(getter.index_of() as int, data@),
                ..old(self)@
            }),
            getter.index_of() >= old(self)@.context.len() ==> final(self)@ == old(self)@,
    {
        let i = getter.index();
        if i < self.context.len() {
            self.context.set(i, data);
            assert(rows(self.context@) =~= rows(old(self).context@).update(i as int, data@));
        }
    }

    /// Queues the host's answer to a call that is still to come.
    pub fn push_reply(&mut self, status: u32, data: Vec<u8>, address: Vec<u8>)
        ensures
            final(self)@ == (HostState {
                replies: old(self)@.replies.push(
                    Reply { status, data: data@, address: address@ },
                ),
                ..old(self)@
            }),
    {
        self.replies.push(HostReply { status, data, address });
        assert(answers(self.replies@) =~= answers(old(self).replies@).push(
            Reply { status, data: data@, address: address@ },
        ));
    }
}

/// The memory of a fresh machine: sixteen filler bytes, so that the null
/// pointer names no datum, and then the module-level data in order.
pub open spec fn initial_memory(globals: Seq<Seq<u8>>) -> Seq<u8>
    decreases globals.len(),
{
    if globals.len() == 0 {
        filler(16)
    } else {
        initial_memory(globals.drop_last()) + globals.last()
    }
}

/// The addresses of the module-level data in the memory of a fresh
/// machine.
pub open spec fn initial_addresses(globals: Seq<Seq<u8>>) -> Seq<nat> {
    Seq::new(globals.len(), |i: int| initial_memory(globals.subrange(0, i)).len())
}

impl Machine {
    /// A fresh machine for a module with the given module-level data and
    /// the given answers of the codec, for encoding and for decoding. `None` where the data does not fit
    /// into the address space.
    pub fn new(
        host: Host,
        globals: &Vec<Vec<u8>>,
        encodings: Vec<Vec<u8>>,
        decodings: Vec<Option<Vec<Vec<u8>>>>,
    ) -> (out: Option<Machine>)
        ensures
            out.is_some() == (initial_memory(rows(globals@)).len() < ADDRESS_SPACE),
            out.is_some() ==> out.unwrap()@ == (State {
                regs: Seq::empty(),
                mem: initial_memory(rows(globals@)),
                globals: initial_addresses(rows(globals@)),
                encodings: rows(encodings@),
                decodings: outcomes(decodings@),
                host: host@,
            }),
    {
        let ghost all = rows(globals@);
        let mut mem = filler_bytes(16);
        let mut addrs: Vec<u32> = Vec::new();
        let mut i: usize = 0;
        assert(all.subrange(0, 0) =~= Seq::<Seq<u8>>::empty());
        while i < globals.len()
            invariant
                i <= globals@.len(),
                all == rows(globals@),
                mem@ == initial_memory(all.subrange(0, i as int)),
                mem@.len() < ADDRESS_SPACE,
                addrs@.len() == i,
                forall|k: int|
                    0 <= k < i ==> (#[trigger] addrs@[k]) as nat == initial_memory(
                        all.subrange(0, k),
                    ).len(),
                forall|k: int|
                    0 <= k <= i ==> (#[trigger] initial_memory(all.subrange(0, k))).len()
                        < ADDRESS_SPACE,
            decreases globals@.len() - i,
        {
            let datum = &globals[i];
            let ghost next = all.subrange(0, i + 1);
            proof {
                assert(next.drop_last() =~= all.subrange(0, i as int));
                assert(next.last() == datum@);
                lemma_initial_memory_grows(all, (i + 1) as int);
            }
            if datum.len() as u64 >= 0x1_0000_0000u64 - mem.len() as u64 {
                proof {
                    lemma_initial_memory_grows(all, all.len() as int);
                    assert(all.subrange(0, all.len() as int) =~= all);
                    assert(initial_memory(next).len() >= ADDRESS_SPACE);
                }
                return None;
            }
            addrs.push(mem.len() as u32);
            let mut j: usize = 0;
            let ghost before = mem@;
            while j < datum.len()
                invariant
                    j <= datum@.len(),
                    mem@ =~= before + datum@.subrange(0, j as int),
                decreases datum@.len() - j,
            {
                mem.push(datum[j]);
                j += 1;
            }
            assert(datum@.subrange(0, datum@.len() as int) =~= datum@);
            i += 1;
        }
        assert(all.subrange(0, all.len() as int) =~= all);
        let m = Machine { regs: Vec::new(), mem, globals: addrs, encodings, decodings, host };
        assert(m@.globals =~= initial_addresses(all));
        assert(m@.regs =~= Seq::<Seq<u8>>::empty());
        Some(m)
    }

    /// What register `r` holds.
    pub fn reg(&self, r: usize) -> (out: Option<Vec<u8>>)
        ensures
            out.is_some() == self@.reg(r).is_some(),
            out.is_some() ==> out.unwrap()@ == self@.reg(r).unwrap(),
    {
        if r < self.regs.len() && self.regs[r].len() > 0 {
            Some(copy_bytes(&self.regs[r]))
        } else {
            None
        }
    }

    /// Binds register `r` to `v`.
    pub fn bind(&mut self, r: usize, v: Vec<u8>)
        ensures
            final(self)@ == old(self)@.bind(r, v@),
    {
        if r < self.regs.len() {
            self.regs.set(r, v);
            assert(rows(self.regs@) =~= rows(old(self).regs@).update(r as int, v@));
        } else {
            while self.regs.len() < r
                invariant
                    old(self).regs@.len() <= self.regs@.len() <= r,
                    forall|k: int|
                        0 <= k < old(self).regs@.len() ==> self.regs@[k] == old(self).regs@[k],
                    forall|k: int|
                        old(self).regs@.len() <= k < self.regs@.len() ==> (
                        #[trigger] self.regs@[k])@ == Seq::<u8>::empty(),
                    self.mem == old(self).mem,
                    self.globals == old(self).globals,
                    self.encodings == old(self).encodings,
                    self.decodings == old(self).decodings,
                    self.host == old(self).host,
                decreases r - self.regs@.len(),
            {
                self.regs.push(Vec::new());
            }
            self.regs.push(v);
            assert(rows(self.regs@) =~= rows(old(self).regs@) + Seq::new(
                (r - old(self).regs@.len()) as nat,
                |i: int| Seq::<u8>::empty(),
            ) + seq![v@]);
        }
    }

    /// The value of an operand.
    pub fn eval(&self, op: Operand) -> (out: Option<Vec<u8>>)
        ensures
            out.is_some() == self@.eval(op).is_some(),
            out.is_some() ==> out.unwrap()@ == self@.eval(op).unwrap(),
    {
        match op {
            Operand::Reg(r) => self.reg(r),
            Operand::Const { bits, value } => {
                if bits % 8 == 0 && 8 <= bits && bits <= 256 {
                    Some(le_encode(value, (bits / 8) as usize))
                } else {
                    None
                }
            },
            Operand::Null => Some(crate::bytes::zero_bytes(4)),
            Operand::Global(g) => {
                if g < self.globals.len() {
                    Some(le_encode(self.globals[g] as u64, 4))
                } else {
                    None
                }
            },
        }
    }

    /// The value of an operand that is a 32-bit word.
    pub fn eval_word(&self, op: Operand) -> (out: Option<u32>)
        ensures
            out.is_some() == self@.eval_word(op).is_some(),
            out.is_some() ==> out.unwrap() as nat == self@.eval_word(op).unwrap(),
    {
        match self.eval(op) {
            Some(b) => word_decode(&b),
            None => None,
        }
    }

    /// The `n` bytes that the pointer `ptr` points to.
    pub fn read_at(&self, ptr: Operand, n: usize) -> (out: Option<Vec<u8>>)
        ensures
            out.is_some() == self@.read_at(ptr, n as nat).is_some(),
            out.is_some() ==> out.unwrap()@ == self@.read_at(ptr, n as nat).unwrap(),
    {
        match self.eval_word(ptr) {
            Some(p) => read_bytes(&self.mem, p, n),
            None => None,
        }
    }

    /// Writes `data` where `ptr` points to. Answers whether that was
    /// possible; where it was not, the machine is as before.
    pub fn write_at(&mut self, ptr: Operand, data: &Vec<u8>) -> (done: bool)
        ensures
            done == old(self)@.write_at(ptr, data@).is_some(),
            done ==> final(self)@ == old(self)@.write_at(ptr, data@).unwrap(),
            !done ==> final(self)@ == old(self)@,
    {
        match self.eval_word(ptr) {
            Some(p) => write_bytes(&mut self.mem, p, data),
            None => false,
        }
    }

    /// Whether `n` more bytes fit into the address space.
    pub fn has_room(&self, n: usize) -> (out: bool)
        ensures
            out == self@.has_room(n as nat),
    {
        (self.mem.len() as u64) < 0x1_0000_0000u64 && (n as u64) < 0x1_0000_0000u64 - self.mem.len() as u64
    }

    /// Lengthens the memory by `n` bytes of filler and answers the address
    /// of the first of them, as a pointer.
    pub(crate) fn grow(&mut self, n: usize) -> (out: Vec<u8>)
        requires
            old(self)@.has_room(n as nat),
        ensures
            final(self)@ == old(self)@.grown(n as nat),
            out@ == le_bytes(old(self)@.mem.len(), 4),
    {
        let at = self.mem.len();
        let mut fresh = filler_bytes(n);
        self.mem.append(&mut fresh);
        le_encode(at as u64, 4)
    }

    /// Puts `data` at the end of the memory and answers its address; `None`
    /// where it does not fit into the address space.
    pub fn store(&mut self, data: &Vec<u8>) -> (out: Option<u32>)
        ensures
            out.is_some() == old(self)@.has_room(data@.len()),
            out.is_some() ==> out.unwrap() == old(self)@.mem.len() && final(self)@ == (State {
                mem: old(self)@.mem + data@,
                ..old(self)@
            }),
            out.is_none() ==> *final(self) == *old(self),
    {
        if !self.has_room(data.len()) {
            return None;
        }
        let at = self.mem.len();
        let mut copy = copy_bytes(data);
        self.mem.append(&mut copy);
        Some(at as u32)
    }
}

/// The memory of a fresh machine grows with every datum.
pub proof fn lemma_initial_memory_grows(globals: Seq<Seq<u8>>, k: int)
    requires
        0 <= k <= globals.len(),
    ensures
        forall|j: int|
            0 <= j <= k ==> (#[trigger] initial_memory(globals.subrange(0, j))).len()
                <= initial_memory(globals.subrange(0, k)).len(),
    decreases k,
{
    if k > 0 {
        lemma_initial_memory_grows(globals, k - 1);
        assert(globals.subrange(0, k).drop_last() =~= globals.subrange(0, k - 1));
    }
}

} // verus!
