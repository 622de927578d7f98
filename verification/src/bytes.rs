//! Byte-level vocabulary shared by the emitter and the reference machine:
//! little-endian encodings of integers, zero and filler words, range reads
//! and writes on a linear memory.

use vstd::prelude::*;

verus! {

/// Byte written into freshly allocated memory. Allocation hands out
/// unspecified contents; the reference machine makes that visible by filling
/// fresh memory with a pattern that is not zero.
pub const FILLER: u8 = 0xAA;

/// `n` zero bytes.
pub open spec fn zeros(n: nat) -> Seq<u8> {
    Seq::new(n, |i: int| 0u8)
}

/// `n` filler bytes.
pub open spec fn filler(n: nat) -> Seq<u8> {
    Seq::new(n, |i: int| FILLER)
}

/// The `n` low-order bytes of `v`, least significant first.
pub open spec fn le_bytes(v: nat, n: nat) -> Seq<u8>
    decreases n,
{
    if n == 0 {
        Seq::empty()
    } else {
        seq![(v % 256) as u8] + le_bytes(v / 256, (n - 1) as nat)
    }
}

/// The number that `b` spells, least significant byte first.
pub open spec fn le_value(b: Seq<u8>) -> nat
    decreases b.len(),
{
    if b.len() == 0 {
        0
    } else {
        b[0] as nat + 256 * le_value(b.skip(1))
    }
}

/// The value of a four-byte word, or `None` for any other length.
pub open spec fn word_of(b: Seq<u8>) -> Option<nat> {
    if b.len() == 4 {
        Some(le_value(b))
    } else {
        None
    }
}

/// `mem[addr .. addr + n]`, or `None` where the range leaves the memory.
pub open spec fn read_range(mem: Seq<u8>, addr: nat, n: nat) -> Option<Seq<u8>> {
    if addr + n <= mem.len() {
        Some(mem.subrange(addr as int, (addr + n) as int))
    } else {
        None
    }
}

/// `mem` with `data` laid over it from `addr`, or `None` where the range
/// leaves the memory.
pub open spec fn write_range(mem: Seq<u8>, addr: nat, data: Seq<u8>) -> Option<Seq<u8>> {
    if addr + data.len() <= mem.len() {
        Some(
            mem.subrange(0, addr as int) + data + mem.subrange(
                (addr + data.len()) as int,
                mem.len() as int,
            ),
        )
    } else {
        None
    }
}

pub proof fn lemma_le_bytes_len(v: nat, n: nat)
    ensures
        le_bytes(v, n).len() == n,
    decreases n,
{
    if n > 0 {
        lemma_le_bytes_len(v / 256, (n - 1) as nat);
    }
}

/// The four bytes of a word, written out.
pub proof fn lemma_le_bytes_word(v: nat)
    ensures
        le_bytes(v, 4) =~= seq![
            (v % 256) as u8,
            ((v / 256) % 256) as u8,
            ((v / 65536) % 256) as u8,
            ((v / 16777216) % 256) as u8,
        ],
{
    reveal_with_fuel(le_bytes, 5);
    assert(v / 256 / 256 == v / 65536) by (nonlinear_arith);
    assert(v / 256 / 256 / 256 == v / 16777216) by (nonlinear_arith);
}

/// The value of four bytes, written out.
pub proof fn lemma_le_value_word(b: Seq<u8>)
    requires
        b.len() == 4,
    ensures
        le_value(b) == b[0] as nat + 256 * (b[1] as nat) + 65536 * (b[2] as nat) + 16777216 * (
        b[3] as nat),
        le_value(b) < 0x1_0000_0000,
{
    reveal_with_fuel(le_value, 5);
    let b1 = b.skip(1);
    let b2 = b1.skip(1);
    let b3 = b2.skip(1);
    let b4 = b3.skip(1);
    assert(b1[0] == b[1] && b2[0] == b[2] && b3[0] == b[3]);
    assert(b4.len() == 0);
    assert(le_value(b4) == 0);
    assert(le_value(b3) == b[3] as nat);
    assert(le_value(b2) == b[2] as nat + 256 * (b[3] as nat));
    assert(le_value(b1) == b[1] as nat + 256 * (b[2] as nat + 256 * (b[3] as nat)));
}

/// A word survives being written and read back.
pub proof fn lemma_word_round_trip(v: nat)
    requires
        v < 0x1_0000_0000,
    ensures
        word_of(le_bytes(v, 4)) == Some(v),
{
    lemma_le_bytes_len(v, 4);
    lemma_le_bytes_word(v);
    lemma_le_value_word(le_bytes(v, 4));
    assert(v == v % 256 + 256 * ((v / 256) % 256) + 65536 * ((v / 65536) % 256) + 16777216 * ((v
        / 16777216) % 256)) by (nonlinear_arith)
        requires
            v < 0x1_0000_0000,
    ;
}

/// Bytes just written are the bytes read back, and the memory keeps its size.
pub proof fn lemma_read_after_write(mem: Seq<u8>, addr: nat, data: Seq<u8>)
    requires
        addr + data.len() <= mem.len(),
    ensures
        write_range(mem, addr, data).unwrap().len() == mem.len(),
        read_range(write_range(mem, addr, data).unwrap(), addr, data.len()) == Some(data),
{
    let m = write_range(mem, addr, data).unwrap();
    assert(m.subrange(addr as int, (addr + data.len()) as int) =~= data);
}

/// A write leaves every disjoint range as it was.
pub proof fn lemma_read_other(mem: Seq<u8>, addr: nat, data: Seq<u8>, at: nat, n: nat)
    requires
        addr + data.len() <= mem.len(),
        at + n <= mem.len(),
        at + n <= addr || addr + data.len() <= at,
    ensures
        read_range(write_range(mem, addr, data).unwrap(), at, n) == read_range(mem, at, n),
{
    let m = write_range(mem, addr, data).unwrap();
    assert(m.subrange(at as int, (at + n) as int) =~= mem.subrange(at as int, (at + n) as int));
}

/// `n` zero bytes.
pub fn zero_bytes(n: usize) -> (out: Vec<u8>)
    ensures
        out@ == zeros(n as nat),
{
    let mut out: Vec<u8> = Vec::new();
    let mut i: usize = 0;
    while i < n
        invariant
            i <= n,
            out@ =~= zeros(i as nat),
        decreases n - i,
    {
        out.push(0u8);
        i += 1;
    }
    out
}

/// The `n` low-order bytes of `v`, least significant first.
pub fn le_encode(v: u64, n: usize) -> (out: Vec<u8>)
    ensures
        out@ == le_bytes(v as nat, n as nat),
{
    let mut out: Vec<u8> = Vec::new();
    let mut rest: u64 = v;
    let mut i: usize = 0;
    while i < n
        invariant
            i <= n,
            out@.len() == i,
            out@ + le_bytes(rest as nat, (n - i) as nat) =~= le_bytes(v as nat, n as nat),
        decreases n - i,
    {
        let b: u8 = (rest % 256) as u8;
        proof {
            let tail = le_bytes((rest / 256) as nat, (n - i - 1) as nat);
            assert(le_bytes(rest as nat, (n - i) as nat) =~= seq![b] + tail);
            assert(out@.push(b) + tail =~= out@ + (seq![b] + tail));
        }
        out.push(b);
        rest = rest / 256;
        i += 1;
    }
    assert(out@ + Seq::<u8>::empty() =~= out@);
    out
}

/// The value of a four-byte word; `None` for any other length.
pub fn word_decode(b: &Vec<u8>) -> (out: Option<u32>)
    ensures
        out.is_some() == (b@.len() == 4),
        out.is_some() ==> word_of(b@) == Some(out.unwrap() as nat),
        out.is_none() ==> word_of(b@).is_none(),
{
    if b.len() != 4 {
        return None;
    }
    proof {
        lemma_le_value_word(b@);
    }
    let v: u64 = b[0] as u64 + 256 * (b[1] as u64) + 65536 * (b[2] as u64) + 16777216 * (
    b[3] as u64);
    Some(v as u32)
}

/// Whether two byte strings are the same.
pub fn bytes_eq(a: &Vec<u8>, b: &Vec<u8>) -> (same: bool)
    ensures
        same == (a@ == b@),
{
    if a.len() != b.len() {
        return false;
    }
    let mut i: usize = 0;
    while i < a.len()
        invariant
            i <= a.len(),
            a.len() == b.len(),
            a@.subrange(0, i as int) =~= b@.subrange(0, i as int),
        decreases a.len() - i,
    {
        if a[i] != b[i] {
            return false;
        }
        assert(a@.subrange(0, i + 1) =~= a@.subrange(0, i as int).push(a@[i as int]));
        assert(b@.subrange(0, i + 1) =~= b@.subrange(0, i as int).push(b@[i as int]));
        i += 1;
    }
    assert(a@ =~= a@.subrange(0, a.len() as int));
    assert(b@ =~= b@.subrange(0, b.len() as int));
    true
}

/// A copy of `mem[addr .. addr + n]`; `None` where the range leaves the memory.
pub fn read_bytes(mem: &Vec<u8>, addr: u32, n: usize) -> (out: Option<Vec<u8>>)
    ensures
        out.is_some() == read_range(mem@, addr as nat, n as nat).is_some(),
        out.is_some() ==> out.unwrap()@ == read_range(mem@, addr as nat, n as nat).unwrap(),
{
    let start: usize = addr as usize;
    if start > mem.len() || n > mem.len() - start {
        return None;
    }
    let mut out: Vec<u8> = Vec::new();
    let mut i: usize = 0;
    while i < n
        invariant
            i <= n,
            start + n <= mem.len(),
            out@ =~= mem@.subrange(start as int, start + i),
        decreases n - i,
    {
        out.push(mem[start + i]);
        i += 1;
    }
    Some(out)
}

/// Lays `data` over `mem` from `addr`; leaves `mem` alone and answers `false`
/// where the range leaves the memory.
pub fn write_bytes(mem: &mut Vec<u8>, addr: u32, data: &Vec<u8>) -> (done: bool)
    ensures
        done == write_range(old(mem)@, addr as nat, data@).is_some(),
        done ==> final(mem)@ == write_range(old(mem)@, addr as nat, data@).unwrap(),
        !done ==> final(mem)@ == old(mem)@,
{
    let start: usize = addr as usize;
    if start > mem.len() || data.len() > mem.len() - start {
        return false;
    }
    let mut i: usize = 0;
    while i < data.len()
        invariant
            i <= data.len(),
            mem.len() == old(mem).len(),
            start + data.len() <= mem.len(),
            mem@ =~= old(mem)@.subrange(0, start as int) + data@.subrange(0, i as int) + old(
                mem,
            )@.subrange(start + i, mem.len() as int),
        decreases data.len() - i,
    {
        mem.set(start + i, data[i]);
        i += 1;
    }
    assert(data@.subrange(0, data.len() as int) =~= data@);
    true
}

} // verus!
