//! What the adapter in front of the codec means on the reference machine:
//! one fresh buffer of exactly the length of the codec's output.

use vstd::prelude::*;
use crate::bytes::{le_bytes, lemma_le_bytes_len};
use crate::codec::encode_code;
use crate::ir::{Instr, Operand};
use crate::machine::{returning, reverted, run, Outcome, State};
use crate::semantics::{keeps, lemma_bind, lemma_bind_word, lemma_fresh_buffer, lemma_written};
use crate::steps::{
    lemma_step_decode,
    lemma_step_encode,
    lemma_step_encode_vector,
    lemma_step_encoded_length,
    lemma_step_malloc,
};
use crate::storage_laws::vector_at;

verus! {

/// Encoding without a constant prefix builds one fresh buffer at the end
/// of the memory that holds the codec's output and nothing else; the two
/// registers take its length and the buffer.
pub proof fn law_encode(s: State, job: usize, r: usize)
    requires
        r + 1 <= usize::MAX,
        job < s.encodings.len(),
        s.has_room(s.encodings[job as int].len()),
    ensures
        run(encode_code(None, job, r), 0, s) matches Outcome::Completed(t) && {
            &&& keeps(s, t, r)
            &&& t.host == s.host
            &&& t.mem == s.mem + s.encodings[job as int]
            &&& t.eval_word(Operand::Reg(r)) == Some(s.encodings[job as int].len())
            &&& t.eval_word(Operand::Reg((r + 1) as usize)) == Some(s.mem.len())
        },
{
    let code = encode_code(None, job, r);
    let enc = s.encodings[job as int];
    let n = enc.len();
    let a = s.mem.len();
    let r1 = (r + 1) as usize;
    lemma_step_encoded_length(s, r, job);
    let s1 = s.bind(r, le_bytes(n, 4));
    lemma_bind_word(s, r, n);
    lemma_bind(s, r, le_bytes(n, 4));
    lemma_le_bytes_len(n, 4);
    lemma_step_malloc(s1, r1, Operand::Reg(r), n);
    let s2 = s1.grown(n).bind(r1, le_bytes(a, 4));
    lemma_fresh_buffer(s1, r1, n);
    lemma_written(s2, Operand::Reg(r1), enc);
    let s3 = s2.write_at(Operand::Reg(r1), enc).unwrap();
    assert(s2.encodings == s.encodings);
    lemma_step_encode(s2, Operand::Reg(r1), job, s3);
    assert(run(code, 3, s3) == Outcome::Completed(s3));
    assert(run(code, 2, s2) == Outcome::Completed(s3));
    assert(run(code, 1, s1) == Outcome::Completed(s3));
    assert(run(code, 0, s) == Outcome::Completed(s3));
    assert(s3.mem =~= s.mem + enc);
    assert(s3.mem.subrange(0, a as int) =~= s.mem);
    assert(s3.eval_word(Operand::Reg(r)) == Some(n)) by {
        assert(s2.eval(Operand::Reg(r)) == s1.eval(Operand::Reg(r)));
    }
    assert forall|x: usize| x < r implies s3.reg(x) == s.reg(x) by {
        assert(s1.reg(x) == s.reg(x));
    }
}

/// Encoding to a vector builds a fresh length-prefixed buffer that holds
/// the codec's output, and binds the result register to it.
pub proof fn law_encode_to_vector(s: State, job: usize, r: usize)
    requires
        job < s.encodings.len(),
        s.has_room(8 + s.encodings[job as int].len()),
    ensures
        run(seq![Instr::EncodeVector { dst: r, job }], 0, s) matches Outcome::Completed(t) && keeps(
            s,
            t,
            r,
        ) && t.host == s.host && vector_at(t, Operand::Reg(r), s.encodings[job as int]),
{
    let code = seq![Instr::EncodeVector { dst: r, job }];
    let enc = s.encodings[job as int];
    let n = enc.len();
    let a = s.mem.len();
    let head = le_bytes(n, 4);
    lemma_le_bytes_len(n, 4);
    lemma_step_encode_vector(s, r, job);
    let s0 = State { mem: s.mem + head + head + enc, ..s };
    let s1 = s0.bind(r, le_bytes(a, 4));
    lemma_bind_word(s0, r, a);
    lemma_bind(s0, r, le_bytes(a, 4));
    lemma_le_bytes_len(a, 4);
    assert(run(code, 1, s1) == Outcome::Completed(s1));
    assert(s1.mem.subrange(0, a as int) =~= s.mem);
    assert(s1.mem.subrange(a as int, (a + 4) as int) =~= head);
    assert(s1.mem.subrange((a + 8) as int, (a + 8 + n) as int) =~= enc);
}

/// Decoding binds the registers from `first` on to the values that the
/// codec decodes, in order, and goes on. Where the codec cannot decode the
/// data, because it is too short or malformed, the invocation is reverted
/// with no data, and nothing behind the decoding runs.
pub proof fn law_decode(
    s: State,
    first: usize,
    data: Operand,
    len: Operand,
    job: usize,
    n: nat,
    rest: Seq<Instr>,
)
    requires
        s.eval_word(len) == Some(n),
        s.read_at(data, n).is_some(),
        job < s.decodings.len(),
        s.decodings[job as int] matches Some(values) ==> first + values.len() <= usize::MAX,
    ensures
        run(seq![Instr::Decode { first, data, len, job }] + rest, 0, s) == (match s.decodings[
            job as int
        ] {
            None => Outcome::Halted(s.with_host(returning(s.host, reverted())), reverted()),
            Some(values) => run(rest, 0, s.bind_all(first, values, 0)),
        }),
{
    let head = seq![Instr::Decode { first, data, len, job }];
    lemma_step_decode(s, first, data, len, job, n);
    match s.decodings[job as int] {
        None => {
            assert(run(head, 0, s) == Outcome::Halted(
                s.with_host(returning(s.host, reverted())),
                reverted(),
            ));
        },
        Some(values) => {
            let t = s.bind_all(first, values, 0);
            assert(run(head, 1, t) == Outcome::Completed(t));
            assert(run(head, 0, s) == Outcome::Completed(t));
        },
    }
    crate::semantics::lemma_run_concat(head, rest, 0, s);
}

} // verus!
