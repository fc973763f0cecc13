//! The duplicating copy loop, modelled over byte sequences.
//!
//! The loop reads the input in chunks of at most the buffer size, and writes
//! each chunk first to standard output and then to the terminal device,
//! before the next read. `chunks_of` is the chunk decomposition that a given
//! buffer size induces; `mirror_stream` performs the whole duplication on an
//! in-memory input and is the verified model of the loop: both destinations
//! receive exactly the input bytes, in order, and the iteration count equals
//! the number of chunks. The lemmas state the stream laws: concatenating the
//! chunks restores the input, so the buffer size moves only the chunk
//! boundaries, never the bytes.

use vstd::prelude::*;

verus! {

/// The decomposition of `s` into the chunks that successive reads with a
/// buffer of `bs` bytes produce: every chunk holds `bs` bytes except the
/// last, which holds the remainder.
pub open spec fn chunks_of(s: Seq<u8>, bs: int) -> Seq<Seq<u8>>
    decreases s.len(),
        when bs >= 1
{
    if s.len() == 0 {
        Seq::empty()
    } else {
        let k = if s.len() <= bs {
            s.len() as int
        } else {
            bs
        };
        seq![s.take(k)].add(chunks_of(s.skip(k), bs))
    }
}

/// Law: concatenating the chunks restores the input exactly — no additions,
/// omissions, or reordering.
pub proof fn lemma_chunks_flatten(s: Seq<u8>, bs: int)
    requires
        bs >= 1,
    ensures
        chunks_of(s, bs).flatten() == s,
    decreases s.len(),
{
    if s.len() == 0 {
        assert(chunks_of(s, bs).flatten() =~= s);
    } else {
        let k = if s.len() <= bs {
            s.len() as int
        } else {
            bs
        };
        let cs = chunks_of(s, bs);
        lemma_chunks_flatten(s.skip(k), bs);
        assert(cs.drop_first() =~= chunks_of(s.skip(k), bs));
        assert(cs.first() == s.take(k));
        assert(s.take(k).add(s.skip(k)) =~= s);
    }
}

/// Law: the buffer size never changes the concatenated output on either
/// destination; it only changes the chunk boundaries at which writes occur.
pub proof fn lemma_buffer_size_immaterial(s: Seq<u8>, bs1: int, bs2: int)
    requires
        bs1 >= 1,
        bs2 >= 1,
    ensures
        chunks_of(s, bs1).flatten() == chunks_of(s, bs2).flatten(),
{
    lemma_chunks_flatten(s, bs1);
    lemma_chunks_flatten(s, bs2);
}

/// Law: input of exactly the buffer size forms a single chunk, so the loop
/// forwards it in exactly one iteration before seeing end-of-stream.
pub proof fn lemma_exact_buffer_single_chunk(s: Seq<u8>, bs: int)
    requires
        bs >= 1,
        s.len() == bs,
    ensures
        chunks_of(s, bs) =~= seq![s],
{
    assert(s.take(bs) =~= s);
    assert(s.skip(bs) =~= Seq::<u8>::empty());
    assert(chunks_of(Seq::<u8>::empty(), bs) == Seq::<Seq<u8>>::empty());
    assert(chunks_of(s, bs) == seq![s.take(bs)].add(chunks_of(s.skip(bs), bs)));
    assert(seq![s].add(Seq::<Seq<u8>>::empty()) =~= seq![s]);
}

/// Law: every chunk is nonempty and at most the buffer size, and every chunk
/// before the last is exactly the buffer size — a read returns fewer bytes
/// than the buffer holds only at the tail of the input.
pub proof fn lemma_chunk_shapes(s: Seq<u8>, bs: int)
    requires
        bs >= 1,
    ensures
        forall|i: int|
            0 <= i < chunks_of(s, bs).len() ==> 1 <= (#[trigger] chunks_of(s, bs)[i]).len() <= bs,
        forall|i: int|
            0 <= i < chunks_of(s, bs).len() - 1 ==> (#[trigger] chunks_of(s, bs)[i]).len() == bs,
    decreases s.len(),
{
    if s.len() > 0 {
        let k = if s.len() <= bs {
            s.len() as int
        } else {
            bs
        };
        lemma_chunk_shapes(s.skip(k), bs);
        let cs = chunks_of(s, bs);
        let rest = chunks_of(s.skip(k), bs);
        assert(cs == seq![s.take(k)].add(rest));
        assert(cs[0] == s.take(k));
        assert forall|i: int| 1 <= i < cs.len() implies cs[i] == rest[i - 1] by {}
        if s.len() <= bs {
            assert(s.skip(k) =~= Seq::<u8>::empty());
            assert(rest.len() == 0);
        }
    }
}

/// There are never more chunks than input bytes.
pub proof fn lemma_chunks_count_le_len(s: Seq<u8>, bs: int)
    requires
        bs >= 1,
    ensures
        chunks_of(s, bs).len() <= s.len(),
    decreases s.len(),
{
    if s.len() > 0 {
        let k = if s.len() <= bs {
            s.len() as int
        } else {
            bs
        };
        lemma_chunks_count_le_len(s.skip(k), bs);
    }
}

/// What one full run of the copy loop produced: the bytes that reached
/// standard output, the bytes that reached the terminal device, and how many
/// read-and-forward iterations ran.
pub struct MirrorRun {
    pub forwarded: Vec<u8>,
    pub echoed: Vec<u8>,
    pub iterations: usize,
}

/// Runs the duplicating copy loop over an in-memory input: both destinations
/// receive exactly the input bytes, and the loop iterates once per chunk —
/// in particular, empty input is forwarded in zero iterations with zero
/// bytes written to either destination.
pub fn mirror_stream(input: &Vec<u8>, buf_size: usize) -> (r: MirrorRun)
    requires
        buf_size >= 1,
    ensures
        r.forwarded@ == input@,
        r.echoed@ == input@,
        r.echoed@ == r.forwarded@,
        r.iterations == chunks_of(input@, buf_size as int).len(),
{
    let ghost bs: int = buf_size as int;
    let mut forwarded: Vec<u8> = Vec::new();
    let mut echoed: Vec<u8> = Vec::new();
    let mut iterations: usize = 0;
    let mut offset: usize = 0;
    proof {
        assert(input@.skip(0) =~= input@);
    }
    while offset < input.len()
        invariant
            buf_size >= 1,
            bs == buf_size as int,
            offset <= input.len(),
            forwarded@ == input@.take(offset as int),
            echoed@ == input@.take(offset as int),
            iterations + chunks_of(input@.skip(offset as int), bs).len() == chunks_of(
                input@,
                bs,
            ).len(),
        decreases input.len() - offset,
    {
        let remaining = input.len() - offset;
        let k = if remaining <= buf_size {
            remaining
        } else {
            buf_size
        };
        let mut j: usize = 0;
        while j < k
            invariant
                offset + k <= input.len(),
                j <= k,
                forwarded@ == input@.take(offset as int + j as int),
                echoed@ == input@.take(offset as int + j as int),
            decreases k - j,
        {
            let b = input[offset + j];
            forwarded.push(b);
            echoed.push(b);
            proof {
                assert(input@.take(offset as int + j as int + 1) =~= input@.take(
                    offset as int + j as int,
                ).push(input@[offset as int + j as int]));
            }
            j = j + 1;
        }
        proof {
            lemma_chunks_count_le_len(input@, bs);
            assert(input@.skip(offset as int).skip(k as int) =~= input@.skip(
                offset as int + k as int,
            ));
        }
        offset = offset + k;
        iterations = iterations + 1;
    }
    proof {
        assert(input@.take(offset as int) =~= input@);
        assert(input@.skip(offset as int) =~= Seq::<u8>::empty());
    }
    MirrorRun { forwarded, echoed, iterations }
}

} // verus!
