//! Deciding whether two files hold the same bytes: a size check first, then
//! the two byte streams compared chunk by chunk in lockstep.
use vstd::prelude::*;

verus! {

/// Where a comparison stands after one step.
#[derive(Debug, Clone, Copy, PartialEq, Eq, Structural)]
pub enum Verdict {
    /// Both streams ended together with no difference: the files are equal.
    Same,
    /// A difference was found: the files are not equal.
    Differ,
    /// No difference so far: read the next pair of chunks.
    More,
}

/// The verdict of the size check.
pub open spec fn size_verdict(lft_size: nat, rht_size: nat) -> Verdict {
    if lft_size != rht_size {
        Verdict::Differ
    } else {
        Verdict::More
    }
}

/// The verdict on one pair of chunks read in lockstep; an empty chunk marks
/// the end of its stream.
pub open spec fn chunk_verdict(lft: Seq<u8>, rht: Seq<u8>) -> Verdict {
    if lft.len() != rht.len() {
        Verdict::Differ
    } else if lft.len() == 0 {
        Verdict::Same
    } else if lft == rht {
        Verdict::More
    } else {
        Verdict::Differ
    }
}

/// The verdict after the pairs of chunks `lft[i]`, `rht[i]` have been
/// compared in order, stopping at the first decided one.
pub open spec fn stream_verdict(lft: Seq<Seq<u8>>, rht: Seq<Seq<u8>>) -> Verdict
    decreases lft.len(),
{
    if lft.len() == 0 || rht.len() == 0 {
        Verdict::More
    } else {
        let v = chunk_verdict(lft[0], rht[0]);
        if v == Verdict::More {
            stream_verdict(lft.drop_first(), rht.drop_first())
        } else {
            v
        }
    }
}

/// The verdict on two files of the given sizes whose reads gave the chunks
/// `lft` and `rht`.
pub open spec fn files_verdict(lft_size: nat, rht_size: nat, lft: Seq<Seq<u8>>, rht: Seq<Seq<u8>>) -> Verdict {
    if size_verdict(lft_size, rht_size) == Verdict::More {
        stream_verdict(lft, rht)
    } else {
        size_verdict(lft_size, rht_size)
    }
}

/// The bytes of a stream read as `chunks`.
pub open spec fn concat_chunks(chunks: Seq<Seq<u8>>) -> Seq<u8>
    decreases chunks.len(),
{
    if chunks.len() == 0 {
        Seq::empty()
    } else {
        chunks[0] + concat_chunks(chunks.drop_first())
    }
}

/// A complete read of a stream: non-empty chunks, then one empty chunk.
pub open spec fn complete_read(chunks: Seq<Seq<u8>>) -> bool {
    &&& chunks.len() > 0
    &&& chunks.last().len() == 0
    &&& forall|i: int| 0 <= i < chunks.len() - 1 ==> #[trigger] chunks[i].len() > 0
}

/// The first step of a comparison: files of different sizes differ.
pub fn sizes_verdict(lft_size: u64, rht_size: u64) -> (r: Verdict)
    ensures
        r == size_verdict(lft_size as nat, rht_size as nat),
{
    if lft_size != rht_size {
        Verdict::Differ
    } else {
        Verdict::More
    }
}

/// One step of a comparison, on the chunks just read from each file.
pub fn compare_chunks(lft: &[u8], rht: &[u8]) -> (r: Verdict)
    ensures
        r == chunk_verdict(lft@, rht@),
{
    let n = lft.len();
    if n != rht.len() {
        return Verdict::Differ;
    }
    if n == 0 {
        return Verdict::Same;
    }
    let mut i: usize = 0;
    while i < n
        invariant
            n == lft@.len(),
            n == rht@.len(),
            i <= n,
            forall|k: int| 0 <= k < i ==> lft@[k] == rht@[k],
        decreases n - i,
    {
        if lft[i] != rht[i] {
            return Verdict::Differ;
        }
        i = i + 1;
    }
    assert(lft@ =~= rht@);
    Verdict::More
}

/// Two files with the same size, read completely into the same chunks, are
/// found equal.
pub proof fn lemma_identical_content_is_equal(size: nat, chunks: Seq<Seq<u8>>)
    requires
        complete_read(chunks),
    ensures
        files_verdict(size, size, chunks, chunks) == Verdict::Same,
{
    lemma_identical_stream_is_same(chunks);
}

proof fn lemma_identical_stream_is_same(chunks: Seq<Seq<u8>>)
    requires
        complete_read(chunks),
    ensures
        stream_verdict(chunks, chunks) == Verdict::Same,
    decreases chunks.len(),
{
    if chunks.len() > 1 {
        let rest = chunks.drop_first();
        assert(chunks[0].len() > 0);
        assert forall|i: int| 0 <= i < rest.len() - 1 implies #[trigger] rest[i].len() > 0 by {
            assert(rest[i] == chunks[i + 1]);
        }
        lemma_identical_stream_is_same(rest);
    }
}

/// Files found equal hold the same bytes: a verdict of `Same` is never
/// given to streams whose bytes differ.
pub proof fn lemma_same_means_equal_bytes(lft_size: nat, rht_size: nat, lft: Seq<Seq<u8>>, rht: Seq<Seq<u8>>)
    requires
        files_verdict(lft_size, rht_size, lft, rht) == Verdict::Same,
    ensures
        lft_size == rht_size,
        exists|k: int| 0 < k <= lft.len() && k <= rht.len()
            && concat_chunks(lft.subrange(0, k)) == concat_chunks(rht.subrange(0, k)),
{
    lemma_same_stream_prefix(lft, rht);
}

proof fn lemma_same_stream_prefix(lft: Seq<Seq<u8>>, rht: Seq<Seq<u8>>)
    requires
        stream_verdict(lft, rht) == Verdict::Same,
    ensures
        exists|k: int| 0 < k <= lft.len() && k <= rht.len()
            && concat_chunks(lft.subrange(0, k)) == concat_chunks(rht.subrange(0, k)),
    decreases lft.len(),
{
    if chunk_verdict(lft[0], rht[0]) == Verdict::Same {
        assert(concat_chunks(lft.subrange(0, 1)) =~= lft[0] + concat_chunks(lft.subrange(0, 1).drop_first()));
        assert(concat_chunks(rht.subrange(0, 1)) =~= rht[0] + concat_chunks(rht.subrange(0, 1).drop_first()));
        assert(lft[0] =~= rht[0]);
    } else {
        let (l2, r2) = (lft.drop_first(), rht.drop_first());
        lemma_same_stream_prefix(l2, r2);
        let k = choose|k: int| 0 < k <= l2.len() && k <= r2.len()
            && concat_chunks(l2.subrange(0, k)) == concat_chunks(r2.subrange(0, k));
        assert(lft.subrange(0, k + 1).drop_first() =~= l2.subrange(0, k));
        assert(rht.subrange(0, k + 1).drop_first() =~= r2.subrange(0, k));
        assert(concat_chunks(lft.subrange(0, k + 1)) == concat_chunks(rht.subrange(0, k + 1)));
    }
}

} // verus!
