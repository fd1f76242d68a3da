//! How the chunks of an upload become one file.
//!
//! The temporary directory of an upload is modelled as a map from chunk
//! number to the bytes stored under that number.  Each accepted chunk is
//! written under its number (`stored_after`), the upload is complete once the
//! directory holds as many entries as the upload has chunks, and the file is
//! then assembled by an `Assembly`, which asks for the chunks by number, from
//! 0 up, and fingerprints what it was fed.

use crate::upload::{hex_lower, sha3_256_of, waiting_message, waiting_text, ChunkHasher};
use vstd::prelude::*;

verus! {

/// The chunks, one after the other.
pub open spec fn concat_all(chunks: Seq<Seq<u8>>) -> Seq<u8>
    decreases chunks.len(),
{
    if chunks.len() == 0 {
        Seq::empty()
    } else {
        concat_all(chunks.drop_last()) + chunks.last()
    }
}

/// The temporary directory after the chunks `arrivals` (number, bytes) were
/// written in that order, starting from an empty directory.
pub open spec fn stored_after(arrivals: Seq<(int, Seq<u8>)>) -> Map<int, Seq<u8>>
    decreases arrivals.len(),
{
    if arrivals.len() == 0 {
        Map::empty()
    } else {
        stored_after(arrivals.drop_last()).insert(arrivals.last().0, arrivals.last().1)
    }
}

/// The file assembled from a directory: chunks 0 to `total - 1`, in that
/// order.
pub open spec fn assembled(stored: Map<int, Seq<u8>>, total: nat) -> Seq<u8> {
    concat_all(Seq::new(total, |i: int| stored[i]))
}

/// Each chunk number occurs once among `arrivals`.
pub open spec fn distinct_numbers(arrivals: Seq<(int, Seq<u8>)>) -> bool {
    forall|j: int, k: int|
        0 <= j < k < arrivals.len() ==> #[trigger] arrivals[j].0 != #[trigger] arrivals[k].0
}

/// One run of an upload of `total` chunks with contents `chunks`: every
/// chunk sent exactly once, chunk `i` carrying `chunks[i]`, in the order of
/// `arrivals`.
pub open spec fn sends_each_once(arrivals: Seq<(int, Seq<u8>)>, chunks: Seq<Seq<u8>>, total: nat) -> bool {
    &&& arrivals.len() == total
    &&& chunks.len() == total
    &&& distinct_numbers(arrivals)
    &&& forall|j: int| 0 <= j < arrivals.len() ==> 0 <= #[trigger] arrivals[j].0 < total
    &&& forall|j: int| 0 <= j < arrivals.len() ==> #[trigger] arrivals[j].1 == chunks[arrivals[j].0]
    &&& forall|i: int| 0 <= i < total ==> #[trigger] sent(arrivals, i)
}

/// Chunk `i` is among `arrivals`.
pub open spec fn sent(arrivals: Seq<(int, Seq<u8>)>, i: int) -> bool {
    exists|j: int| 0 <= j < arrivals.len() && #[trigger] arrivals[j].0 == i
}

proof fn lemma_stored_after(arrivals: Seq<(int, Seq<u8>)>)
    requires
        distinct_numbers(arrivals),
    ensures
        stored_after(arrivals).dom().finite(),
        stored_after(arrivals).dom().len() == arrivals.len(),
        forall|x: int| #[trigger] stored_after(arrivals).dom().contains(x)
            ==> exists|j: int| 0 <= j < arrivals.len() && arrivals[j].0 == x,
        forall|j: int| 0 <= j < arrivals.len()
            ==> #[trigger] stored_after(arrivals).dom().contains(arrivals[j].0)
                && stored_after(arrivals)[arrivals[j].0] == arrivals[j].1,
    decreases arrivals.len(),
{
    if arrivals.len() > 0 {
        let prev = arrivals.drop_last();
        let last = arrivals.last();
        assert(distinct_numbers(prev)) by {
            assert forall|j: int, k: int| 0 <= j < k < prev.len() implies #[trigger] prev[j].0
                != #[trigger] prev[k].0 by {
                assert(prev[j] == arrivals[j] && prev[k] == arrivals[k]);
            }
        }
        lemma_stored_after(prev);
        let m = stored_after(prev);
        assert(!m.dom().contains(last.0)) by {
            if m.dom().contains(last.0) {
                let j = choose|j: int| 0 <= j < prev.len() && prev[j].0 == last.0;
                assert(arrivals[j].0 != arrivals[arrivals.len() - 1].0);
            }
        }
        assert(stored_after(arrivals) == m.insert(last.0, last.1));
        assert forall|x: int| #[trigger] stored_after(arrivals).dom().contains(x)
            implies exists|j: int| 0 <= j < arrivals.len() && arrivals[j].0 == x by {
            if x == last.0 {
                assert(arrivals[arrivals.len() - 1].0 == x);
            } else {
                assert(m.dom().contains(x));
                let j = choose|j: int| 0 <= j < prev.len() && prev[j].0 == x;
                assert(arrivals[j].0 == x);
            }
        }
        assert forall|j: int| 0 <= j < arrivals.len()
            implies #[trigger] stored_after(arrivals).dom().contains(arrivals[j].0)
                && stored_after(arrivals)[arrivals[j].0] == arrivals[j].1 by {
            if j < arrivals.len() - 1 {
                assert(prev[j] == arrivals[j]);
                assert(arrivals[j].0 != arrivals[arrivals.len() - 1].0);
            }
        }
    }
}

/// Storing the chunks of an upload, each exactly once and in any order:
/// before the last one the directory holds fewer entries than the upload
/// has chunks, so every earlier chunk is answered with the waiting message;
/// after the last one it holds exactly that many, and the file assembled
/// from it is the chunks in the order of their numbers.
pub proof fn upload_assembles_in_number_order(arrivals: Seq<(int, Seq<u8>)>, chunks: Seq<Seq<u8>>, total: nat)
    requires
        sends_each_once(arrivals, chunks, total),
    ensures
        forall|k: int| 0 <= k < total ==> (#[trigger] stored_after(arrivals.take(k))).dom().len() == k,
        stored_after(arrivals).dom().len() == total,
        assembled(stored_after(arrivals), total) == concat_all(chunks),
{
    assert forall|k: int| 0 <= k < total implies (#[trigger] stored_after(arrivals.take(k))).dom().len() == k by {
        let p = arrivals.take(k);
        assert(distinct_numbers(p)) by {
            assert forall|j: int, l: int| 0 <= j < l < p.len() implies #[trigger] p[j].0
                != #[trigger] p[l].0 by {
                assert(p[j] == arrivals[j] && p[l] == arrivals[l]);
            }
        }
        lemma_stored_after(p);
    }
    lemma_stored_after(arrivals);
    let m = stored_after(arrivals);
    assert(Seq::new(total, |i: int| m[i]) =~= chunks) by {
        assert forall|i: int| 0 <= i < total implies m[i] == chunks[i] by {
            assert(sent(arrivals, i));
            let j = choose|j: int| 0 <= j < arrivals.len() && #[trigger] arrivals[j].0 == i;
            assert(m.dom().contains(arrivals[j].0));
            assert(0 <= arrivals[j].0 < total);
        }
    }
}

/// Two runs of the same upload that send the same chunks, each exactly once,
/// in different orders, leave the same directory and assemble the same file.
pub proof fn arrival_order_does_not_matter(
    first: Seq<(int, Seq<u8>)>,
    second: Seq<(int, Seq<u8>)>,
    chunks: Seq<Seq<u8>>,
    total: nat,
)
    requires
        sends_each_once(first, chunks, total),
        sends_each_once(second, chunks, total),
    ensures
        stored_after(first) == stored_after(second),
        assembled(stored_after(first), total) == assembled(stored_after(second), total),
{
    lemma_stored_after(first);
    lemma_stored_after(second);
    let m1 = stored_after(first);
    let m2 = stored_after(second);
    assert forall|x: int| m1.dom().contains(x) <==> m2.dom().contains(x) by {
        if m1.dom().contains(x) {
            let j = choose|j: int| 0 <= j < first.len() && first[j].0 == x;
            assert(0 <= first[j].0 < total);
            assert(sent(second, x));
            let l = choose|l: int| 0 <= l < second.len() && #[trigger] second[l].0 == x;
            assert(m2.dom().contains(second[l].0));
        }
        if m2.dom().contains(x) {
            let j = choose|j: int| 0 <= j < second.len() && second[j].0 == x;
            assert(0 <= second[j].0 < total);
            assert(sent(first, x));
            let l = choose|l: int| 0 <= l < first.len() && #[trigger] first[l].0 == x;
            assert(m1.dom().contains(first[l].0));
        }
    }
    assert forall|x: int| m1.dom().contains(x) implies m1[x] == m2[x] by {
        let j = choose|j: int| 0 <= j < first.len() && first[j].0 == x;
        assert(m1[first[j].0] == first[j].1);
        assert(0 <= first[j].0 < total);
        assert(sent(second, x));
        let l = choose|l: int| 0 <= l < second.len() && #[trigger] second[l].0 == x;
        assert(m2[second[l].0] == second[l].1);
    }
    assert(m1 =~= m2);
}

/// Feeding an `Assembly` each chunk it asks for, from the directory,
/// fingerprints the file assembled from that directory.
pub proof fn feeding_the_stored_chunks_assembles(stored: Map<int, Seq<u8>>, fed: Seq<Seq<u8>>, total: nat)
    requires
        fed.len() == total,
        forall|i: int| 0 <= i < total ==> #[trigger] fed[i] == stored[i],
    ensures
        concat_all(fed) == assembled(stored, total),
{
    assert(Seq::new(total, |i: int| stored[i]) =~= fed);
}

/// What a stored chunk leads to.
pub enum StoreOutcome {
    /// Chunks are missing: answer with this message.
    Waiting(String),
    /// All chunks are there: assemble the file.
    Assemble,
}

/// The decision once a chunk is written: with the directory holding
/// `total_chunks` entries the file is assembled, otherwise (also when the
/// directory could not be read) the answer is the waiting message.
pub fn after_chunk_stored(entry_count: Option<usize>, total_chunks: usize, chunk_number: usize) -> (res: StoreOutcome)
    ensures
        res is Assemble <==> entry_count == Some(total_chunks),
        res matches StoreOutcome::Waiting(m) ==> m@ == waiting_text(chunk_number as nat),
{
    if crate::validator::is_upload_complete(entry_count, total_chunks) {
        StoreOutcome::Assemble
    } else {
        StoreOutcome::Waiting(waiting_message(chunk_number))
    }
}

/// The assembly of a complete upload: it asks for chunk 0, then 1, up to
/// the last, is fed each as its bytes are appended to the output file, and
/// finally gives the fingerprint of the whole.
pub struct Assembly {
    total: usize,
    next: usize,
    hasher: ChunkHasher,
    fed: Ghost<Seq<Seq<u8>>>,
}

impl Assembly {
    /// The number of chunks to assemble.
    pub closed spec fn total(&self) -> nat {
        self.total as nat
    }

    /// The chunks fed so far, in order.
    pub closed spec fn fed(&self) -> Seq<Seq<u8>> {
        self.fed@
    }

    /// The fingerprint has seen exactly the chunks fed, in order.
    pub closed spec fn wf(&self) -> bool {
        &&& self.hasher.absorbed() == concat_all(self.fed@)
        &&& self.fed@.len() == self.next
        &&& self.next <= self.total
    }

    /// An assembly of `total` chunks that has been fed nothing.
    pub fn start(total: usize) -> (a: Assembly)
        ensures
            a.wf(),
            a.total() == total,
            a.fed() == Seq::<Seq<u8>>::empty(),
    {
        Assembly { total, next: 0, hasher: ChunkHasher::new(), fed: Ghost(Seq::empty()) }
    }

    /// The number of the chunk to feed next, or `None` once all were fed.
    pub fn next_chunk(&self) -> (r: Option<usize>)
        requires
            self.wf(),
        ensures
            r matches Some(i) ==> i == self.fed().len() && i < self.total(),
            r is None <==> self.fed().len() == self.total(),
    {
        if self.next < self.total {
            Some(self.next)
        } else {
            None
        }
    }

    /// Feeds the chunk that `next_chunk` asked for.
    pub fn feed(&mut self, data: &[u8])
        requires
            old(self).wf(),
            old(self).fed().len() < old(self).total(),
        ensures
            final(self).wf(),
            final(self).total() == old(self).total(),
            final(self).fed() == old(self).fed().push(data@),
    {
        self.hasher.update(data);
        self.next = self.next + 1;
        self.fed = Ghost(self.fed@.push(data@));
        assert(self.fed@.drop_last() =~= old(self).fed@);
    }

    /// The lower-case hexadecimal SHA3-256 digest of all the chunks, fed in
    /// order; written beside the assembled file.
    pub fn finish(self) -> (s: String)
        requires
            self.wf(),
            self.fed().len() == self.total(),
        ensures
            s@ == hex_lower(sha3_256_of(concat_all(self.fed()))),
    {
        self.hasher.finish_hex()
    }
}

} // verus!
