//! The terminal output that a newly attached client is shown first.
use std::collections::vec_deque::Iter;
use std::collections::VecDeque;
use bytes::Bytes;
use vstd::prelude::*;
use vstd::std_specs::iter::IteratorSpec;
use crate::buffer::bytes_content;
use crate::protocol::{Packet, PacketView};

verus! {

/// The limit of a backlog that is made without one: 64 KiB.
pub const DEFAULT_LIMIT: usize = 64 * 1024;

/// The most recent chunks of output, up to a number of bytes in all.
#[derive(Debug)]
pub struct Backlog {
    limit: usize,
    current: usize,
    entries: VecDeque<Bytes>,
}

/// The bytes that some buffers hold.
pub open spec fn contents(entries: Seq<Bytes>) -> Seq<Seq<u8>> {
    Seq::new(entries.len(), |i: int| bytes_content(entries[i]))
}

/// The number of bytes in some chunks.
pub open spec fn total(chunks: Seq<Seq<u8>>) -> nat
    decreases chunks.len(),
{
    if chunks.len() == 0 {
        0
    } else {
        chunks[0].len() + total(chunks.drop_first())
    }
}

/// What is left of some chunks when the oldest go until the rest is within the
/// limit.
pub open spec fn kept(chunks: Seq<Seq<u8>>, limit: nat) -> Seq<Seq<u8>>
    decreases chunks.len(),
{
    if total(chunks) <= limit || chunks.len() == 0 {
        chunks
    } else {
        kept(chunks.drop_first(), limit)
    }
}

/// What a backlog with these chunks holds once `data` was pushed.
pub open spec fn after_push(chunks: Seq<Seq<u8>>, data: Seq<u8>, limit: nat) -> Seq<Seq<u8>> {
    if data.len() == 0 {
        chunks
    } else {
        kept(chunks.push(data), limit)
    }
}

/// The packets that carry some chunks, one each.
pub open spec fn data_packets(chunks: Seq<Seq<u8>>) -> Seq<PacketView> {
    Seq::new(chunks.len(), |i: int| PacketView::Data(chunks[i]))
}

impl View for Backlog {
    type V = Seq<Seq<u8>>;

    closed spec fn view(&self) -> Seq<Seq<u8>> {
        contents(self.entries@)
    }
}

impl Backlog {
    /// The number of bytes that the backlog may hold.
    pub closed spec fn byte_limit(&self) -> usize {
        self.limit
    }

    /// The counter is right and within the limit, and no chunk is empty.
    pub closed spec fn wf(&self) -> bool {
        &&& self.current == total(self@)
        &&& total(self@) <= self.limit
        &&& forall|i: int| 0 <= i < self@.len() ==> (#[trigger] self@[i]).len() > 0
    }

    /// An empty backlog with the default limit.
    #[must_use]
    pub fn new() -> (backlog: Self)
        ensures
            backlog.wf(),
            backlog@ == Seq::<Seq<u8>>::empty(),
            backlog.byte_limit() == DEFAULT_LIMIT,
    {
        Self::with_limit(DEFAULT_LIMIT)
    }

    /// An empty backlog with a limit.
    pub fn with_limit(limit: usize) -> (backlog: Self)
        ensures
            backlog.wf(),
            backlog@ == Seq::<Seq<u8>>::empty(),
            backlog.byte_limit() == limit,
    {
        let backlog = Self { limit, current: 0, entries: VecDeque::new() };
        assert(backlog@ =~= Seq::<Seq<u8>>::empty());
        backlog
    }

    /// Adds a chunk, unless it is empty, and drops the oldest chunks until the
    /// rest is within the limit.
    pub fn push(&mut self, data: Bytes)
        requires
            old(self).wf(),
            total(old(self)@) + bytes_content(data).len() <= usize::MAX,
        ensures
            final(self).wf(),
            final(self).byte_limit() == old(self).byte_limit(),
            final(self)@ == after_push(
                old(self)@,
                bytes_content(data),
                old(self).byte_limit() as nat,
            ),
    {
        if data.is_empty() {
            return;
        }
        let ghost all = self@.push(bytes_content(data));
        proof {
            lemma_total_push(self@, bytes_content(data));
        }
        self.current += data.len();
        self.entries.push_back(data);
        assert(self@ =~= all);
        while self.current > self.limit
            invariant
                self.limit == old(self).limit,
                self.current == total(self@),
                kept(self@, self.limit as nat) == kept(all, self.limit as nat),
                forall|i: int| 0 <= i < self@.len() ==> (#[trigger] self@[i]).len() > 0,
            ensures
                self.current <= self.limit,
            decreases self@.len(),
        {
            let ghost before = self@;
            if let Some(front) = self.entries.pop_front() {
                assert(self@ =~= before.drop_first());
                self.current = self.current.saturating_sub(front.len());
            } else {
                break;
            }
        }
    }

    /// The chunks held, oldest first.
    pub fn iter(&self) -> (chunks: Iter<'_, Bytes>)
        ensures
            chunks.remaining().len() == self@.len(),
            forall|i: int|
                0 <= i < self@.len() ==> bytes_content(*#[trigger] chunks.remaining()[i])
                    == self@[i],
            chunks.decrease() is Some,
            chunks.initial_value_relation(&chunks),
    {
        self.entries.iter()
    }

    /// The chunks held as the packets that show them to a client, oldest
    /// first.
    pub fn history(&self) -> (packets: Vec<Packet>)
        ensures
            packets@.len() == self@.len(),
            forall|i: int|
                0 <= i < self@.len() ==> (#[trigger] packets@[i])@ == data_packets(self@)[i],
    {
        let mut packets: Vec<Packet> = Vec::new();
        let mut i: usize = 0;
        while i < self.entries.len()
            invariant
                i <= self.entries@.len(),
                packets@.len() == i,
                forall|j: int|
                    0 <= j < i ==> (#[trigger] packets@[j])@ == PacketView::Data(self@[j]),
            decreases self.entries@.len() - i,
        {
            packets.push(Packet::Data(self.entries[i].clone()));
            i += 1;
        }
        packets
    }
}

/// A push leaves the longest run of the newest chunks that is within the
/// limit: whatever is kept are the newest chunks in their order, they are
/// within the limit, and one more would be over it.
pub proof fn law_kept_is_longest(chunks: Seq<Seq<u8>>, limit: nat)
    ensures
        kept(chunks, limit).len() <= chunks.len(),
        kept(chunks, limit) == chunks.skip(chunks.len() - kept(chunks, limit).len()),
        total(kept(chunks, limit)) <= limit,
        forall|dropped: int|
            0 <= dropped < chunks.len() - kept(chunks, limit).len() ==> total(
                #[trigger] chunks.skip(dropped),
            ) > limit,
    decreases chunks.len(),
{
    assert(chunks.skip(0) =~= chunks);
    if total(chunks) > limit {
        let newer = chunks.drop_first();
        law_kept_is_longest(newer, limit);
        let count = newer.len() - kept(newer, limit).len();
        assert(newer.skip(count) =~= chunks.skip(count + 1));
        assert forall|dropped: int| 0 <= dropped < count + 1 implies total(
            #[trigger] chunks.skip(dropped),
        ) > limit by {
            if dropped > 0 {
                assert(newer.skip(dropped - 1) =~= chunks.skip(dropped));
            }
        }
    }
}

/// A backlog is always within its limit and holds no empty chunk.
pub proof fn law_within_limit(backlog: Backlog)
    requires
        backlog.wf(),
    ensures
        total(backlog@) <= backlog.byte_limit(),
        forall|i: int| 0 <= i < backlog@.len() ==> (#[trigger] backlog@[i]).len() > 0,
{
}

/// A chunk over the limit leaves an empty backlog.
pub proof fn law_oversized_chunk_empties(chunks: Seq<Seq<u8>>, data: Seq<u8>, limit: nat)
    requires
        data.len() > limit,
    ensures
        after_push(chunks, data, limit) == Seq::<Seq<u8>>::empty(),
    decreases chunks.len(),
{
    lemma_total_push(chunks, data);
    if chunks.len() == 0 {
        reveal_with_fuel(kept, 2);
        assert(chunks.push(data).drop_first() =~= Seq::<Seq<u8>>::empty());
    } else {
        assert(chunks.push(data).drop_first() =~= chunks.drop_first().push(data));
        law_oversized_chunk_empties(chunks.drop_first(), data, limit);
    }
}

/// What a backlog that starts empty holds once all these chunks were pushed,
/// first to last.
pub open spec fn after_pushes(pushed: Seq<Seq<u8>>, limit: nat) -> Seq<Seq<u8>>
    decreases pushed.len(),
{
    if pushed.len() == 0 {
        Seq::empty()
    } else {
        after_push(after_pushes(pushed.drop_last(), limit), pushed.last(), limit)
    }
}

/// The chunks that are not empty.
pub open spec fn nonempty(chunks: Seq<Seq<u8>>) -> Seq<Seq<u8>>
    decreases chunks.len(),
{
    if chunks.len() == 0 {
        Seq::empty()
    } else if chunks.last().len() == 0 {
        nonempty(chunks.drop_last())
    } else {
        nonempty(chunks.drop_last()).push(chunks.last())
    }
}

/// Whatever was pushed, a backlog holds the longest run of the newest chunks
/// that is within its limit, as if it had kept everything and dropped the
/// oldest once at the end.
pub proof fn law_backlog_holds_newest(pushed: Seq<Seq<u8>>, limit: nat)
    ensures
        after_pushes(pushed, limit) == kept(nonempty(pushed), limit),
    decreases pushed.len(),
{
    if pushed.len() > 0 {
        law_backlog_holds_newest(pushed.drop_last(), limit);
        if pushed.last().len() > 0 {
            lemma_kept_then_push(nonempty(pushed.drop_last()), pushed.last(), limit);
        }
    }
}

/// Chunks that an earlier push dropped would be dropped by a later one too.
pub proof fn lemma_kept_then_push(chunks: Seq<Seq<u8>>, data: Seq<u8>, limit: nat)
    ensures
        kept(kept(chunks, limit).push(data), limit) == kept(chunks.push(data), limit),
    decreases chunks.len(),
{
    if total(chunks) > limit && chunks.len() > 0 {
        lemma_kept_then_push(chunks.drop_first(), data, limit);
        lemma_total_push(chunks, data);
        assert(chunks.push(data).drop_first() =~= chunks.drop_first().push(data));
    }
}

proof fn lemma_total_push(chunks: Seq<Seq<u8>>, data: Seq<u8>)
    ensures
        total(chunks.push(data)) == total(chunks) + data.len(),
    decreases chunks.len(),
{
    if chunks.len() == 0 {
        reveal_with_fuel(total, 2);
        assert(chunks.push(data).drop_first() =~= Seq::<Seq<u8>>::empty());
    } else {
        lemma_total_push(chunks.drop_first(), data);
        assert(chunks.push(data).drop_first() =~= chunks.drop_first().push(data));
    }
}

/// The number of bytes in chunks adds up.
pub proof fn law_total_adds_up(a: Seq<Seq<u8>>, b: Seq<Seq<u8>>, chunk: Seq<u8>)
    ensures
        total(a + b) == total(a) + total(b),
        total(seq![chunk]) == chunk.len(),
    decreases a.len(),
{
    assert(seq![chunk].drop_first() =~= Seq::<Seq<u8>>::empty());
    reveal_with_fuel(total, 2);
    if a.len() == 0 {
        assert(a + b =~= b);
    } else {
        law_total_adds_up(a.drop_first(), b, chunk);
        assert((a + b).drop_first() =~= a.drop_first() + b);
    }
}

/// A push of an empty chunk changes nothing. Any other push leaves the newest
/// chunks, with the pushed one last: as many as are within the limit together,
/// and all of them if they all are.
pub proof fn law_push_keeps_the_newest(backlog: &mut Backlog, data: Bytes)
    requires
        call_ensures(Backlog::push, (backlog, data), ()),
    ensures
        ({
            let limit = old(backlog).byte_limit();
            let all = old(backlog)@.push(bytes_content(data));
            let after = final(backlog)@;
            &&& final(backlog).byte_limit() == limit
            &&& bytes_content(data).len() == 0 ==> after == old(backlog)@
            &&& bytes_content(data).len() > 0 ==> {
                &&& after.len() <= all.len()
                &&& after == all.skip(all.len() - after.len())
                &&& total(after) <= limit
                &&& total(all) <= limit ==> after == all
                &&& forall|dropped: int|
                    0 <= dropped < all.len() - after.len() ==> total(#[trigger] all.skip(dropped))
                        > limit
            }
        }),
{
    let all = old(backlog)@.push(bytes_content(data));
    law_kept_is_longest(all, old(backlog).byte_limit() as nat);
}

/// A new backlog is empty, and holds up to 64 KiB unless it is told otherwise.
pub proof fn law_new_backlogs_are_empty(plain: Backlog, limit: usize, limited: Backlog)
    requires
        call_ensures(Backlog::new, (), plain),
        call_ensures(Backlog::with_limit, (limit,), limited),
    ensures
        plain@.len() == 0 && plain.byte_limit() == 65536,
        limited@.len() == 0 && limited.byte_limit() == limit,
{
}

/// What a backlog hands out are its chunks, byte for byte, oldest first.
pub proof fn law_history_is_what_is_held(backlog: Backlog, packets: Vec<Packet>, i: int)
    requires
        call_ensures(Backlog::history, (&backlog,), packets),
        0 <= i < backlog@.len(),
    ensures
        packets@.len() == backlog@.len(),
        packets@[i] matches Packet::Data(data) && bytes_content(data) == backlog@[i],
{
}

/// Walking a backlog gives its chunks, byte for byte, oldest first.
pub proof fn law_iter_is_what_is_held(backlog: Backlog, chunks: Iter<'_, Bytes>, i: int)
    requires
        call_ensures(Backlog::iter, (&backlog,), chunks),
        0 <= i < backlog@.len(),
    ensures
        chunks.remaining().len() == backlog@.len(),
        bytes_content(*chunks.remaining()[i]) == backlog@[i],
{
}

} // verus!
