//! The datagram side of the gateway: the table that reassembles chunked
//! messages.
//!
//! The table holds one partial message for each message id of which chunks
//! have arrived. It never holds more partial messages than its capacity:
//! when a chunk would open one more, the partial messages that are older
//! than five seconds are evicted first, and where none is, the chunk is
//! dropped.

use crate::clock::unix_millis;
use crate::gelf::acceptor::{AcceptorType, PacketState};
use crate::gelf::chunk::{
    chunk_count, chunk_id, chunk_number, chunk_payload, has_chunk_magic, is_chunk, MessageChunk,
    PartialMessage, PartialView, HEADER_LEN,
};
use crate::gelf::error::GelfError;
use std::collections::HashMap;
use vstd::prelude::*;
use vstd::set_lib::lemma_len_subset;

verus! {

broadcast use vstd::std_specs::hash::group_hash_axioms;

/// The age in milliseconds beyond which a partial message may be evicted.
pub const EVICTION_AGE_MILLIS: u64 = 5000;

/// A datagram as it was received.
pub struct UnchankMessage(pub Vec<u8>);

/// Why a chunked datagram was dropped. The first three are format errors:
/// the header is cut short or contradicts itself or the chunks before it.
#[derive(Debug, Clone, Copy, PartialEq, Eq)]
pub enum ChunkError {
    /// The datagram has the chunk magic and fewer bytes than a header.
    Truncated,
    /// The sequence number is not below the number of chunks.
    BadSequence,
    /// The number of chunks differs from the one that the message's earlier
    /// chunks gave.
    CountMismatch,
    /// The chunk would open a partial message, the table is at capacity and
    /// holds nothing old enough to evict.
    TableFull,
}

/// Whether a partial message is older than the eviction age at `now`.
pub open spec fn is_stale(partial: PartialView, now: u64) -> bool {
    now - partial.first_seen > EVICTION_AGE_MILLIS
}

/// What the table holds: its partial messages by message id, and how many of
/// them it may hold.
pub struct TableView {
    pub partials: Map<u64, PartialView>,
    pub capacity: nat,
}

/// What one datagram does to the table: the table after it, the ids of the
/// partial messages that were evicted, and what is handed on. `Ok(Some(..))`
/// is a payload for the next stage, `Ok(None)` a chunk that was stored while
/// its message is still incomplete.
pub struct Step {
    pub table: TableView,
    pub evicted: Set<u64>,
    pub output: Result<Option<Seq<u8>>, ChunkError>,
}

impl TableView {
    /// The ids of the partial messages that are stale at `now`.
    pub open spec fn stale_ids(self, now: u64) -> Set<u64> {
        Set::new(|id: u64| self.partials.contains_key(id) && is_stale(self.partials[id], now))
    }

    /// The table without the partial messages that are stale at `now`.
    pub open spec fn without_stale(self, now: u64) -> TableView {
        TableView { partials: self.partials.remove_keys(self.stale_ids(now)), ..self }
    }

    /// Whether the table has no room for one more partial message.
    pub open spec fn is_full(self) -> bool {
        self.partials.len() >= self.capacity
    }

    /// The table leaves a datagram alone that it drops.
    pub open spec fn reject(self, error: ChunkError) -> Step {
        Step { table: self, evicted: Set::empty(), output: Err(error) }
    }

    /// The table takes `partial`, which has just got a chunk, under `id`: it
    /// hands the message on and forgets the id where the chunk was the last
    /// one missing, and keeps the partial message where it was not.
    pub open spec fn collect(self, id: u64, partial: PartialView, evicted: Set<u64>) -> Step {
        if partial.complete() {
            Step {
                table: TableView { partials: self.partials.remove(id), ..self },
                evicted,
                output: Ok(Some(partial.payload())),
            }
        } else {
            Step {
                table: TableView { partials: self.partials.insert(id, partial), ..self },
                evicted,
                output: Ok(None),
            }
        }
    }

    /// Whether the table holds finitely many partial messages and no more
    /// than its capacity.
    pub open spec fn within_capacity(self) -> bool {
        self.partials.dom().finite() && self.partials.len() <= self.capacity
    }

    /// The table where `room` was made for one more partial message at
    /// `now`: a full table loses its stale partial messages.
    pub open spec fn room(self, now: u64) -> TableView {
        if self.is_full() {
            self.without_stale(now)
        } else {
            self
        }
    }

    /// The table after a run of datagrams, each with the time at which it
    /// was received.
    pub open spec fn accept_all(self, datagrams: Seq<Seq<u8>>, times: Seq<u64>) -> TableView
        decreases datagrams.len(),
    {
        if datagrams.len() == 0 {
            self
        } else {
            self.accept_all(datagrams.drop_last(), times.drop_last()).accept(
                datagrams.last(),
                times.last(),
            ).table
        }
    }

    /// What the datagram `buf`, received at `now`, does to the table.
    ///
    /// A datagram without the chunk magic is handed on as it is. A chunk is
    /// dropped where its header is cut short, where its sequence number is
    /// not below its count, and where its count is not that of its message.
    /// A chunk of a message that the table knows is added to it. A chunk of
    /// a new message opens a partial message; where the table is full, the
    /// stale partial messages are evicted first, and where it is full even
    /// then, the chunk is dropped.
    pub open spec fn accept(self, buf: Seq<u8>, now: u64) -> Step {
        let id = chunk_id(buf);
        let number = chunk_number(buf);
        let count = chunk_count(buf);
        if !has_chunk_magic(buf) {
            Step { table: self, evicted: Set::empty(), output: Ok(Some(buf)) }
        } else if buf.len() < HEADER_LEN {
            self.reject(ChunkError::Truncated)
        } else if number >= count {
            self.reject(ChunkError::BadSequence)
        } else if self.partials.contains_key(id) {
            if self.partials[id].expected_count != count {
                self.reject(ChunkError::CountMismatch)
            } else {
                self.collect(
                    id,
                    self.partials[id].with_chunk(number, chunk_payload(buf)),
                    Set::empty(),
                )
            }
        } else {
            let room = self.room(now);
            let evicted = if self.is_full() {
                self.stale_ids(now)
            } else {
                Set::empty()
            };
            if room.is_full() {
                Step { table: room, evicted, output: Err(ChunkError::TableFull) }
            } else {
                room.collect(
                    id,
                    PartialView::fresh(now, count).with_chunk(number, chunk_payload(buf)),
                    evicted,
                )
            }
        }
    }
}

/// What a datagram brought: the payload or the error for the next stage, and
/// the ids of the partial messages that were evicted to make room.
#[derive(Debug)]
pub struct Reassembly {
    pub output: Result<Option<Vec<u8>>, ChunkError>,
    pub evicted: Vec<u64>,
}

/// The output of a step with the payload as a sequence of bytes.
pub open spec fn output_view(output: Result<Option<Vec<u8>>, ChunkError>) -> Result<
    Option<Seq<u8>>,
    ChunkError,
> {
    match output {
        Ok(Some(payload)) => Ok(Some(payload@)),
        Ok(None) => Ok(None),
        Err(e) => Err(e),
    }
}

/// The reassembly table.
pub struct ChunkAcceptor {
    chunked_messages: HashMap<u64, PartialMessage>,
    max_parallel_chunks: usize,
}

impl View for ChunkAcceptor {
    type V = TableView;

    closed spec fn view(&self) -> TableView {
        TableView {
            partials: self.chunked_messages@.map_values(|p: PartialMessage| p@),
            capacity: self.max_parallel_chunks as nat,
        }
    }
}

impl ChunkAcceptor {
    /// Well-formedness: every partial message is well-formed, and there are
    /// no more of them than the capacity allows.
    pub closed spec fn wf(&self) -> bool {
        &&& self.chunked_messages@.len() <= self.max_parallel_chunks
        &&& forall|id: u64| #[trigger]
            self.chunked_messages@.contains_key(id) ==> self.chunked_messages@[id].wf()
    }

    /// A well-formed table holds no more partial messages than its capacity,
    /// and none of them holds a chunk beyond its count.
    pub proof fn lemma_wf(&self)
        requires
            self.wf(),
        ensures
            self@.partials.dom().finite(),
            self@.partials.len() <= self@.capacity,
            forall|id: u64| #[trigger]
                self@.partials.contains_key(id) ==> self@.partials[id].bounded(),
    {
        assert(self@.partials.dom() =~= self.chunked_messages@.dom());
        assert forall|id: u64| #[trigger]
            self@.partials.contains_key(id) implies self@.partials[id].bounded() by {
            self.chunked_messages@[id].lemma_bounded();
        }
    }

    /// An empty table that holds up to `max_parallel_chunks` partial messages.
    pub fn new(max_parallel_chunks: usize) -> (table: ChunkAcceptor)
        ensures
            table.wf(),
            table@ == (TableView { partials: Map::empty(), capacity: max_parallel_chunks as nat }),
    {
        let table = ChunkAcceptor { chunked_messages: HashMap::new(), max_parallel_chunks };
        assert(table@.partials =~= Map::empty());
        table
    }

    /// The number of partial messages in the table.
    pub fn len(&self) -> (n: usize)
        ensures
            n == self@.partials.len(),
    {
        assert(self@.partials.dom() =~= self.chunked_messages@.dom());
        self.chunked_messages.len()
    }

    /// The number of partial messages that the table may hold.
    pub fn capacity(&self) -> (n: usize)
        ensures
            n == self@.capacity,
    {
        self.max_parallel_chunks
    }

    /// Whether the table holds a partial message under `id`.
    pub fn contains(&self, id: u64) -> (r: bool)
        ensures
            r == self@.partials.contains_key(id),
    {
        self.chunked_messages.contains_key(&id)
    }

    /// Removes every partial message that is stale at `now` and returns
    /// their ids.
    pub fn evict_stale(&mut self, now: u64) -> (evicted: Vec<u64>)
        requires
            old(self).wf(),
        ensures
            final(self).wf(),
            final(self)@ == old(self)@.without_stale(now),
            evicted@.to_set() == old(self)@.stale_ids(now),
            evicted@.no_duplicates(),
    {
        let ghost before = self.chunked_messages@;
        let mut found: Vec<u64> = Vec::new();
        for entry in it: self.chunked_messages.iter()
            invariant
                self.chunked_messages@ == before,
                forall|j: int|
                    0 <= j < found.len() ==> before.contains_key(#[trigger] found[j]) && is_stale(
                        before[found[j]]@,
                        now,
                    ),
                forall|i: int|
                    0 <= i < it.index() ==> (is_stale((*(#[trigger] it.seq()[i]).1)@, now)
                        ==> found@.contains(*it.seq()[i].0)),
        {
            let (id, partial) = entry;
            assert(entry == it.seq()[it.index()]);
            let ghost earlier = found@;
            let first_seen = partial.first_seen();
            if now > first_seen && now - first_seen > EVICTION_AGE_MILLIS {
                found.push(*id);
                assert(found@[found.len() - 1] == *id);
            }
            assert(forall|j: int| 0 <= j < earlier.len() ==> found@[j] == earlier[j]);
        }
        assert(forall|id: u64|
            before.contains_key(id) && is_stale(before[id]@, now) ==> found@.contains(id));
        let mut evicted: Vec<u64> = Vec::new();
        let mut j: usize = 0;
        while j < found.len()
            invariant
                j <= found.len(),
                self.max_parallel_chunks == old(self).max_parallel_chunks,
                before == old(self).chunked_messages@,
                before.dom().finite(),
                forall|k: int|
                    0 <= k < found.len() ==> before.contains_key(#[trigger] found[k]) && is_stale(
                        before[found[k]]@,
                        now,
                    ),
                forall|id: u64| #[trigger]
                    self.chunked_messages@.contains_key(id) ==> before.contains_key(id)
                        && self.chunked_messages@[id] == before[id],
                forall|id: u64|
                    before.contains_key(id) && !(#[trigger] self.chunked_messages@.contains_key(id))
                        ==> is_stale(before[id]@, now) && evicted@.contains(id),
                forall|k: int| 0 <= k < j ==> !self.chunked_messages@.contains_key(#[trigger] found[k]),
                forall|k: int|
                    0 <= k < evicted.len() ==> before.contains_key(#[trigger] evicted[k])
                        && !self.chunked_messages@.contains_key(evicted[k]),
                evicted@.no_duplicates(),
            decreases found.len() - j,
        {
            let id = found[j];
            let ghost earlier = evicted@;
            let removed = self.chunked_messages.remove(&id);
            if removed.is_some() {
                evicted.push(id);
                assert(evicted@[evicted.len() - 1] == id);
            }
            assert(forall|k: int| 0 <= k < earlier.len() ==> evicted@[k] == earlier[k]);
            assert forall|other: u64|
                before.contains_key(other) && !(#[trigger] self.chunked_messages@.contains_key(
                    other,
                )) implies is_stale(before[other]@, now) && evicted@.contains(other) by {
                if other != id {
                    assert(earlier.contains(other));
                    let k = choose|k: int| 0 <= k < earlier.len() && earlier[k] == other;
                    assert(evicted@[k] == other);
                }
            }
            j = j + 1;
        }
        proof {
            let after = self.chunked_messages@;
            let stale = old(self)@.stale_ids(now);
            assert(old(self)@.partials.dom() =~= before.dom());
            assert(self@.partials =~= old(self)@.partials.remove_keys(stale)) by {
                assert forall|id: u64| #[trigger]
                    old(self)@.partials.remove_keys(stale).contains_key(id) implies after.contains_key(
                    id,
                ) by {
                    if !after.contains_key(id) {
                        assert(is_stale(before[id]@, now));
                    }
                }
                assert forall|id: u64| #[trigger] after.contains_key(id) implies old(
                    self,
                )@.partials.remove_keys(stale).contains_key(id) by {
                    if is_stale(before[id]@, now) {
                        assert(found@.contains(id));
                        let k = choose|k: int| 0 <= k < found.len() && found@[k] == id;
                        assert(!after.contains_key(found[k]));
                    }
                }
            }
            assert(evicted@.to_set() =~= stale) by {
                assert forall|id: u64| stale.contains(id) implies evicted@.to_set().contains(id) by {
                    assert(found@.contains(id));
                    let k = choose|k: int| 0 <= k < found.len() && found@[k] == id;
                    assert(!after.contains_key(found[k]));
                }
                assert forall|id: u64| evicted@.to_set().contains(id) implies stale.contains(id) by {
                    let k = choose|k: int| 0 <= k < evicted.len() && evicted@[k] == id;
                    assert(before.contains_key(evicted[k]));
                }
            }
            assert(after.dom().subset_of(before.dom()));
            lemma_len_subset(after.dom(), before.dom());
        }
        evicted
    }

    /// Takes the datagram that was received at `now` (in milliseconds): see
    /// [`TableView::accept`]. A datagram that is no chunk comes back as it
    /// is, without a copy.
    pub fn handle_at(&mut self, msg: UnchankMessage, now: u64) -> (r: Reassembly)
        requires
            old(self).wf(),
        ensures
            final(self).wf(),
            final(self)@ == old(self)@.accept(msg.0@, now).table,
            output_view(r.output) == old(self)@.accept(msg.0@, now).output,
            r.evicted@.to_set() == old(self)@.accept(msg.0@, now).evicted,
            r.evicted@.no_duplicates(),
            final(self)@.within_capacity(),
            !has_chunk_magic(msg.0@) ==> final(self)@ == old(self)@ && r.evicted@.len() == 0
                && r.output == Ok::<Option<Vec<u8>>, ChunkError>(Some(msg.0)),
    {
        let buf = msg.0;
        let ghost bytes = buf@;
        let ghost start = self@;
        proof {
            self.lemma_wf();
        }
        if !is_chunk(buf.as_slice()) {
            return Reassembly { output: Ok(Some(buf)), evicted: Vec::new() };
        }
        if buf.len() < HEADER_LEN {
            return Reassembly { output: Err(ChunkError::Truncated), evicted: Vec::new() };
        }
        let chunk = MessageChunk::new(buf);
        if chunk.sequence_number >= chunk.sequence_count {
            return Reassembly { output: Err(ChunkError::BadSequence), evicted: Vec::new() };
        }
        let id = chunk.message_id;
        let count = chunk.sequence_count;
        let mut evicted: Vec<u64> = Vec::new();
        proof {
            self.lemma_wf();
            assert(start.partials.dom() =~= self.chunked_messages@.dom());
        }
        match self.chunked_messages.get(&id) {
            Some(partial) => {
                if partial.expected_count() != count {
                    return Reassembly { output: Err(ChunkError::CountMismatch), evicted };
                }
            },
            None => {
                if self.chunked_messages.len() >= self.max_parallel_chunks {
                    evicted = self.evict_stale(now);
                    proof {
                        self.lemma_wf();
                        assert(self@.partials.dom() =~= self.chunked_messages@.dom());
                    }
                    if self.chunked_messages.len() >= self.max_parallel_chunks {
                        return Reassembly { output: Err(ChunkError::TableFull), evicted };
                    }
                }
            },
        }
        let ghost room = self@;
        let ghost held = self.chunked_messages@;
        assert(room.partials.dom() =~= held.dom());
        let mut partial = match self.chunked_messages.remove(&id) {
            Some(partial) => partial,
            None => PartialMessage::new(now, count),
        };
        partial.add(chunk);
        assert(self.chunked_messages@ == held.remove(id));
        if partial.is_complete() {
            let payload = partial.assemble();
            proof {
                assert(self@.partials =~= room.partials.remove(id));
                assert(self.chunked_messages@.dom().subset_of(held.dom()));
                lemma_len_subset(self.chunked_messages@.dom(), held.dom());
                self.lemma_wf();
            }
            Reassembly { output: Ok(Some(payload)), evicted }
        } else {
            let ghost kept = partial@;
            self.chunked_messages.insert(id, partial);
            proof {
                assert(self@.partials =~= room.partials.insert(id, kept));
                assert(self.chunked_messages@.dom() =~= held.dom().insert(id));
                self.lemma_wf();
            }
            Reassembly { output: Ok(None), evicted }
        }
    }

    /// Takes a datagram that has just been received: [`Self::handle_at`] with
    /// the reading of the system clock.
    pub fn handle(&mut self, msg: UnchankMessage) -> (r: Reassembly)
        requires
            old(self).wf(),
        ensures
            final(self).wf(),
            exists|now: u64|
                {
                    &&& final(self)@ == (#[trigger] old(self)@.accept(msg.0@, now)).table
                    &&& output_view(r.output) == old(self)@.accept(msg.0@, now).output
                    &&& r.evicted@.to_set() == old(self)@.accept(msg.0@, now).evicted
                },
            r.evicted@.no_duplicates(),
            final(self)@.within_capacity(),
            !has_chunk_magic(msg.0@) ==> final(self)@ == old(self)@ && r.evicted@.len() == 0
                && r.output == Ok::<Option<Vec<u8>>, ChunkError>(Some(msg.0)),
    {
        let now = unix_millis();
        self.handle_at(msg, now)
    }
}

/// What a datagram came to: the state in which its run ended, and the ids of
/// the partial messages that were evicted to make room for it.
#[derive(Debug)]
pub struct Handled {
    pub state: PacketState,
    pub evicted: Vec<u64>,
}

/// Whether `state` is where a datagram ends that did `step` to the table: a
/// chunk that was dropped is dropped, a chunk that was stored is held, and a
/// payload has run through the stages that follow.
pub open spec fn datagram_ends(step: Step, state: PacketState) -> bool {
    match step.output {
        Err(_) => state.dropped_for("udp chunk error"@),
        Ok(None) => state is Held,
        Ok(Some(payload)) => AcceptorType::UDP.staged(payload, state),
    }
}

/// The state that follows reassembly: a payload goes on, a stored chunk is
/// held, and a chunk that the table refused is dropped.
pub fn reassembled(output: Result<Option<Vec<u8>>, ChunkError>) -> (state: PacketState)
    ensures
        output matches Ok(Some(payload)) ==> state == PacketState::Reassembled(payload),
        output matches Ok(None) ==> state is Held,
        output is Err ==> state.dropped_for("udp chunk error"@),
{
    match output {
        Ok(Some(payload)) => PacketState::Reassembled(payload),
        Ok(None) => PacketState::Held,
        Err(e) => PacketState::Dropped(GelfError::from_err("udp chunk error", e)),
    }
}

/// Runs the datagram that was received at `now` through the table and, where
/// a payload comes out, through the stages that follow, up to the store event
/// that is ready to be sent.
pub fn handle_datagram(table: &mut ChunkAcceptor, datagram: Vec<u8>, now: u64) -> (r: Handled)
    requires
        old(table).wf(),
    ensures
        final(table).wf(),
        final(table)@ == old(table)@.accept(datagram@, now).table,
        r.evicted@.to_set() == old(table)@.accept(datagram@, now).evicted,
        r.evicted@.no_duplicates(),
        datagram_ends(old(table)@.accept(datagram@, now), r.state),
        r.state is Translated || r.state is Held || r.state is Dropped,
{
    let Reassembly { output, evicted } = table.handle_at(UnchankMessage(datagram), now);
    let state = match reassembled(output) {
        PacketState::Reassembled(payload) => AcceptorType::UDP.process(payload),
        other => other,
    };
    Handled { state, evicted }
}

} // verus!
