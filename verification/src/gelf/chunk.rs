//! The chunk envelope of GELF over UDP, and the partial message that collects
//! the chunks of one message until all of them have arrived.
//!
//! A chunked datagram starts with a header of twelve bytes: the magic
//! `0x1E 0x0F`, a message id of eight bytes, the sequence number of the chunk
//! and the number of chunks of the message. The rest is the chunk's payload.

use vstd::prelude::*;
use vstd::set_lib::{lemma_len_subset, lemma_subset_equality};

verus! {

/// The length of the chunk header.
pub const HEADER_LEN: usize = 12;

/// Whether `buf` starts with the chunk magic `0x1E 0x0F`.
pub open spec fn has_chunk_magic(buf: Seq<u8>) -> bool {
    buf.len() >= 2 && buf[0] == 0x1E && buf[1] == 0x0F
}

/// The message id of a chunked datagram: bytes 2 to 9, read as one big-endian
/// number.
pub open spec fn chunk_id(buf: Seq<u8>) -> u64
    recommends
        buf.len() >= HEADER_LEN,
{
    (((((((buf[2] as int * 256 + buf[3]) * 256 + buf[4]) * 256 + buf[5]) * 256 + buf[6]) * 256
        + buf[7]) * 256 + buf[8]) * 256 + buf[9]) as u64
}

/// The sequence number of a chunked datagram: byte 10.
pub open spec fn chunk_number(buf: Seq<u8>) -> u8
    recommends
        buf.len() >= HEADER_LEN,
{
    buf[10]
}

/// The number of chunks that a chunked datagram announces: byte 11.
pub open spec fn chunk_count(buf: Seq<u8>) -> u8
    recommends
        buf.len() >= HEADER_LEN,
{
    buf[11]
}

/// The payload of a chunked datagram: all that follows the header.
pub open spec fn chunk_payload(buf: Seq<u8>) -> Seq<u8>
    recommends
        buf.len() >= HEADER_LEN,
{
    buf.subrange(HEADER_LEN as int, buf.len() as int)
}

/// A number in base 256 has one last digit and one rest.
proof fn lemma_last_digit(rest: int, digit: int, other_rest: int, other_digit: int)
    requires
        0 <= digit < 256,
        0 <= other_digit < 256,
        rest * 256 + digit == other_rest * 256 + other_digit,
    ensures
        digit == other_digit,
        rest == other_rest,
{
}

/// The number that the bytes from 2 up to `last` write in base 256.
spec fn id_prefix(buf: Seq<u8>, last: int) -> int
    decreases last,
{
    if last <= 2 {
        buf[2] as int
    } else {
        id_prefix(buf, last - 1) * 256 + buf[last]
    }
}

/// The number that the bytes from 2 up to `last` write fits their width.
proof fn lemma_id_prefix_bound(buf: Seq<u8>, last: int)
    requires
        2 <= last <= 9,
    ensures
        0 <= id_prefix(buf, last) < (if last == 2 {
            0x100int
        } else if last == 3 {
            0x1_0000
        } else if last == 4 {
            0x100_0000
        } else if last == 5 {
            0x1_0000_0000
        } else if last == 6 {
            0x100_0000_0000
        } else if last == 7 {
            0x1_0000_0000_0000
        } else if last == 8 {
            0x100_0000_0000_0000
        } else {
            0x1_0000_0000_0000_0000
        }),
    decreases last,
{
    if last > 2 {
        lemma_id_prefix_bound(buf, last - 1);
    }
}

/// Two headers whose bytes from 2 up to `last` write one number hold the
/// same bytes there.
proof fn lemma_id_prefix_keeps_bytes(a: Seq<u8>, b: Seq<u8>, last: int)
    requires
        2 <= last <= 9,
        id_prefix(a, last) == id_prefix(b, last),
    ensures
        forall|i: int| 2 <= i <= last ==> a[i] == b[i],
    decreases last,
{
    if last > 2 {
        lemma_last_digit(
            id_prefix(a, last - 1),
            a[last] as int,
            id_prefix(b, last - 1),
            b[last] as int,
        );
        lemma_id_prefix_keeps_bytes(a, b, last - 1);
    }
}

/// The eight bytes of the message id are read without loss: two headers
/// that give one message id hold the same eight bytes.
pub proof fn lemma_chunk_id_keeps_bytes(a: Seq<u8>, b: Seq<u8>)
    requires
        a.len() >= HEADER_LEN,
        b.len() >= HEADER_LEN,
        chunk_id(a) == chunk_id(b),
    ensures
        a.subrange(2, 10) == b.subrange(2, 10),
{
    reveal_with_fuel(id_prefix, 8);
    lemma_id_prefix_bound(a, 9);
    lemma_id_prefix_bound(b, 9);
    assert(chunk_id(a) == id_prefix(a, 9));
    assert(chunk_id(b) == id_prefix(b, 9));
    lemma_id_prefix_keeps_bytes(a, b, 9);
    assert(a.subrange(2, 10) =~= b.subrange(2, 10));
}

/// Whether `buf` starts with the chunk magic.
pub fn is_chunk(buf: &[u8]) -> (r: bool)
    ensures
        r == has_chunk_magic(buf@),
{
    if buf.len() < 2 {
        return false;
    }
    buf[0] == 30 && buf[1] == 15
}

/// One chunk of a message, as its datagram holds it.
#[derive(Debug)]
pub struct MessageChunk {
    pub message_id: u64,
    pub sequence_number: u8,
    pub sequence_count: u8,
    pub message_chunk: Vec<u8>,
}

impl MessageChunk {
    /// Reads the header of a chunked datagram and takes its payload.
    pub fn new(buf: Vec<u8>) -> (chunk: MessageChunk)
        requires
            buf.len() >= HEADER_LEN,
        ensures
            chunk.message_id == chunk_id(buf@),
            chunk.sequence_number == chunk_number(buf@),
            chunk.sequence_count == chunk_count(buf@),
            chunk.message_chunk@ == chunk_payload(buf@),
    {
        let mut id: u64 = buf[2] as u64;
        id = id * 256 + buf[3] as u64;
        id = id * 256 + buf[4] as u64;
        id = id * 256 + buf[5] as u64;
        id = id * 256 + buf[6] as u64;
        id = id * 256 + buf[7] as u64;
        id = id * 256 + buf[8] as u64;
        id = id * 256 + buf[9] as u64;
        let sequence_number = buf[10];
        let sequence_count = buf[11];
        let mut buf = buf;
        let message_chunk = buf.split_off(HEADER_LEN);
        MessageChunk { message_id: id, sequence_number, sequence_count, message_chunk }
    }
}

/// The chunks of a partial message as a map from sequence number to payload.
pub open spec fn chunk_map(chunks: Seq<MessageChunk>) -> Map<u8, Seq<u8>> {
    Map::new(
        |n: u8| exists|i: int| 0 <= i < chunks.len() && #[trigger] chunks[i].sequence_number == n,
        |n: u8|
            chunks[choose|i: int|
                0 <= i < chunks.len() && #[trigger] chunks[i].sequence_number
                    == n].message_chunk@,
    )
}

/// Whether the sequence numbers rise strictly along `chunks`.
pub open spec fn ascending(chunks: Seq<MessageChunk>) -> bool {
    forall|i: int, j: int|
        0 <= i < j < chunks.len() ==> #[trigger] chunks[i].sequence_number
            < #[trigger] chunks[j].sequence_number
}

/// Whether every sequence number from 0 up to `count` has its chunk.
pub open spec fn all_present(chunks: Map<u8, Seq<u8>>, count: nat) -> bool {
    forall|n: u8| n < count ==> chunks.contains_key(n)
}

/// The payloads of the first `count` sequence numbers, one after the other.
pub open spec fn assembled(chunks: Map<u8, Seq<u8>>, count: nat) -> Seq<u8>
    decreases count,
{
    if count == 0 {
        Seq::empty()
    } else {
        assembled(chunks, (count - 1) as nat) + chunks[(count - 1) as u8]
    }
}

/// What a partial message is: when its first chunk came, how many chunks it
/// waits for, and the payloads it has, by sequence number.
pub struct PartialView {
    pub first_seen: u64,
    pub expected_count: u8,
    pub chunks: Map<u8, Seq<u8>>,
}

impl PartialView {
    /// The partial message that a first chunk opens, before the chunk is added.
    pub open spec fn fresh(first_seen: u64, expected_count: u8) -> PartialView {
        PartialView { first_seen, expected_count, chunks: Map::empty() }
    }

    /// The partial message with one more chunk. A chunk that was there under
    /// the same sequence number is replaced.
    pub open spec fn with_chunk(self, number: u8, payload: Seq<u8>) -> PartialView {
        PartialView { chunks: self.chunks.insert(number, payload), ..self }
    }

    /// Whether all chunks have arrived.
    pub open spec fn complete(self) -> bool {
        all_present(self.chunks, self.expected_count as nat)
    }

    /// The message: the payloads in the order of their sequence numbers.
    pub open spec fn payload(self) -> Seq<u8> {
        assembled(self.chunks, self.expected_count as nat)
    }

    /// No chunk lies at or beyond the expected count.
    pub open spec fn bounded(self) -> bool {
        forall|n: u8| self.chunks.contains_key(n) ==> n < self.expected_count
    }
}

/// The sequence numbers below `count`.
pub open spec fn numbers_below(count: nat) -> Set<u8> {
    Set::new(|n: u8| n < count)
}

/// There are `count` sequence numbers below `count`.
proof fn lemma_numbers_below(count: nat)
    requires
        count <= 256,
    ensures
        numbers_below(count).finite(),
        numbers_below(count).len() == count,
    decreases count,
{
    if count == 0 {
        assert(numbers_below(count) =~= Set::<u8>::empty());
    } else {
        lemma_numbers_below((count - 1) as nat);
        assert(numbers_below(count) =~= numbers_below((count - 1) as nat).insert(
            (count - 1) as u8,
        ));
    }
}

/// A partial message whose chunks all lie below its count is complete
/// exactly when it holds as many chunks as it expects.
pub proof fn lemma_complete_by_count(partial: PartialView)
    requires
        partial.bounded(),
    ensures
        partial.chunks.dom().finite(),
        partial.complete() <==> partial.chunks.len() == partial.expected_count,
{
    let held = partial.chunks.dom();
    let all = numbers_below(partial.expected_count as nat);
    lemma_numbers_below(partial.expected_count as nat);
    assert(held.subset_of(all));
    lemma_len_subset(held, all);
    if partial.complete() {
        assert(held =~= all);
    } else if held.len() == all.len() {
        lemma_subset_equality(held, all);
        assert forall|n: u8| n < partial.expected_count implies partial.chunks.contains_key(n) by {
            assert(all.contains(n));
        }
    }
}

/// The chunks of one message that have arrived so far, kept in the order of
/// their sequence numbers.
#[derive(Debug)]
pub struct PartialMessage {
    first_seen: u64,
    expected_count: u8,
    chunks: Vec<MessageChunk>,
}

impl View for PartialMessage {
    type V = PartialView;

    closed spec fn view(&self) -> PartialView {
        PartialView {
            first_seen: self.first_seen,
            expected_count: self.expected_count,
            chunks: chunk_map(self.chunks@),
        }
    }
}

/// In a sequence with rising sequence numbers each chunk is found under its
/// own number.
proof fn lemma_chunk_map_at(chunks: Seq<MessageChunk>, i: int)
    requires
        ascending(chunks),
        0 <= i < chunks.len(),
    ensures
        chunk_map(chunks).contains_key(chunks[i].sequence_number),
        chunk_map(chunks)[chunks[i].sequence_number] == chunks[i].message_chunk@,
{
    let n = chunks[i].sequence_number;
    let j = choose|j: int| 0 <= j < chunks.len() && #[trigger] chunks[j].sequence_number == n;
    assert(j == i) by {
        if j < i {
            assert(chunks[j].sequence_number < chunks[i].sequence_number);
        } else if i < j {
            assert(chunks[i].sequence_number < chunks[j].sequence_number);
        }
    }
}

/// Rising sequence numbers lie at or above their index.
proof fn lemma_ascending_lower(chunks: Seq<MessageChunk>, i: int)
    requires
        ascending(chunks),
        0 <= i < chunks.len(),
    ensures
        chunks[i].sequence_number >= i,
    decreases i,
{
    if i > 0 {
        lemma_ascending_lower(chunks, i - 1);
        assert(chunks[i - 1].sequence_number < chunks[i].sequence_number);
    }
}

/// Rising sequence numbers below `count` leave room above them for the chunks
/// that follow.
proof fn lemma_ascending_upper(chunks: Seq<MessageChunk>, count: int, i: int)
    requires
        ascending(chunks),
        forall|k: int| 0 <= k < chunks.len() ==> (#[trigger] chunks[k]).sequence_number < count,
        0 <= i < chunks.len(),
    ensures
        chunks[i].sequence_number + (chunks.len() - i) <= count,
    decreases chunks.len() - i,
{
    if i + 1 < chunks.len() {
        lemma_ascending_upper(chunks, count, i + 1);
        assert(chunks[i].sequence_number < chunks[i + 1].sequence_number);
    }
}

/// The chunk with sequence number `n` stands at or beyond index `n` when all
/// smaller numbers are present too.
proof fn lemma_present_index(chunks: Seq<MessageChunk>, n: int) -> (i: int)
    requires
        ascending(chunks),
        0 <= n < 256,
        forall|m: u8| m <= n ==> chunk_map(chunks).contains_key(m),
    ensures
        n <= i < chunks.len(),
        chunks[i].sequence_number == n,
    decreases n,
{
    let m = n as u8;
    assert(chunk_map(chunks).contains_key(m));
    let i = choose|i: int| 0 <= i < chunks.len() && #[trigger] chunks[i].sequence_number == m;
    if n > 0 {
        let j = lemma_present_index(chunks, n - 1);
        if i <= j {
            if i < j {
                assert(chunks[i].sequence_number < chunks[j].sequence_number);
            }
        }
    }
    i
}

/// Putting `chunk` in the place of the chunk with the same sequence number
/// keeps the numbers rising and replaces the payload under that number.
proof fn lemma_replace(before: Seq<MessageChunk>, at: int, chunk: MessageChunk)
    requires
        ascending(before),
        0 <= at < before.len(),
        before[at].sequence_number == chunk.sequence_number,
    ensures
        ascending(before.update(at, chunk)),
        chunk_map(before.update(at, chunk)) == chunk_map(before).insert(
            chunk.sequence_number,
            chunk.message_chunk@,
        ),
{
    let after = before.update(at, chunk);
    let number = chunk.sequence_number;
    let wanted = chunk_map(before).insert(number, chunk.message_chunk@);
    assert forall|i: int, j: int| 0 <= i < j < after.len() implies (
    #[trigger] after[i]).sequence_number < (#[trigger] after[j]).sequence_number by {
        assert(before[i].sequence_number < before[j].sequence_number);
    }
    assert forall|n: u8| wanted.contains_key(n) implies chunk_map(after).contains_key(n) by {
        if n != number {
            let i = choose|i: int|
                0 <= i < before.len() && #[trigger] before[i].sequence_number == n;
            assert(after[i].sequence_number == n);
        } else {
            assert(after[at].sequence_number == n);
        }
    }
    assert forall|n: u8| chunk_map(after).contains_key(n) implies wanted.contains_key(n)
        && chunk_map(after)[n] == wanted[n] by {
        let i = choose|i: int| 0 <= i < after.len() && #[trigger] after[i].sequence_number == n;
        lemma_chunk_map_at(after, i);
        if i != at {
            assert(before[i].sequence_number == n);
            lemma_chunk_map_at(before, i);
        }
    }
    assert(chunk_map(after) =~= wanted);
}

/// Putting `chunk` between the smaller and the larger sequence numbers keeps
/// the numbers rising and adds the payload under the chunk's number.
proof fn lemma_insert(before: Seq<MessageChunk>, at: int, chunk: MessageChunk)
    requires
        ascending(before),
        0 <= at <= before.len(),
        forall|k: int| 0 <= k < at ==> (#[trigger] before[k]).sequence_number < chunk.sequence_number,
        forall|k: int|
            at <= k < before.len() ==> (#[trigger] before[k]).sequence_number
                > chunk.sequence_number,
    ensures
        ascending(before.insert(at, chunk)),
        chunk_map(before.insert(at, chunk)) == chunk_map(before).insert(
            chunk.sequence_number,
            chunk.message_chunk@,
        ),
{
    let after = before.insert(at, chunk);
    let number = chunk.sequence_number;
    let wanted = chunk_map(before).insert(number, chunk.message_chunk@);
    assert(forall|k: int| 0 <= k < at ==> after[k] == before[k]);
    assert(forall|k: int| at < k < after.len() ==> after[k] == before[k - 1]);
    assert forall|i: int, j: int| 0 <= i < j < after.len() implies (
    #[trigger] after[i]).sequence_number < (#[trigger] after[j]).sequence_number by {
        if j < at {
            assert(before[i].sequence_number < before[j].sequence_number);
        } else if j == at {
            assert(before[i].sequence_number < number);
        } else if i < at {
            assert(before[i].sequence_number < before[j - 1].sequence_number);
        } else if i == at {
            assert(before[j - 1].sequence_number > number);
        } else {
            assert(before[i - 1].sequence_number < before[j - 1].sequence_number);
        }
    }
    assert forall|n: u8| wanted.contains_key(n) implies chunk_map(after).contains_key(n) by {
        if n != number {
            let i = choose|i: int|
                0 <= i < before.len() && #[trigger] before[i].sequence_number == n;
            if i < at {
                assert(after[i].sequence_number == n);
            } else {
                assert(after[i + 1].sequence_number == n);
            }
        } else {
            assert(after[at].sequence_number == n);
        }
    }
    assert forall|n: u8| chunk_map(after).contains_key(n) implies wanted.contains_key(n)
        && chunk_map(after)[n] == wanted[n] by {
        let i = choose|i: int| 0 <= i < after.len() && #[trigger] after[i].sequence_number == n;
        lemma_chunk_map_at(after, i);
        if i < at {
            assert(before[i].sequence_number == n);
            lemma_chunk_map_at(before, i);
        } else if i > at {
            assert(before[i - 1].sequence_number == n);
            lemma_chunk_map_at(before, i - 1);
        }
    }
    assert(chunk_map(after) =~= wanted);
}

impl PartialMessage {
    /// Well-formedness: the sequence numbers rise strictly and stay below the
    /// expected count, and every chunk announces that count.
    pub closed spec fn wf(&self) -> bool {
        &&& ascending(self.chunks@)
        &&& forall|k: int|
            0 <= k < self.chunks.len() ==> (#[trigger] self.chunks[k]).sequence_number
                < self.expected_count
        &&& forall|k: int|
            0 <= k < self.chunks.len() ==> (#[trigger] self.chunks[k]).sequence_count
                == self.expected_count
    }

    /// A well-formed partial message holds no chunk at or beyond its count.
    pub proof fn lemma_bounded(&self)
        requires
            self.wf(),
        ensures
            self@.bounded(),
    {
    }

    /// A partial message without chunks, opened at `first_seen`.
    pub fn new(first_seen: u64, expected_count: u8) -> (p: PartialMessage)
        ensures
            p.wf(),
            p@ == PartialView::fresh(first_seen, expected_count),
    {
        let p = PartialMessage { first_seen, expected_count, chunks: Vec::new() };
        assert(p@.chunks =~= Map::empty());
        p
    }

    /// When the first chunk came.
    pub fn first_seen(&self) -> (t: u64)
        ensures
            t == self@.first_seen,
    {
        self.first_seen
    }

    /// How many chunks the message has.
    pub fn expected_count(&self) -> (n: u8)
        ensures
            n == self@.expected_count,
    {
        self.expected_count
    }

    /// A well-formed partial message is complete exactly when it holds as
    /// many chunks as it expects.
    proof fn lemma_complete_len(&self)
        requires
            self.wf(),
        ensures
            self@.complete() <==> self.chunks.len() == self.expected_count,
    {
        let chunks = self.chunks@;
        let count = self.expected_count as int;
        if chunks.len() == count {
            assert forall|n: u8| n < count implies chunk_map(chunks).contains_key(n) by {
                lemma_ascending_lower(chunks, n as int);
                lemma_ascending_upper(chunks, count, n as int);
                lemma_chunk_map_at(chunks, n as int);
            }
        } else if self@.complete() {
            if count > 0 {
                let i = lemma_present_index(chunks, count - 1);
                lemma_ascending_upper(chunks, count, 0);
            } else {
                if chunks.len() > 0 {
                    assert(chunks[0].sequence_number < count);
                }
            }
        }
    }

    /// Whether all chunks have arrived.
    pub fn is_complete(&self) -> (r: bool)
        requires
            self.wf(),
        ensures
            r == self@.complete(),
    {
        proof {
            self.lemma_complete_len();
        }
        self.chunks.len() == self.expected_count as usize
    }

    /// Adds a chunk at the place of its sequence number. A chunk that was
    /// there under the same number is replaced.
    pub fn add(&mut self, chunk: MessageChunk)
        requires
            old(self).wf(),
            chunk.sequence_number < old(self)@.expected_count,
            chunk.sequence_count == old(self)@.expected_count,
        ensures
            final(self).wf(),
            final(self)@ == old(self)@.with_chunk(chunk.sequence_number, chunk.message_chunk@),
    {
        let ghost before = self.chunks@;
        let number = chunk.sequence_number;
        let mut at: usize = self.chunks.len();
        while at > 0 && self.chunks[at - 1].sequence_number > number
            invariant
                at <= self.chunks.len(),
                self.chunks@ == before,
                forall|k: int|
                    at <= k < before.len() ==> (#[trigger] before[k]).sequence_number > number,
            decreases at,
        {
            at = at - 1;
        }
        if at > 0 && self.chunks[at - 1].sequence_number == number {
            proof {
                lemma_replace(before, at - 1, chunk);
            }
            self.chunks[at - 1] = chunk;
        } else {
            proof {
                if at > 0 {
                    assert(before[at - 1].sequence_number < number);
                }
                lemma_insert(before, at as int, chunk);
            }
            self.chunks.insert(at, chunk);
        }
    }

    /// The message, once all its chunks have arrived: their payloads in the
    /// order of the sequence numbers.
    pub fn assemble(self) -> (payload: Vec<u8>)
        requires
            self.wf(),
            self@.complete(),
        ensures
            payload@ == self@.payload(),
    {
        proof {
            self.lemma_complete_len();
        }
        let ghost chunks = self.chunks@;
        let count = self.chunks.len();
        let parts = self.chunks;
        let mut payload: Vec<u8> = Vec::new();
        let mut i: usize = 0;
        while i < count
            invariant
                i <= count,
                count == chunks.len(),
                parts@ == chunks,
                ascending(chunks),
                forall|k: int|
                    0 <= k < chunks.len() ==> (#[trigger] chunks[k]).sequence_number < count,
                payload@ == assembled(chunk_map(chunks), i as nat),
            decreases count - i,
        {
            proof {
                lemma_ascending_lower(chunks, i as int);
                lemma_ascending_upper(chunks, count as int, i as int);
                lemma_chunk_map_at(chunks, i as int);
                reveal_with_fuel(assembled, 2);
            }
            payload.extend_from_slice(parts[i].message_chunk.as_slice());
            i = i + 1;
        }
        payload
    }
}

} // verus!
