//! What holds of the reassembly table over runs of datagrams: a datagram
//! that is no chunk passes, the table stays within its capacity, and the
//! chunks of a message give the message in whatever order they arrive.

use crate::gelf::chunk::{
    all_present, assembled, chunk_count, chunk_id, chunk_number, chunk_payload, has_chunk_magic,
    PartialView, HEADER_LEN,
};
use crate::gelf::udp_acceptor::{ChunkError, Step, TableView};
use vstd::prelude::*;
use vstd::set_lib::{lemma_int_range, lemma_len_subset, lemma_subset_equality, set_int_range};

verus! {

/// Whether `buf` is a chunk of the message `id` that has `count` chunks.
pub open spec fn is_chunk_of(buf: Seq<u8>, id: u64, count: u8) -> bool {
    &&& has_chunk_magic(buf)
    &&& buf.len() >= HEADER_LEN
    &&& chunk_id(buf) == id
    &&& chunk_count(buf) == count
    &&& chunk_number(buf) < count
}

/// Whether no two of the chunks have the same sequence number.
pub open spec fn distinct_numbers(chunks: Seq<Seq<u8>>) -> bool {
    forall|i: int, j: int|
        0 <= i < j < chunks.len() ==> chunk_number(#[trigger] chunks[i]) != chunk_number(
            #[trigger] chunks[j],
        )
}

/// The payloads of the chunks by their sequence numbers.
pub open spec fn payloads_by_number(chunks: Seq<Seq<u8>>) -> Map<u8, Seq<u8>> {
    Map::new(
        |n: u8| exists|k: int| 0 <= k < chunks.len() && chunk_number(#[trigger] chunks[k]) == n,
        |n: u8|
            chunk_payload(
                chunks[choose|k: int|
                    0 <= k < chunks.len() && chunk_number(#[trigger] chunks[k]) == n],
            ),
    )
}

/// A datagram that does not start with the chunk magic is handed on as it
/// is, and the table stays as it was.
pub proof fn lemma_unchunked_passes(table: TableView, buf: Seq<u8>, now: u64)
    requires
        !has_chunk_magic(buf),
    ensures
        table.accept(buf, now) == (Step {
            table,
            evicted: Set::empty(),
            output: Ok(Some(buf)),
        }),
{
}

/// A table that is within its capacity is within it after any datagram, and
/// its capacity never changes.
pub proof fn lemma_accept_within_capacity(table: TableView, buf: Seq<u8>, now: u64)
    requires
        table.within_capacity(),
    ensures
        table.accept(buf, now).table.within_capacity(),
        table.accept(buf, now).table.capacity == table.capacity,
{
    let room = table.room(now);
    assert(room.partials.dom().subset_of(table.partials.dom()));
    lemma_len_subset(room.partials.dom(), table.partials.dom());
    let after = table.accept(buf, now).table;
    let id = chunk_id(buf);
    if after.partials.dom() =~= room.partials.dom().insert(id) {
        if room.partials.contains_key(id) {
            assert(room.partials.dom().insert(id) =~= room.partials.dom());
        }
    } else if after.partials.dom() =~= table.partials.dom().insert(id) {
        assert(table.partials.contains_key(id));
        assert(table.partials.dom().insert(id) =~= table.partials.dom());
    } else {
        assert(after.partials.dom().subset_of(table.partials.dom()));
        lemma_len_subset(after.partials.dom(), table.partials.dom());
    }
}

/// However many partial messages are opened and however much time passes,
/// the table never holds more of them than its capacity: it is within it
/// after every datagram of a run.
pub proof fn lemma_never_over_capacity(
    table: TableView,
    datagrams: Seq<Seq<u8>>,
    times: Seq<u64>,
)
    requires
        table.within_capacity(),
        datagrams.len() == times.len(),
    ensures
        table.accept_all(datagrams, times).within_capacity(),
        table.accept_all(datagrams, times).capacity == table.capacity,
        forall|k: int|
            0 <= k <= datagrams.len() ==> (#[trigger] table.accept_all(
                datagrams.take(k),
                times.take(k),
            )).partials.len() <= table.capacity,
    decreases datagrams.len(),
{
    if datagrams.len() > 0 {
        let n = datagrams.len() as int;
        lemma_never_over_capacity(table, datagrams.drop_last(), times.drop_last());
        lemma_accept_within_capacity(
            table.accept_all(datagrams.drop_last(), times.drop_last()),
            datagrams.last(),
            times.last(),
        );
        assert forall|k: int| 0 <= k <= n implies (#[trigger] table.accept_all(
            datagrams.take(k),
            times.take(k),
        )).partials.len() <= table.capacity by {
            if k == n {
                assert(datagrams.take(k) =~= datagrams);
                assert(times.take(k) =~= times);
            } else {
                assert(datagrams.drop_last().take(k) =~= datagrams.take(k));
                assert(times.drop_last().take(k) =~= times.take(k));
            }
        }
    } else {
        assert forall|k: int| 0 <= k <= datagrams.len() implies (#[trigger] table.accept_all(
            datagrams.take(k),
            times.take(k),
        )).partials.len() <= table.capacity by {
            assert(datagrams.take(k) =~= datagrams);
        }
    }
}

/// Among chunks with distinct sequence numbers each payload is found under
/// the number of its chunk.
proof fn lemma_payload_at(chunks: Seq<Seq<u8>>, i: int)
    requires
        distinct_numbers(chunks),
        0 <= i < chunks.len(),
    ensures
        payloads_by_number(chunks).contains_key(chunk_number(chunks[i])),
        payloads_by_number(chunks)[chunk_number(chunks[i])] == chunk_payload(chunks[i]),
{
    let n = chunk_number(chunks[i]);
    let k = choose|k: int| 0 <= k < chunks.len() && chunk_number(#[trigger] chunks[k]) == n;
    if k < i {
        assert(chunk_number(chunks[k]) != chunk_number(chunks[i]));
    } else if i < k {
        assert(chunk_number(chunks[i]) != chunk_number(chunks[k]));
    }
}

/// One more chunk adds its payload under its number.
proof fn lemma_payloads_grow(chunks: Seq<Seq<u8>>, k: int)
    requires
        distinct_numbers(chunks),
        0 <= k < chunks.len(),
    ensures
        payloads_by_number(chunks.take(k + 1)) == payloads_by_number(chunks.take(k)).insert(
            chunk_number(chunks[k]),
            chunk_payload(chunks[k]),
        ),
{
    let shorter = chunks.take(k);
    let longer = chunks.take(k + 1);
    let wanted = payloads_by_number(shorter).insert(
        chunk_number(chunks[k]),
        chunk_payload(chunks[k]),
    );
    assert(distinct_numbers(shorter));
    assert(distinct_numbers(longer));
    assert forall|n: u8| wanted.contains_key(n) implies payloads_by_number(longer).contains_key(
        n,
    ) by {
        if n != chunk_number(chunks[k]) {
            let i = choose|i: int|
                0 <= i < shorter.len() && chunk_number(#[trigger] shorter[i]) == n;
            assert(chunk_number(longer[i]) == n);
        } else {
            assert(chunk_number(longer[k]) == n);
        }
    }
    assert forall|n: u8| payloads_by_number(longer).contains_key(n) implies wanted.contains_key(n)
        && payloads_by_number(longer)[n] == wanted[n] by {
        let i = choose|i: int| 0 <= i < longer.len() && chunk_number(#[trigger] longer[i]) == n;
        lemma_payload_at(longer, i);
        if i < k {
            assert(chunk_number(shorter[i]) == n);
            lemma_payload_at(shorter, i);
        }
    }
    assert(payloads_by_number(longer) =~= wanted);
}

/// As many chunks as the count, with distinct sequence numbers below the
/// count, have every number below it.
proof fn lemma_all_numbers(chunks: Seq<Seq<u8>>, count: u8)
    requires
        distinct_numbers(chunks),
        chunks.len() == count,
        forall|k: int| 0 <= k < chunks.len() ==> chunk_number(#[trigger] chunks[k]) < count,
    ensures
        all_present(payloads_by_number(chunks), count as nat),
{
    let numbers = Seq::new(chunks.len(), |k: int| chunk_number(chunks[k]) as int);
    assert(numbers.no_duplicates()) by {
        assert forall|i: int, j: int|
            0 <= i < numbers.len() && 0 <= j < numbers.len() && i != j implies numbers[i]
            != numbers[j] by {
            if i < j {
                assert(chunk_number(chunks[i]) != chunk_number(chunks[j]));
            } else {
                assert(chunk_number(chunks[j]) != chunk_number(chunks[i]));
            }
        }
    }
    numbers.unique_seq_to_set();
    lemma_int_range(0, count as int);
    assert(numbers.to_set().subset_of(set_int_range(0, count as int))) by {
        assert forall|n: int| numbers.to_set().contains(n) implies set_int_range(
            0,
            count as int,
        ).contains(n) by {
            let k = choose|k: int| 0 <= k < numbers.len() && numbers[k] == n;
            assert(chunk_number(chunks[k]) < count);
        }
    }
    lemma_len_subset(numbers.to_set(), set_int_range(0, count as int));
    lemma_subset_equality(numbers.to_set(), set_int_range(0, count as int));
    assert forall|n: u8| n < count implies payloads_by_number(chunks).contains_key(n) by {
        assert(set_int_range(0, count as int).contains(n as int));
        assert(numbers.to_set().contains(n as int));
        let k = choose|k: int| 0 <= k < numbers.len() && numbers[k] == n as int;
        assert(chunk_number(chunks[k]) == n);
    }
}

/// The partial message that the first `k` chunks of a run have built.
spec fn built(chunks: Seq<Seq<u8>>, times: Seq<u64>, count: u8, k: int) -> PartialView {
    PartialView {
        first_seen: times[0],
        expected_count: count,
        chunks: payloads_by_number(chunks.take(k)),
    }
}

/// The run of a message's chunks, one step at a time: before the last chunk
/// the table holds the partial message that the chunks so far have built and
/// hands nothing on; with the last chunk it hands the message on and forgets
/// it.
proof fn lemma_run(
    table: TableView,
    chunks: Seq<Seq<u8>>,
    times: Seq<u64>,
    id: u64,
    count: u8,
    k: int,
)
    requires
        table.partials.dom().finite(),
        chunks.len() == count,
        times.len() == count,
        forall|i: int| 0 <= i < chunks.len() ==> is_chunk_of(#[trigger] chunks[i], id, count),
        distinct_numbers(chunks),
        !table.partials.contains_key(id),
        !table.room(times[0]).is_full(),
        1 <= k <= count,
    ensures
        ({
            let before = table.accept_all(chunks.take(k - 1), times.take(k - 1));
            let step = before.accept(chunks[k - 1], times[k - 1]);
            let after = table.accept_all(chunks.take(k), times.take(k));
            let room = table.room(times[0]);
            &&& after == step.table
            &&& after.capacity == table.capacity
            &&& k < count ==> step.output == Ok::<Option<Seq<u8>>, ChunkError>(None) && after.partials
                == room.partials.insert(id, built(chunks, times, count, k))
            &&& k == count ==> step.output == Ok::<Option<Seq<u8>>, ChunkError>(
                Some(assembled(payloads_by_number(chunks), count as nat)),
            ) && after.partials == room.partials
            &&& k > 1 ==> step.evicted == Set::<u64>::empty()
        }),
    decreases k,
{
    let room = table.room(times[0]);
    let before = table.accept_all(chunks.take(k - 1), times.take(k - 1));
    let buf = chunks[k - 1];
    let step = before.accept(buf, times[k - 1]);
    assert(chunks.take(k).drop_last() =~= chunks.take(k - 1));
    assert(times.take(k).drop_last() =~= times.take(k - 1));
    assert(chunks.take(k).last() == buf);
    assert(times.take(k).last() == times[k - 1]);
    assert(is_chunk_of(buf, id, count));
    lemma_payloads_grow(chunks, k - 1);
    let partial = built(chunks, times, count, k);
    assert(!room.partials.contains_key(id));
    if k == 1 {
        assert(chunks.take(0) =~= Seq::<Seq<u8>>::empty());
        assert(before == table);
        assert(payloads_by_number(chunks.take(0)) =~= Map::<u8, Seq<u8>>::empty());
        assert(PartialView::fresh(times[0], count).with_chunk(
            chunk_number(buf),
            chunk_payload(buf),
        ) == partial);
    } else {
        lemma_run(table, chunks, times, id, count, k - 1);
        assert(before.partials[id] == built(chunks, times, count, k - 1));
        assert(built(chunks, times, count, k - 1).with_chunk(
            chunk_number(buf),
            chunk_payload(buf),
        ) == partial);
    }
    if k == count {
        assert(chunks.take(k) =~= chunks);
        lemma_all_numbers(chunks, count);
        assert(partial.complete());
        assert(room.partials.insert(id, built(chunks, times, count, k - 1)).remove(id)
            =~= room.partials);
        assert(room.partials.remove(id) =~= room.partials);
    } else {
        let missing = chunk_number(chunks[count - 1]);
        assert(is_chunk_of(chunks[count - 1], id, count));
        assert(!partial.chunks.contains_key(missing)) by {
            if partial.chunks.contains_key(missing) {
                let i = choose|i: int|
                    0 <= i < chunks.take(k).len() && chunk_number(#[trigger] chunks.take(k)[i])
                        == missing;
                assert(chunk_number(chunks[i]) != chunk_number(chunks[count - 1]));
            }
        }
        assert(!partial.complete());
        assert(room.partials.insert(id, built(chunks, times, count, k - 1)).insert(id, partial)
            =~= room.partials.insert(id, partial));
    }
}

/// The chunks of a message with `count` chunks, with distinct sequence
/// numbers, may arrive in any order: as long as the message is new to the
/// table and the table has or can make room for it, every chunk but the
/// last is stored and hands nothing on, and the last chunk hands on the
/// payloads in the order of the sequence numbers. After that the table
/// holds nothing under the message id, and the other partial messages are
/// those that it held when the first chunk had made room.
pub proof fn lemma_chunks_in_any_order(
    table: TableView,
    chunks: Seq<Seq<u8>>,
    times: Seq<u64>,
    id: u64,
    count: u8,
)
    requires
        table.partials.dom().finite(),
        chunks.len() == count,
        times.len() == count,
        count >= 1,
        forall|i: int| 0 <= i < chunks.len() ==> is_chunk_of(#[trigger] chunks[i], id, count),
        distinct_numbers(chunks),
        !table.partials.contains_key(id),
        !table.room(times[0]).is_full(),
    ensures
        forall|k: int|
            0 <= k < count - 1 ==> (#[trigger] table.accept_all(chunks.take(k), times.take(k)).accept(
                chunks[k],
                times[k],
            )).output == Ok::<Option<Seq<u8>>, ChunkError>(None),
        table.accept_all(chunks.take(count - 1), times.take(count - 1)).accept(
            chunks[count - 1],
            times[count - 1],
        ).output == Ok::<Option<Seq<u8>>, ChunkError>(
            Some(assembled(payloads_by_number(chunks), count as nat)),
        ),
        !table.accept_all(chunks, times).partials.contains_key(id),
        table.accept_all(chunks, times).partials == table.room(times[0]).partials,
{
    assert forall|k: int| 0 <= k < count - 1 implies (#[trigger] table.accept_all(
        chunks.take(k),
        times.take(k),
    ).accept(chunks[k], times[k])).output == Ok::<Option<Seq<u8>>, ChunkError>(None) by {
        lemma_run(table, chunks, times, id, count, k + 1);
    }
    lemma_run(table, chunks, times, id, count, count as int);
    assert(chunks.take(count as int) =~= chunks);
    assert(times.take(count as int) =~= times);
}

} // verus!
