use gelf_mover::gelf::chunk::{is_chunk, MessageChunk, PartialMessage};
use gelf_mover::gelf::udp_acceptor::{ChunkAcceptor, ChunkError, UnchankMessage};

fn chunk(id: &[u8; 8], number: u8, count: u8, payload: &[u8]) -> Vec<u8> {
    let mut temp = vec![30, 15];
    temp.extend_from_slice(id);
    temp.push(number);
    temp.push(count);
    temp.extend_from_slice(payload);
    temp
}

#[test]
fn test_unpacker() {
    let mut unpacker_actor = ChunkAcceptor::new(5);

    let message_1 = {
        let mut temp = vec![30, 15];
        temp.append(&mut vec![1, 2, 3, 4, 5, 6, 7, 8]);
        temp.append(&mut vec![0, 2]);
        temp.append(&mut b"test".to_vec());
        temp
    };
    let message_2 = {
        let mut temp = vec![30, 15];
        temp.append(&mut vec![1, 2, 3, 4, 5, 6, 7, 8]);
        temp.append(&mut vec![1, 2]);
        temp.append(&mut b"test".to_vec());
        temp
    };
    let response_1 = unpacker_actor.handle(UnchankMessage(message_1));
    assert_eq!(response_1.output, Ok(None));
    let response_2 = unpacker_actor.handle(UnchankMessage(message_2));
    assert_eq!(response_2.output, Ok(Some(b"testtest".to_vec())))
}

#[test]
fn header_is_read_big_endian() {
    let c = MessageChunk::new(chunk(&[0, 0, 0, 0, 0, 0, 1, 2], 3, 9, b"xyz"));
    assert_eq!(c.message_id, 258);
    assert_eq!(c.sequence_number, 3);
    assert_eq!(c.sequence_count, 9);
    assert_eq!(c.message_chunk, b"xyz".to_vec());
    let c = MessageChunk::new(chunk(b"abcdefgh", 0, 1, b""));
    assert_eq!(c.message_id, 0x6162636465666768);
    assert!(c.message_chunk.is_empty());
    let c = MessageChunk::new(chunk(&[255; 8], 0, 1, b"p"));
    assert_eq!(c.message_id, u64::MAX);
}

#[test]
fn chunk_magic() {
    assert!(is_chunk(&[0x1E, 0x0F]));
    assert!(is_chunk(&[0x1E, 0x0F, 0]));
    assert!(!is_chunk(&[0x1E]));
    assert!(!is_chunk(&[]));
    assert!(!is_chunk(&[0x0F, 0x1E, 0]));
}

#[test]
fn unchunked_datagram_passes_and_leaves_the_table() {
    let mut table = ChunkAcceptor::new(3);
    table.handle_at(UnchankMessage(chunk(b"abcdefgh", 0, 2, b"x")), 0);
    let plain = b"{\"host\":\"h\"}".to_vec();
    let r = table.handle_at(UnchankMessage(plain.clone()), 1);
    assert_eq!(r.output, Ok(Some(plain)));
    assert!(r.evicted.is_empty());
    assert_eq!(table.len(), 1);
    let r = table.handle_at(UnchankMessage(Vec::new()), 2);
    assert_eq!(r.output, Ok(Some(Vec::new())));
    assert_eq!(table.len(), 1);
}

#[test]
fn single_chunk_message_is_emitted_at_once() {
    let mut table = ChunkAcceptor::new(1);
    let r = table.handle_at(UnchankMessage(chunk(b"abcdefgh", 0, 1, b"whole")), 7);
    assert_eq!(r.output, Ok(Some(b"whole".to_vec())));
    assert_eq!(table.len(), 0);
}

#[test]
fn chunks_in_any_order_give_the_message() {
    let orders: [[u8; 3]; 6] = [[0, 1, 2], [0, 2, 1], [1, 0, 2], [1, 2, 0], [2, 0, 1], [2, 1, 0]];
    let parts: [&[u8]; 3] = [b"one-", b"two-", b"three"];
    for order in orders {
        let mut table = ChunkAcceptor::new(4);
        let id = 0x6162636465666768;
        for (k, number) in order.iter().enumerate() {
            let r = table.handle_at(
                UnchankMessage(chunk(b"abcdefgh", *number, 3, parts[*number as usize])),
                k as u64,
            );
            if k < 2 {
                assert_eq!(r.output, Ok(None));
                assert!(table.contains(id));
            } else {
                assert_eq!(r.output, Ok(Some(b"one-two-three".to_vec())));
            }
        }
        assert!(!table.contains(id));
        assert_eq!(table.len(), 0);
    }
}

#[test]
fn duplicate_chunk_overwrites_and_is_not_counted() {
    let mut table = ChunkAcceptor::new(4);
    assert_eq!(table.handle_at(UnchankMessage(chunk(b"abcdefgh", 0, 2, b"old")), 0).output, Ok(None));
    assert_eq!(table.handle_at(UnchankMessage(chunk(b"abcdefgh", 0, 2, b"new")), 1).output, Ok(None));
    assert_eq!(table.len(), 1);
    assert_eq!(
        table.handle_at(UnchankMessage(chunk(b"abcdefgh", 1, 2, b"-end")), 2).output,
        Ok(Some(b"new-end".to_vec()))
    );
}

#[test]
fn messages_are_kept_apart_by_id() {
    let mut table = ChunkAcceptor::new(4);
    assert_eq!(table.handle_at(UnchankMessage(chunk(b"aaaaaaaa", 1, 2, b"A1")), 0).output, Ok(None));
    assert_eq!(table.handle_at(UnchankMessage(chunk(b"bbbbbbbb", 0, 2, b"B0")), 0).output, Ok(None));
    assert_eq!(table.len(), 2);
    assert_eq!(
        table.handle_at(UnchankMessage(chunk(b"bbbbbbbb", 1, 2, b"B1")), 0).output,
        Ok(Some(b"B0B1".to_vec()))
    );
    assert_eq!(
        table.handle_at(UnchankMessage(chunk(b"aaaaaaaa", 0, 2, b"A0")), 0).output,
        Ok(Some(b"A0A1".to_vec()))
    );
    assert_eq!(table.len(), 0);
}

#[test]
fn short_header_is_a_format_error() {
    let mut table = ChunkAcceptor::new(4);
    table.handle_at(UnchankMessage(chunk(b"abcdefgh", 0, 2, b"x")), 0);
    let r = table.handle_at(UnchankMessage(vec![0x1E, 0x0F, 1, 2, 3, 4, 5, 6, 7, 8]), 1);
    assert_eq!(r.output, Err(ChunkError::Truncated));
    assert_eq!(table.len(), 1);
    assert!(table.contains(0x6162636465666768));
    assert_eq!(table.handle_at(UnchankMessage(vec![0x1E, 0x0F]), 1).output, Err(ChunkError::Truncated));
    let eleven = chunk(b"abcdefgh", 0, 2, b"")[..11].to_vec();
    assert_eq!(table.handle_at(UnchankMessage(eleven), 1).output, Err(ChunkError::Truncated));
    assert_eq!(table.len(), 1);
}

#[test]
fn sequence_number_must_be_below_the_count() {
    let mut table = ChunkAcceptor::new(4);
    assert_eq!(
        table.handle_at(UnchankMessage(chunk(b"abcdefgh", 2, 2, b"x")), 0).output,
        Err(ChunkError::BadSequence)
    );
    assert_eq!(
        table.handle_at(UnchankMessage(chunk(b"abcdefgh", 0, 0, b"x")), 0).output,
        Err(ChunkError::BadSequence)
    );
    assert_eq!(table.len(), 0);
}

#[test]
fn count_must_match_the_message() {
    let mut table = ChunkAcceptor::new(4);
    table.handle_at(UnchankMessage(chunk(b"abcdefgh", 0, 3, b"x")), 0);
    assert_eq!(
        table.handle_at(UnchankMessage(chunk(b"abcdefgh", 1, 2, b"y")), 0).output,
        Err(ChunkError::CountMismatch)
    );
    assert_eq!(table.len(), 1);
}

#[test]
fn full_table_drops_a_new_message_while_nothing_is_stale() {
    let mut table = ChunkAcceptor::new(2);
    table.handle_at(UnchankMessage(chunk(b"aaaaaaaa", 0, 2, b"a")), 1000);
    table.handle_at(UnchankMessage(chunk(b"bbbbbbbb", 0, 2, b"b")), 2000);
    let r = table.handle_at(UnchankMessage(chunk(b"cccccccc", 0, 2, b"c")), 6000);
    assert_eq!(r.output, Err(ChunkError::TableFull));
    assert!(r.evicted.is_empty());
    assert_eq!(table.len(), 2);
    let r = table.handle_at(UnchankMessage(chunk(b"bbbbbbbb", 1, 2, b"B")), 6000);
    assert_eq!(r.output, Ok(Some(b"bB".to_vec())));
}

#[test]
fn full_table_evicts_what_is_older_than_five_seconds() {
    let mut table = ChunkAcceptor::new(2);
    table.handle_at(UnchankMessage(chunk(b"aaaaaaaa", 0, 2, b"a")), 1000);
    table.handle_at(UnchankMessage(chunk(b"bbbbbbbb", 0, 2, b"b")), 2000);
    let r = table.handle_at(UnchankMessage(chunk(b"cccccccc", 0, 2, b"c")), 6001);
    assert_eq!(r.output, Ok(None));
    assert_eq!(r.evicted, vec![0x6161616161616161]);
    assert_eq!(table.len(), 2);
    assert!(!table.contains(0x6161616161616161));
    assert!(table.contains(0x6262626262626262));
    assert!(table.contains(0x6363636363636363));
}

#[test]
fn table_never_grows_beyond_its_capacity() {
    let capacity = 3;
    let mut table = ChunkAcceptor::new(capacity);
    for n in 0..(capacity as u64 + 1) {
        let id = [b'a' + n as u8; 8];
        table.handle_at(UnchankMessage(chunk(&id, 0, 2, b"x")), n * 3000);
        assert!(table.len() <= capacity);
    }
    assert_eq!(table.len(), 2);
    assert_eq!(table.capacity(), capacity);
}

#[test]
fn nothing_is_evicted_while_there_is_room() {
    let mut table = ChunkAcceptor::new(3);
    table.handle_at(UnchankMessage(chunk(b"aaaaaaaa", 0, 2, b"a")), 0);
    let r = table.handle_at(UnchankMessage(chunk(b"bbbbbbbb", 0, 2, b"b")), 60_000);
    assert!(r.evicted.is_empty());
    assert_eq!(table.len(), 2);
}

#[test]
fn table_without_capacity_takes_no_chunk() {
    let mut table = ChunkAcceptor::new(0);
    let r = table.handle_at(UnchankMessage(chunk(b"aaaaaaaa", 0, 1, b"a")), 0);
    assert_eq!(r.output, Err(ChunkError::TableFull));
    assert_eq!(table.len(), 0);
}

#[test]
fn partial_message_sorts_and_assembles() {
    let mut partial = PartialMessage::new(5, 3);
    assert_eq!(partial.first_seen(), 5);
    assert_eq!(partial.expected_count(), 3);
    assert!(!partial.is_complete());
    partial.add(MessageChunk::new(chunk(b"abcdefgh", 2, 3, b"c")));
    partial.add(MessageChunk::new(chunk(b"abcdefgh", 0, 3, b"a")));
    assert!(!partial.is_complete());
    partial.add(MessageChunk::new(chunk(b"abcdefgh", 1, 3, b"b")));
    assert!(partial.is_complete());
    assert_eq!(partial.assemble(), b"abc".to_vec());
}

#[test]
fn stale_messages_are_evicted_on_demand() {
    let mut table = ChunkAcceptor::new(5);
    table.handle_at(UnchankMessage(chunk(b"aaaaaaaa", 0, 2, b"a")), 0);
    table.handle_at(UnchankMessage(chunk(b"bbbbbbbb", 0, 2, b"b")), 1);
    table.handle_at(UnchankMessage(chunk(b"cccccccc", 0, 2, b"c")), 2);
    assert!(table.evict_stale(5000).is_empty());
    let mut evicted = table.evict_stale(5002);
    evicted.sort();
    assert_eq!(evicted, vec![0x6161616161616161, 0x6262626262626262]);
    assert_eq!(table.len(), 1);
    assert!(table.evict_stale(1).is_empty());
}
