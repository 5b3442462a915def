use spsc_bip_buffer::{bip_buffer_from, BipBufferReader, BipBufferWriter};
use std::cell::Cell;

type Storage = Vec<Cell<u8>>;

fn storage(len: usize) -> Storage {
    (0..len).map(|_| Cell::new(0)).collect()
}

fn send(writer: &mut BipBufferWriter<Storage>, msg: &[u8]) -> (usize, bool) {
    let r = writer.reserve(msg.len()).expect("room for the message");
    for (i, b) in msg.iter().enumerate() {
        writer.storage()[r.start() + i].set(*b);
    }
    let placed = (r.start(), r.is_wraparound());
    r.send(writer);
    placed
}

fn valid(reader: &mut BipBufferReader<Storage>) -> (usize, usize, Vec<u8>) {
    let (start, end) = reader.valid();
    let content = (start..end).map(|i| reader.storage()[i].get()).collect();
    (start, end, content)
}

fn view(r: Option<spsc_bip_buffer::BipBufferWriterReservation>) -> Option<(usize, usize, bool)> {
    r.map(|r| (r.start(), r.len(), r.is_wraparound()))
}

#[test]
fn reservation_decisions() {
    let (mut writer, mut reader) = bip_buffer_from(storage(16), 16);
    // fresh buffer: the region goes at the write position when it fits before the end
    assert_eq!(view(writer.reservation_for(8, 0)), Some((0, 8, false)));
    assert_eq!(view(writer.reservation_for(16, 0)), Some((0, 16, false)));
    assert_eq!(view(writer.reservation_for(17, 0)), None);
    send(&mut writer, &[1; 12]);
    // 4 elements left before the end: longer regions start over, strictly before `read`
    assert_eq!(view(writer.reservation_for(4, 10)), Some((12, 4, false)));
    assert_eq!(view(writer.reservation_for(8, 10)), Some((0, 8, true)));
    assert_eq!(view(writer.reservation_for(9, 10)), Some((0, 9, true)));
    assert_eq!(view(writer.reservation_for(10, 10)), None);
    assert_eq!(view(writer.reservation_for(5, 0)), None);
    // after wrapping around, the producer stays strictly behind the consumer
    assert_eq!(valid(&mut reader).1, 12);
    assert!(reader.consume(10));
    assert_eq!(send(&mut writer, &[3; 3]), (12, false));
    assert_eq!(send(&mut writer, &[4; 3]), (0, true));
    assert_eq!(view(writer.reservation_for(6, 10)), Some((3, 6, false)));
    assert_eq!(view(writer.reservation_for(7, 10)), None);
}

#[test]
fn full_buffer_refuses() {
    let (mut writer, mut reader) = bip_buffer_from(storage(4), 4);
    send(&mut writer, &[1, 2, 3, 4]);
    assert!(writer.reserve(1).is_none());
    assert_eq!(valid(&mut reader), (0, 4, vec![1, 2, 3, 4]));
    assert!(reader.consume(1));
    // one free element at the start, but it would make the write position meet the read one
    assert!(writer.reserve(1).is_none());
    assert!(reader.consume(1));
    let r = writer.reserve(1).expect("room at the start");
    assert_eq!((r.start(), r.len(), r.is_wraparound()), (0, 1, true));
}

#[test]
fn wraparound_is_read_in_order() {
    let (mut writer, mut reader) = bip_buffer_from(storage(16), 16);
    assert_eq!(send(&mut writer, &[1, 2, 3, 4, 5, 6, 7, 8, 9, 10, 11, 12]), (0, false));
    assert_eq!(valid(&mut reader), (0, 12, vec![1, 2, 3, 4, 5, 6, 7, 8, 9, 10, 11, 12]));
    assert!(reader.consume(10));
    assert_eq!(send(&mut writer, &[21, 22, 23, 24, 25, 26, 27, 28]), (0, true));
    // first the tail before the wrap-around point, then the new data
    assert_eq!(valid(&mut reader), (10, 12, vec![11, 12]));
    assert!(reader.is_consistent());
    assert!(!reader.consume(3));
    assert!(reader.consume(2));
    assert_eq!(valid(&mut reader), (0, 8, vec![21, 22, 23, 24, 25, 26, 27, 28]));
    assert!(!reader.consume(9));
    assert!(reader.consume(8));
    assert_eq!(valid(&mut reader), (8, 8, vec![]));
}

#[test]
fn reader_starts_over_at_wraparound_point() {
    let (mut writer, mut reader) = bip_buffer_from(storage(16), 16);
    send(&mut writer, &[1; 12]);
    assert_eq!(valid(&mut reader), (0, 12, vec![1; 12]));
    assert!(reader.consume(12));
    assert_eq!(send(&mut writer, &[5, 6, 7, 8, 9]), (0, true));
    // everything up to the wrap-around point was consumed: the region starts over at 0
    assert_eq!(valid(&mut reader), (0, 5, vec![5, 6, 7, 8, 9]));
    assert!(reader.consume(5));
    assert_eq!(valid(&mut reader), (5, 5, vec![]));
}

#[test]
fn consume_needs_data() {
    let (mut writer, mut reader) = bip_buffer_from(storage(8), 8);
    assert!(!reader.consume(1));
    assert!(reader.consume(0));
    send(&mut writer, &[7, 8, 9]);
    // not observed yet: nothing to consume until `valid`
    assert!(!reader.consume(1));
    assert_eq!(valid(&mut reader), (0, 3, vec![7, 8, 9]));
    assert!(!reader.consume(4));
    assert!(reader.consume(3));
    assert_eq!(valid(&mut reader), (3, 3, vec![]));
}

#[test]
fn sides_share_storage_and_capacity() {
    let (writer, reader) = bip_buffer_from(storage(32), 32);
    assert_eq!(writer.capacity(), 32);
    assert_eq!(reader.capacity(), 32);
    writer.storage()[5].set(42);
    assert_eq!(reader.storage()[5].get(), 42);
    assert!(reader.is_consistent());
}

#[test]
fn try_unwrap_after_other_side_is_gone() {
    let (mut writer, reader) = bip_buffer_from(storage(8), 8);
    send(&mut writer, &[3, 4]);
    let reader = match reader.try_unwrap() {
        Ok(_) => panic!("the writer is still there"),
        Err(r) => r,
    };
    assert_eq!(reader.capacity(), 8);
    let writer = match writer.try_unwrap() {
        Ok(_) => panic!("the reader is still there"),
        Err(w) => w,
    };
    std::mem::drop(reader);
    let recovered = writer.try_unwrap().map_err(|_| ()).expect("storage");
    assert_eq!(recovered.len(), 8);
    assert_eq!((recovered[0].get(), recovered[1].get()), (3, 4));
}

#[test]
fn region_only_grows_without_consume() {
    let (mut writer, mut reader) = bip_buffer_from(storage(16), 16);
    send(&mut writer, &[1, 2, 3, 4, 5, 6, 7, 8, 9, 10]);
    assert_eq!(valid(&mut reader), (0, 10, vec![1, 2, 3, 4, 5, 6, 7, 8, 9, 10]));
    assert!(reader.consume(6));
    assert_eq!(valid(&mut reader), (6, 10, vec![7, 8, 9, 10]));
    // the producer wraps around; the region keeps its start and grows to the wrap-around point
    send(&mut writer, &[11, 12]);
    assert_eq!(send(&mut writer, &[13, 14, 15, 16, 17]), (0, true));
    assert_eq!(valid(&mut reader), (6, 12, vec![7, 8, 9, 10, 11, 12]));
    assert_eq!(valid(&mut reader), (6, 12, vec![7, 8, 9, 10, 11, 12]));
}

#[test]
fn consume_keeps_room() {
    let (mut writer, mut reader) = bip_buffer_from(storage(8), 8);
    send(&mut writer, &[1, 2, 3, 4, 5, 6]);
    assert_eq!(view(writer.reservation_for(2, 0)), Some((6, 2, false)));
    assert_eq!(valid(&mut reader).1, 6);
    assert!(reader.consume(4));
    // the read position moved to 4: the same reservation is still granted
    assert_eq!(view(writer.reservation_for(2, 4)), Some((6, 2, false)));
    assert!(writer.reserve(2).is_some());
}

#[test]
fn message_after_wrap_is_read_whole() {
    let (mut writer, mut reader) = bip_buffer_from(storage(8), 8);
    send(&mut writer, &[1, 2, 3, 4, 5, 6]);
    assert_eq!(valid(&mut reader).1, 6);
    assert!(reader.consume(6));
    // does not fit before the end: goes at the start, and reaches the reader in one piece
    assert_eq!(send(&mut writer, &[7, 8, 9, 10]), (0, true));
    assert_eq!(valid(&mut reader), (0, 4, vec![7, 8, 9, 10]));
}

#[test]
fn request_granted_once_everything_is_read() {
    let (mut writer, mut reader) = bip_buffer_from(storage(16), 16);
    send(&mut writer, &[1; 8]);
    assert_eq!(valid(&mut reader), (0, 8, vec![1; 8]));
    assert!(reader.consume(8));
    // 8 free at the tail, 7 before the read position: 10 fits nowhere, so the producer
    // starts over at the beginning of the buffer
    assert_eq!(view(writer.reservation_for(10, 8)), None);
    assert!(writer.reserve(10).is_none());
    // the consumer follows it there
    assert_eq!(valid(&mut reader), (0, 0, vec![]));
    let r = writer.reserve(10).expect("room once the consumer has followed");
    assert_eq!((r.start(), r.len(), r.is_wraparound()), (0, 10, false));
    r.send(&mut writer);
    let r = writer.reserve(6).expect("the rest of the buffer");
    assert_eq!((r.start(), r.len(), r.is_wraparound()), (10, 6, false));
    r.send(&mut writer);
    assert_eq!(valid(&mut reader).1, 16);
}

#[test]
fn nothing_consumable_after_wrapped_tail() {
    let (mut writer, mut reader) = bip_buffer_from(storage(16), 16);
    send(&mut writer, &[1; 12]);
    assert_eq!(valid(&mut reader).1, 12);
    assert!(reader.consume(10));
    assert_eq!(send(&mut writer, &[2; 5]), (0, true));
    assert_eq!(valid(&mut reader), (10, 12, vec![1, 1]));
    assert!(reader.consume(2));
    // the new data was not returned by `valid` yet: it cannot be consumed
    assert!(!reader.consume(5));
    assert!(!reader.consume(1));
    assert_eq!(valid(&mut reader), (0, 5, vec![2; 5]));
    assert!(reader.consume(5));
}

#[test]
fn valid_twice_same_region() {
    let (mut writer, mut reader) = bip_buffer_from(storage(16), 16);
    send(&mut writer, &[1; 12]);
    assert!(valid(&mut reader).1 == 12 && reader.consume(12));
    assert_eq!(send(&mut writer, &[2; 5]), (0, true));
    // the first call starts over at the wrap-around point; the second one agrees
    assert_eq!(valid(&mut reader), (0, 5, vec![2; 5]));
    assert_eq!(valid(&mut reader), (0, 5, vec![2; 5]));
}

#[test]
fn read_position_outside_the_buffer_gives_no_room() {
    let (writer, _reader) = bip_buffer_from(storage(16), 16);
    assert_eq!(view(writer.reservation_for(4, 17)), None);
    assert_eq!(view(writer.reservation_for(4, 16)), Some((0, 4, false)));
}
