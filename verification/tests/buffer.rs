//! The scenarios of the buffer's own test suite. Producer and consumer take turns in one
//! thread, in an order chosen by a seeded generator, so that every run checks the same
//! interleaving of their calls.

use spsc_bip_buffer::{bip_buffer_from, BipBufferReader, BipBufferWriter};
use std::cell::Cell;

type Storage = Vec<Cell<u8>>;

fn storage(len: usize, fill: u8) -> Storage {
    (0..len).map(|_| Cell::new(fill)).collect()
}

/// A small deterministic generator.
struct Rng(u64);

impl Rng {
    fn next(&mut self) -> u64 {
        self.0 = self.0.wrapping_mul(6364136223846793005).wrapping_add(1442695040888963407);
        self.0 >> 33
    }

    /// A number in `lo..hi`.
    fn range(&mut self, lo: u64, hi: u64) -> u64 {
        lo + self.next() % (hi - lo)
    }
}

/// Sends `msg` if there is room for it now.
fn try_send(writer: &mut BipBufferWriter<Storage>, msg: &[u8]) -> bool {
    assert!(msg.len() <= writer.capacity());
    match writer.reserve(msg.len()) {
        Some(reservation) => {
            assert_eq!(reservation.len(), msg.len());
            for (i, b) in msg.iter().enumerate() {
                writer.storage()[reservation.start() + i].set(*b);
            }
            reservation.send(writer);
            true
        },
        None => false,
    }
}

/// The content of the readable region.
fn valid(reader: &mut BipBufferReader<Storage>) -> Vec<u8> {
    let (start, end) = reader.valid();
    (start..end).map(|i| reader.storage()[i].get()).collect()
}

/// Sends the messages `make(0), make(1), ...` and receives them with `receive`, which
/// returns the length it consumed or `None` when the message is not complete yet; the
/// producer and the consumer take turns in an order chosen by `rng`.
fn run(
    capacity: usize,
    fill: u8,
    count: usize,
    rng: &mut Rng,
    mut make: impl FnMut(usize, &mut Rng) -> Vec<u8>,
    mut receive: impl FnMut(usize, &mut BipBufferReader<Storage>) -> Option<usize>,
) {
    let (mut writer, mut reader) = bip_buffer_from(storage(capacity, fill), capacity);
    let mut pending: Option<Vec<u8>> = None;
    let (mut sent, mut received) = (0, 0);
    let mut idle_turns = 0;
    while received < count {
        let progress = if sent < count && rng.range(0, 2) == 0 {
            let msg = pending.take().unwrap_or_else(|| make(sent, rng));
            if try_send(&mut writer, &msg) {
                sent += 1;
                true
            } else {
                pending = Some(msg);
                false
            }
        } else {
            match receive(received, &mut reader) {
                Some(len) => {
                    assert!(reader.consume(len));
                    received += 1;
                    true
                },
                None => false,
            }
        };
        idle_turns = if progress { 0 } else { idle_turns + 1 };
        assert!(idle_turns < 1000, "neither side can make progress");
    }
}

#[test]
fn basic() {
    for i in 0..128u8 {
        let (mut writer, mut reader) = bip_buffer_from(storage(16, 0), 16);
        assert!(try_send(&mut writer, &[10, 11, 12, 13, 14, 15, 16, i]));
        assert_eq!(valid(&mut reader), vec![10, 11, 12, 13, 14, 15, 16, i]);
        assert!(reader.consume(8));
    }
}

#[test]
fn spsc() {
    let mut rng = Rng(1);
    run(256, 0, 128, &mut rng, |i, _| vec![10, 11, 12, 13, 14, 15, 16, i as u8], |i, reader| {
        let data = valid(reader);
        if data.len() < 8 {
            return None;
        }
        assert_eq!(&data[..8], &[10, 11, 12, 13, 14, 15, 16, i as u8]);
        Some(8)
    });
}

#[test]
fn provided_storage() {
    let (mut writer, mut reader) = bip_buffer_from(storage(256, 0), 256);
    assert!(try_send(&mut writer, &[10, 11, 12, 13, 14, 15, 16, 17]));
    assert!(valid(&mut reader).len() >= 8);
    assert!(reader.consume(8));
    std::mem::drop(writer);
    let recovered = reader.try_unwrap().map_err(|_| ()).expect("failed to recover storage");
    assert_eq!(recovered.len(), 256);
    assert_eq!(recovered[7].get(), 17);
}

#[test]
fn provided_storage_still_alive() {
    let (writer, reader) = bip_buffer_from(storage(256, 0), 256);
    let result = reader.try_unwrap();
    assert!(result.is_err());
    std::mem::drop(writer);
}

#[test]
fn static_prime_length() {
    const MSG_LENGTH: usize = 17; // intentionally prime
    let message = |n: usize| {
        let i = (n % 128) as u8;
        let mut msg = vec![i; MSG_LENGTH];
        msg[i as usize % MSG_LENGTH] = 0;
        msg
    };
    let mut rng = Rng(2);
    run(64, 128, 1024 * 128, &mut rng, |n, _| message(n), |n, reader| {
        let data = valid(reader);
        if data.len() < MSG_LENGTH {
            return None;
        }
        assert_eq!(&data[..MSG_LENGTH], &message(n)[..]);
        Some(MSG_LENGTH)
    });
}

#[test]
fn random_length() {
    const MAX_LENGTH: u64 = 127;
    let mut rng = Rng(3);
    let make = |n: usize, rng: &mut Rng| {
        let length = rng.range(1, MAX_LENGTH) as u8;
        let mut msg = vec![(n % 128) as u8; length as usize];
        msg[0] = length;
        msg
    };
    run(1024, 0, 1024 * 128, &mut rng, make, |n, reader| {
        let data = valid(reader);
        if data.is_empty() || data.len() < data[0] as usize {
            return None;
        }
        let len = data[0] as usize;
        assert!(data[1..len].iter().all(|b| *b == (n % 128) as u8));
        Some(len)
    });
}
