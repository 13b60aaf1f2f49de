use worker_lib::channel::{ChannelError, HostToWorker, SharedMemoryChannel, WorkerToHost};

fn reader(offset: u64, write: u64, read: u64) -> SharedMemoryChannel<HostToWorker> {
    SharedMemoryChannel::new(offset, write, read)
}

fn writer(offset: u64, write: u64, read: u64) -> SharedMemoryChannel<WorkerToHost> {
    SharedMemoryChannel::new(offset, write, read)
}

#[test]
fn find_buffer_inside_the_payload() {
    let payload = [0u8, 1, 2, 3, 4, 5, 6, 7];
    let channel = reader(2, 0, 0);
    assert_eq!(channel.find_buffer(&payload, 4), Some(&payload[2..6]));
    assert_eq!(channel.find_buffer(&payload, 6), Some(&payload[2..8]));
}

#[test]
fn find_buffer_past_the_end() {
    let payload = [0u8; 8];
    assert_eq!(reader(2, 0, 0).find_buffer(&payload, 7), None);
    assert_eq!(reader(9, 0, 0).find_buffer(&payload, 0), None);
}

#[test]
fn find_buffer_offset_that_overflows() {
    let payload = [0u8; 8];
    assert_eq!(reader(u64::MAX, 0, 0).find_buffer(&payload, 2), None);
}

#[test]
fn find_buffer_mut_writes_through() {
    let mut payload = [0u8; 6];
    let channel = writer(1, 0, 0);
    {
        let ring = channel.find_buffer_mut(&mut payload, 3).unwrap();
        assert_eq!(ring.len(), 3);
        ring[0] = 5;
        ring[2] = 6;
    }
    assert_eq!(payload, [0, 5, 0, 6, 0, 0]);
    assert!(channel.find_buffer_mut(&mut payload, 6).is_none());
}

#[test]
fn read_ring_takes_pending_bytes() {
    let buffer = [1u8, 2, 3, 4];
    let mut channel = reader(0, 3, 1);
    let mut output = [0u8; 8];
    let count = channel.read_ring(&buffer, &mut output);
    assert_eq!(count, 2);
    assert_eq!(&output[..2], &[2, 3]);
    assert_eq!(channel.read, 3);
    assert_eq!(channel.write, 3);
}

#[test]
fn read_ring_wraps_around() {
    let buffer = [1u8, 2, 3, 4];
    let mut channel = reader(0, 9, 6);
    let mut output = [0u8; 3];
    let count = channel.read_ring(&buffer, &mut output);
    assert_eq!(count, 3);
    assert_eq!(output, [3, 4, 1]);
    assert_eq!(channel.read, 9);
}

#[test]
fn read_ring_limited_by_the_output() {
    let buffer = [1u8, 2, 3, 4];
    let mut channel = reader(0, 4, 0);
    let mut output = [0u8; 3];
    assert_eq!(channel.read_ring(&buffer, &mut output), 3);
    assert_eq!(output, [1, 2, 3]);
    assert_eq!(channel.read, 3);
}

#[test]
fn read_ring_limited_by_the_ring() {
    // The writer claims more than a whole ring: at most the ring is read.
    let buffer = [1u8, 2, 3];
    let mut channel = reader(0, 10, 0);
    let mut output = [0u8; 5];
    assert_eq!(channel.read_ring(&buffer, &mut output), 3);
    assert_eq!(output, [1, 2, 3, 0, 0]);
    assert_eq!(channel.read, 3);
}

#[test]
fn read_ring_empty_cases() {
    let mut output = [7u8; 2];
    let mut channel = reader(0, 5, 5);
    assert_eq!(channel.read_ring(&[1, 2, 3], &mut output), 0);
    assert_eq!(channel.read, 5);
    let mut channel = reader(0, 5, 7);
    assert_eq!(channel.read_ring(&[1, 2, 3], &mut output), 0);
    assert_eq!(channel.read, 7);
    let mut channel = reader(0, 5, 0);
    assert_eq!(channel.read_ring(&[], &mut output), 0);
    assert_eq!(channel.read, 0);
    assert_eq!(channel.read_ring(&[1, 2], &mut []), 0);
    assert_eq!(channel.read, 0);
    assert_eq!(output, [7, 7]);
}

#[test]
fn write_ring_fills_the_free_room() {
    let mut buffer = [0u8; 4];
    let mut channel = writer(0, 6, 4);
    let count = channel.write_ring(&mut buffer, &[1, 2, 3, 4, 5]);
    assert_eq!(count, 2);
    assert_eq!(buffer, [0, 0, 1, 2]);
    assert_eq!(channel.write, 8);
    assert_eq!(channel.read, 4);
}

#[test]
fn write_ring_wraps_around() {
    let mut buffer = [0u8; 4];
    let mut channel = writer(0, 3, 3);
    assert_eq!(channel.write_ring(&mut buffer, &[7, 8, 9]), 3);
    assert_eq!(buffer, [8, 9, 0, 7]);
    assert_eq!(channel.write, 6);
}

#[test]
fn write_ring_full_ring_takes_nothing() {
    let mut buffer = [0u8; 4];
    let mut channel = writer(0, 8, 4);
    assert_eq!(channel.write_ring(&mut buffer, &[1]), 0);
    assert_eq!(buffer, [0; 4]);
    assert_eq!(channel.write, 8);
}

#[test]
fn write_ring_reader_ahead_counts_as_empty() {
    let mut buffer = [0u8; 2];
    let mut channel = writer(0, 1, 5);
    assert_eq!(channel.write_ring(&mut buffer, &[4, 5, 6]), 2);
    assert_eq!(buffer, [5, 4]);
    assert_eq!(channel.write, 3);
}

#[test]
fn write_ring_empty_cases() {
    let mut channel = writer(0, 1, 0);
    assert_eq!(channel.write_ring(&mut [], &[1, 2]), 0);
    let mut buffer = [3u8; 2];
    assert_eq!(channel.write_ring(&mut buffer, &[]), 0);
    assert_eq!(buffer, [3, 3]);
    assert_eq!(channel.write, 1);
}

#[test]
fn written_bytes_are_read_back_in_order() {
    // The same ring seen from both ends: what the writer puts in, the reader
    // takes out after what was pending, in order.
    let mut buffer = [0u8; 5];
    let mut w = writer(0, 3, 3);
    assert_eq!(w.write_ring(&mut buffer, b"hello world"), 5);
    let mut r = reader(0, w.write, w.read);
    let mut output = [0u8; 3];
    assert_eq!(r.read_ring(&buffer, &mut output), 3);
    assert_eq!(&output, b"hel");
    w.read = r.read;
    assert_eq!(w.write_ring(&mut buffer, b"p me"), 3);
    r.write = w.write;
    let mut output = [0u8; 16];
    assert_eq!(r.read_ring(&buffer, &mut output), 5);
    assert_eq!(&output[..5], b"lop m");
    assert_eq!(r.read, r.write);
}

#[test]
fn read_payload_invalid_buffer() {
    let payload = [0u8; 4];
    let mut channel = reader(3, 2, 0);
    let mut output = [0u8; 2];
    assert!(matches!(
        channel.read_payload(&payload, 2, &mut output),
        Err(ChannelError::InvalidBuffer)
    ));
    assert_eq!(channel.read, 0);
}

#[test]
fn read_payload_reads_the_channel_ring() {
    let payload = [9u8, 9, 1, 2, 3, 9];
    let mut channel = reader(2, 5, 3);
    let mut output = [0u8; 4];
    assert!(matches!(channel.read_payload(&payload, 3, &mut output), Ok(2)));
    assert_eq!(&output[..2], &[1, 2]);
    assert_eq!(channel.read, 5);
}

#[test]
fn write_payload_writes_the_channel_ring() {
    let mut payload = [0u8; 7];
    let mut channel = writer(3, 2, 1);
    assert!(channel.can_write(payload.len(), 3, 4));
    assert!(matches!(channel.write_payload(&mut payload, 3, &[1, 2, 3, 4]), Ok(2)));
    assert_eq!(payload, [0, 0, 0, 2, 0, 1, 0]);
    assert_eq!(channel.write, 4);
}

#[test]
fn write_payload_invalid_buffer() {
    let mut payload = [0u8; 4];
    let mut channel = writer(2, 0, 0);
    assert!(matches!(
        channel.write_payload(&mut payload, 3, &[1]),
        Err(ChannelError::InvalidBuffer)
    ));
    assert_eq!(payload, [0; 4]);
    assert_eq!(channel.write, 0);
}

#[test]
fn can_write_detects_position_overflow() {
    let channel = writer(0, u64::MAX - 1, u64::MAX - 1);
    assert!(!channel.can_write(8, 8, 4));
    assert!(channel.can_write(8, 8, 1));
    // A ring that does not fit is refused before any position moves.
    assert!(channel.can_write(4, 8, 4));
}
