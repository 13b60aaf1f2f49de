//! The two one-way channels of the shared region.
//!
//! Each channel is described in the region's header by three words: the
//! offset of its ring inside the payload, the writer's position and the
//! reader's position.  A `SharedMemoryChannel` holds those three words as
//! they were loaded; the caller loads them from the header before an
//! operation and stores back the position that the operation advanced.
use crate::ring::{
    copy_from_ring, copy_to_ring, lemma_read_takes_pending,
    lemma_write_appends_pending, min_int, pending, ring_fill, ring_read_spec, ring_well_formed,
    ring_write_spec,
};
use core::marker::PhantomData;
use vstd::prelude::*;
use vstd::slice::slice_subrange;

verus! {

/// The direction in which a channel carries bytes.
pub trait ChannelDirection {}

/// Bytes written by the host and read by this worker.
pub struct HostToWorker;

/// Bytes written by this worker and read by the host.
pub struct WorkerToHost;

impl ChannelDirection for HostToWorker {}

impl ChannelDirection for WorkerToHost {}

/// The control words of one channel.
pub struct SharedMemoryChannel<D: ChannelDirection> {
    /// Offset of the channel's ring inside the payload.
    pub offset: u64,
    /// Position of the writer: bytes written since the channel was set up.
    pub write: u64,
    /// Position of the reader: bytes read since the channel was set up.
    pub read: u64,
    pub _phantom: PhantomData<D>,
}

/// Errors of a channel operation.
pub enum ChannelError {
    /// The channel's ring does not lie inside the payload.
    InvalidBuffer,
}

/// The ring `[offset, offset + channel_size)` lies inside a payload of
/// `len` bytes (the offset read as a `usize`).
pub open spec fn ring_fits(offset: u64, channel_size: usize, len: int) -> bool {
    (offset as usize) + channel_size <= len
}

/// The bytes of the payload that form the channel's ring.
pub open spec fn ring_bytes(payload: Seq<u8>, offset: u64, channel_size: usize) -> Seq<u8> {
    payload.subrange(offset as usize as int, (offset as usize) + channel_size)
}

/// Number of bytes that `read_ring` takes: none from an empty ring or into
/// an empty output, else what is pending, up to the output's length.
pub open spec fn read_count(write: u64, read: u64, len: int, room: int) -> int {
    if len == 0 || room == 0 {
        0
    } else {
        min_int(ring_fill(write, read, len), room)
    }
}

/// Number of bytes that `write_ring` puts in: none into an empty ring or
/// from an empty input, else as many as the free room takes.
pub open spec fn write_count(write: u64, read: u64, len: int, input_len: int) -> int {
    if len == 0 || input_len == 0 {
        0
    } else {
        min_int(len - ring_fill(write, read, len), input_len)
    }
}

impl<D: ChannelDirection> SharedMemoryChannel<D> {
    /// A channel with the given control words.
    pub fn new(offset: u64, write: u64, read: u64) -> (channel: Self)
        ensures
            channel.offset == offset,
            channel.write == write,
            channel.read == read,
    {
        SharedMemoryChannel { offset, write, read, _phantom: PhantomData }
    }

    /// The channel's ring inside `buffer`, if the ring lies inside it.
    pub fn find_buffer<'a>(&self, buffer: &'a [u8], channel_size: usize) -> (found: Option<
        &'a [u8],
    >)
        ensures
            ring_fits(self.offset, channel_size, buffer@.len() as int) ==> found is Some && found->0@
                == ring_bytes(buffer@, self.offset, channel_size),
            !ring_fits(self.offset, channel_size, buffer@.len() as int) ==> found is None,
    {
        let offset = self.offset as usize;
        let len = buffer.len();
        match offset.checked_add(channel_size) {
            Some(end) => {
                if end <= len {
                    Some(slice_subrange(buffer, offset, end))
                } else {
                    None
                }
            },
            None => None,
        }
    }

    /// The channel's ring inside `buffer`, borrowed for writing, if the ring
    /// lies inside it.  What is written through it is written to `buffer`.
    pub fn find_buffer_mut<'a>(&self, buffer: &'a mut [u8], channel_size: usize) -> (found: Option<
        &'a mut [u8],
    >)
        ensures
            ring_fits(self.offset, channel_size, old(buffer)@.len() as int) ==> {
                &&& found is Some
                &&& (*found.unwrap())@ == ring_bytes(old(buffer)@, self.offset, channel_size)
                &&& final(buffer)@ == old(buffer)@.subrange(0, self.offset as usize as int) + (
                *final(found.unwrap()))@ + old(buffer)@.subrange(
                    (self.offset as usize) + channel_size,
                    old(buffer)@.len() as int,
                )
            },
            !ring_fits(self.offset, channel_size, old(buffer)@.len() as int) ==> found is None
                && final(buffer)@ == old(buffer)@,
    {
        let offset = self.offset as usize;
        let len = buffer.len();
        match offset.checked_add(channel_size) {
            Some(end) => {
                if end <= len {
                    let (_, rest) = buffer.split_at_mut(offset);
                    let (ring, _) = rest.split_at_mut(channel_size);
                    Some(ring)
                } else {
                    None
                }
            },
            None => None,
        }
    }
}

impl SharedMemoryChannel<HostToWorker> {
    /// Reads from the ring `buffer` into `output` as many bytes as are
    /// pending and fit, and advances the reader's position by that count.
    pub fn read_ring(&mut self, buffer: &[u8], output: &mut [u8]) -> (count: usize)
        ensures
            count == read_count(
                old(self).write,
                old(self).read,
                buffer@.len() as int,
                old(output)@.len() as int,
            ),
            final(self).read == old(self).read + count,
            final(self).write == old(self).write,
            final(self).offset == old(self).offset,
            buffer@.len() == 0 ==> final(output)@ == old(output)@,
            buffer@.len() > 0 ==> final(output)@ == ring_read_spec(
                buffer@,
                (old(self).read as int) % (buffer@.len() as int),
                count as int,
            ) + old(output)@.subrange(count as int, old(output)@.len() as int),
            ring_well_formed(buffer@.len() as int, old(self).read, old(self).write) ==> {
                &&& final(output)@.subrange(0, count as int) == pending(
                    buffer@,
                    old(self).read,
                    old(self).write,
                ).take(count as int)
                &&& pending(buffer@, final(self).read, final(self).write) == pending(
                    buffer@,
                    old(self).read,
                    old(self).write,
                ).skip(count as int)
                &&& ring_well_formed(buffer@.len() as int, final(self).read, final(self).write)
            },
    {
        if buffer.len() == 0 || output.len() == 0 {
            return 0;
        }
        let write_pos = self.write;
        let read_pos = self.read;
        let len = buffer.len() as u64;
        let fill = write_pos.saturating_sub(read_pos);
        let available = if fill < len {
            fill
        } else {
            len
        };
        let room = output.len() as u64;
        let count = if available < room {
            available
        } else {
            room
        };
        assert(read_pos + count <= u64::MAX);
        let start = (read_pos % len) as usize;
        copy_from_ring(output, buffer, start, count as usize);
        self.read = read_pos + count;
        proof {
            if ring_well_formed(buffer@.len() as int, read_pos, write_pos) {
                lemma_read_takes_pending(buffer@, read_pos, write_pos, count as int);
                assert(final(output)@.subrange(0, count as int) =~= ring_read_spec(
                    buffer@,
                    (read_pos as int) % (buffer@.len() as int),
                    count as int,
                ));
            }
        }
        count as usize
    }
}

impl SharedMemoryChannel<WorkerToHost> {
    /// Writes into the ring `buffer` as much of `input` as the free room
    /// takes, and advances the writer's position by that count.
    pub fn write_ring(&mut self, buffer: &mut [u8], input: &[u8]) -> (count: usize)
        requires
            old(self).write + write_count(
                old(self).write,
                old(self).read,
                old(buffer)@.len() as int,
                input@.len() as int,
            ) <= u64::MAX,
        ensures
            count == write_count(
                old(self).write,
                old(self).read,
                old(buffer)@.len() as int,
                input@.len() as int,
            ),
            final(self).write == old(self).write + count,
            final(self).read == old(self).read,
            final(self).offset == old(self).offset,
            old(buffer)@.len() == 0 ==> final(buffer)@ == old(buffer)@,
            old(buffer)@.len() > 0 ==> final(buffer)@ == ring_write_spec(
                old(buffer)@,
                (old(self).write as int) % (old(buffer)@.len() as int),
                input@.take(count as int),
            ),
            ring_well_formed(old(buffer)@.len() as int, old(self).read, old(self).write) ==> {
                &&& pending(final(buffer)@, final(self).read, final(self).write) == pending(
                    old(buffer)@,
                    old(self).read,
                    old(self).write,
                ) + input@.take(count as int)
                &&& ring_well_formed(
                    old(buffer)@.len() as int,
                    final(self).read,
                    final(self).write,
                )
            },
    {
        let ghost before = buffer@;
        if buffer.len() == 0 || input.len() == 0 {
            proof {
                if before.len() > 0 {
                    assert(ring_write_spec(
                        before,
                        (self.write as int) % (before.len() as int),
                        input@.take(0),
                    ) =~= before);
                }
            }
            return 0;
        }
        let write_pos = self.write;
        let read_pos = self.read;
        let len = buffer.len() as u64;
        let fill = write_pos.saturating_sub(read_pos);
        let used = if fill < len {
            fill
        } else {
            len
        };
        let available = len - used;
        let want = input.len() as u64;
        let count = if available < want {
            available
        } else {
            want
        };
        let chunk = slice_subrange(input, 0, count as usize);
        let start = (write_pos % len) as usize;
        assert(chunk@ == input@.take(count as int));
        copy_to_ring(buffer, start, chunk);
        self.write = write_pos + count;
        proof {
            if ring_well_formed(before.len() as int, read_pos, write_pos) {
                lemma_write_appends_pending(before, read_pos, write_pos, chunk@);
            }
        }
        count as usize
    }
}

impl SharedMemoryChannel<HostToWorker> {
    /// Reads from the channel's ring inside `payload` into `output`: the
    /// ring is `channel_size` bytes long and lies at the channel's offset;
    /// where it does not lie inside the payload, nothing is read.
    pub fn read_payload(&mut self, payload: &[u8], channel_size: u64, output: &mut [u8]) -> (r:
        Result<usize, ChannelError>)
        ensures
            !ring_fits(old(self).offset, channel_size as usize, payload@.len() as int) ==> {
                &&& r matches Err(ChannelError::InvalidBuffer)
                &&& *final(self) == *old(self)
                &&& final(output)@ == old(output)@
            },
            ring_fits(old(self).offset, channel_size as usize, payload@.len() as int) ==> {
                let ring = ring_bytes(payload@, old(self).offset, channel_size as usize);
                &&& r matches Ok(count)
                &&& count == read_count(
                    old(self).write,
                    old(self).read,
                    ring.len() as int,
                    old(output)@.len() as int,
                )
                &&& final(self).read == old(self).read + count
                &&& final(self).write == old(self).write
                &&& final(self).offset == old(self).offset
                &&& final(output)@ == ring_read_spec(
                    ring,
                    (old(self).read as int) % (ring.len() as int),
                    count as int,
                ) + old(output)@.subrange(count as int, old(output)@.len() as int)
            },
    {
        let size = channel_size as usize;
        match self.find_buffer(payload, size) {
            Some(ring) => {
                let count = self.read_ring(ring, output);
                proof {
                    if ring@.len() == 0 {
                        assert(final(output)@ =~= ring_read_spec(
                            ring@,
                            (old(self).read as int) % (ring@.len() as int),
                            count as int,
                        ) + old(output)@.subrange(count as int, old(output)@.len() as int));
                    }
                }
                Ok(count)
            },
            None => Err(ChannelError::InvalidBuffer),
        }
    }
}

impl SharedMemoryChannel<WorkerToHost> {
    /// Whether `write_payload` can advance the writer's position past what
    /// it would write without leaving the range of a `u64`; where it cannot,
    /// the position would overflow.
    pub fn can_write(&self, payload_len: usize, channel_size: u64, input_len: usize) -> (ok: bool)
        ensures
            ok == (ring_fits(self.offset, channel_size as usize, payload_len as int) ==> self.write
                + write_count(self.write, self.read, channel_size as usize as int, input_len as int)
                <= u64::MAX),
    {
        let size = channel_size as usize;
        let offset = self.offset as usize;
        let fits = match offset.checked_add(size) {
            Some(end) => end <= payload_len,
            None => false,
        };
        if !fits || size == 0 || input_len == 0 {
            return true;
        }
        let len = size as u64;
        let fill = self.write.saturating_sub(self.read);
        let used = if fill < len {
            fill
        } else {
            len
        };
        let available = len - used;
        let want = input_len as u64;
        let count = if available < want {
            available
        } else {
            want
        };
        count <= u64::MAX - self.write
    }

    /// Writes `input` into the channel's ring inside `payload`: the ring is
    /// `channel_size` bytes long and lies at the channel's offset; where it
    /// does not lie inside the payload, nothing is written.
    pub fn write_payload(&mut self, payload: &mut [u8], channel_size: u64, input: &[u8]) -> (r:
        Result<usize, ChannelError>)
        requires
            ring_fits(old(self).offset, channel_size as usize, old(payload)@.len() as int) ==> old(
                self,
            ).write + write_count(
                old(self).write,
                old(self).read,
                channel_size as usize as int,
                input@.len() as int,
            ) <= u64::MAX,
        ensures
            !ring_fits(old(self).offset, channel_size as usize, old(payload)@.len() as int) ==> {
                &&& r matches Err(ChannelError::InvalidBuffer)
                &&& *final(self) == *old(self)
                &&& final(payload)@ == old(payload)@
            },
            ring_fits(old(self).offset, channel_size as usize, old(payload)@.len() as int) ==> {
                let start = old(self).offset as usize as int;
                let end = (old(self).offset as usize) + (channel_size as usize);
                let ring = ring_bytes(old(payload)@, old(self).offset, channel_size as usize);
                &&& r matches Ok(count)
                &&& count == write_count(
                    old(self).write,
                    old(self).read,
                    ring.len() as int,
                    input@.len() as int,
                )
                &&& final(self).write == old(self).write + count
                &&& final(self).read == old(self).read
                &&& final(self).offset == old(self).offset
                &&& final(payload)@ == old(payload)@.subrange(0, start) + ring_write_spec(
                    ring,
                    (old(self).write as int) % (ring.len() as int),
                    input@.take(count as int),
                ) + old(payload)@.subrange(end, old(payload)@.len() as int)
            },
    {
        let size = channel_size as usize;
        match self.find_buffer_mut(payload, size) {
            Some(ring) => {
                let ghost old_ring = ring@;
                let count = self.write_ring(ring, input);
                proof {
                    if old_ring.len() == 0 {
                        assert(ring@ =~= ring_write_spec(
                            old_ring,
                            (old(self).write as int) % (old_ring.len() as int),
                            input@.take(count as int),
                        ));
                    }
                }
                Ok(count)
            },
            None => Err(ChannelError::InvalidBuffer),
        }
    }
}

/// A write followed by a read on a well-formed ring: the reader gets the
/// bytes that were pending before the write, then the bytes written, in the
/// order they were written, as many as its output takes; and the ring stays
/// well formed.
pub proof fn lemma_write_then_read(
    buffer: Seq<u8>,
    read: u64,
    write: u64,
    input: Seq<u8>,
    room: int,
)
    requires
        ring_well_formed(buffer.len() as int, read, write),
        0 <= room,
        write + write_count(write, read, buffer.len() as int, input.len() as int) <= u64::MAX,
    ensures
        ({
            let len = buffer.len() as int;
            let put = write_count(write, read, len, input.len() as int);
            let written = ring_write_spec(buffer, (write as int) % len, input.take(put));
            let new_write = (write + put) as u64;
            let got = read_count(new_write, read, len, room);
            &&& ring_well_formed(len, read, new_write)
            &&& ring_read_spec(written, (read as int) % len, got) == (pending(buffer, read, write)
                + input.take(put)).take(got)
            &&& ring_well_formed(len, (read + got) as u64, new_write)
        }),
{
    let len = buffer.len() as int;
    let put = write_count(write, read, len, input.len() as int);
    let chunk = input.take(put);
    lemma_write_appends_pending(buffer, read, write, chunk);
    let written = ring_write_spec(buffer, (write as int) % len, chunk);
    let new_write = (write + put) as u64;
    let got = read_count(new_write, read, len, room);
    lemma_read_takes_pending(written, read, new_write, got);
}

/// A read from a non-empty ring into a non-empty output takes every pending
/// byte that fits: never more than the writer is ahead of the reader (none
/// where it is not ahead), than the ring holds, or than the output takes, and
/// exactly as many as the first of these three limits allows.
pub proof fn lemma_read_takes_all_that_fits(write: u64, read: u64, len: int, room: int)
    requires
        len > 0,
        room > 0,
    ensures
        ({
            let count = read_count(write, read, len, room);
            &&& 0 <= count
            &&& count <= room
            &&& count <= len
            &&& write <= read ==> count == 0
            &&& write > read ==> count <= write - read
            &&& write > read ==> (count == room || count == len || count == write - read)
        }),
{
}

/// A write of a non-empty input into a non-empty ring puts in every byte
/// that fits in the free room: the room is the ring's length less the bytes
/// the writer is ahead of the reader (all of it where the reader is ahead,
/// none where the writer is a whole ring or more ahead), and the count is
/// the smaller of that room and the input's length.
pub proof fn lemma_write_fills_free_room(write: u64, read: u64, len: int, input_len: int)
    requires
        len > 0,
        input_len > 0,
    ensures
        ({
            let count = write_count(write, read, len, input_len);
            let free = if write <= read {
                len
            } else if write - read >= len {
                0
            } else {
                len - (write - read)
            };
            &&& 0 <= count
            &&& count <= input_len
            &&& count <= free
            &&& (count == input_len || count == free)
        }),
{
}

} // verus!
