//! Byte rings: a buffer whose positions wrap around, with a reader position
//! and a writer position that only ever grow.
//!
//! The positions are byte counts since the channel was set up; a position
//! `p` names the slot `p % len` of the buffer.  The bytes that a reader has
//! not yet consumed are those of `pending`.
use vstd::arithmetic::div_mod::{
    lemma_add_mod_noop, lemma_fundamental_div_mod_converse, lemma_mod_bound, lemma_small_mod,
    lemma_sub_mod_noop,
};
use vstd::prelude::*;

verus! {

/// The smaller of two integers.
pub open spec fn min_int(a: int, b: int) -> int {
    if a <= b {
        a
    } else {
        b
    }
}

/// `a - b`, or 0 where `b` exceeds `a`.
pub open spec fn sat_sub(a: int, b: int) -> int {
    if a >= b {
        a - b
    } else {
        0
    }
}

/// Number of bytes that a copy starting at `start` takes before it wraps.
pub open spec fn first_part(len: int, start: int, count: int) -> int {
    min_int(count, len - start)
}

/// The `count` bytes that `copy_from_ring` takes out of `buffer` from
/// `start` on: first up to the end of the buffer, then from its beginning.
pub open spec fn ring_read_spec(buffer: Seq<u8>, start: int, count: int) -> Seq<u8> {
    let first = first_part(buffer.len() as int, start, count);
    Seq::new(
        count as nat,
        |i: int|
            if i < first {
                buffer[start + i]
            } else {
                buffer[i - first]
            },
    )
}

/// The buffer that `copy_to_ring` leaves when it writes `input` from `start`
/// on: the slots from `start` up to the end of the buffer take the first
/// bytes of `input`, the slots from the beginning take the rest.
pub open spec fn ring_write_spec(buffer: Seq<u8>, start: int, input: Seq<u8>) -> Seq<u8> {
    let first = first_part(buffer.len() as int, start, input.len() as int);
    let second = input.len() - first;
    Seq::new(
        buffer.len(),
        |p: int|
            if p < second {
                input[first + p]
            } else if start <= p < start + first {
                input[p - start]
            } else {
                buffer[p]
            },
    )
}

/// Number of bytes between the reader and the writer, at most the whole ring.
pub open spec fn ring_fill(write: u64, read: u64, len: int) -> int {
    min_int(sat_sub(write as int, read as int), len)
}

/// The bytes that the reader at `read` has not consumed yet: the slots from
/// `read` on, in ring order, as many as `ring_fill` counts.
pub open spec fn pending(buffer: Seq<u8>, read: u64, write: u64) -> Seq<u8> {
    Seq::new(
        ring_fill(write, read, buffer.len() as int) as nat,
        |i: int| buffer[(read + i) % (buffer.len() as int)],
    )
}

/// A ring whose writer is ahead of its reader by at most the buffer's length:
/// the state that the channel protocol keeps.
pub open spec fn ring_well_formed(len: int, read: u64, write: u64) -> bool {
    &&& len > 0
    &&& read <= write
    &&& write - read <= len
}

/// Copies `count` bytes of the ring `buffer`, from slot `start` on, into the
/// front of `output`; the rest of `output` is left as it was.
pub fn copy_from_ring(output: &mut [u8], buffer: &[u8], start: usize, count: usize)
    requires
        start <= buffer@.len(),
        count <= old(output)@.len(),
        count - first_part(buffer@.len() as int, start as int, count as int) <= buffer@.len(),
    ensures
        final(output)@ == ring_read_spec(buffer@, start as int, count as int) + old(output)@.subrange(
            count as int,
            old(output)@.len() as int,
        ),
{
    let room = buffer.len() - start;
    let first_count = if count < room {
        count
    } else {
        room
    };
    let second_count = count - first_count;
    let ghost before = output@;
    let mut i: usize = 0;
    while i < first_count
        invariant
            i <= first_count,
            first_count == first_part(buffer@.len() as int, start as int, count as int),
            start + first_count <= buffer.len(),
            count <= before.len(),
            first_count <= count,
            output@.len() == before.len(),
            forall|k: int| 0 <= k < i ==> output@[k] == buffer@[start + k],
            forall|k: int| i <= k < before.len() ==> output@[k] == before[k],
        decreases first_count - i,
    {
        output[i] = buffer[start + i];
        i = i + 1;
    }
    let mut j: usize = 0;
    while j < second_count
        invariant
            j <= second_count,
            second_count == count - first_count,
            second_count <= buffer@.len(),
            first_count == first_part(buffer@.len() as int, start as int, count as int),
            count <= before.len(),
            first_count <= count,
            output@.len() == before.len(),
            forall|k: int| 0 <= k < first_count ==> output@[k] == buffer@[start + k],
            forall|k: int| first_count <= k < first_count + j ==> output@[k] == buffer@[k - first_count],
            forall|k: int| first_count + j <= k < before.len() ==> output@[k] == before[k],
        decreases second_count - j,
    {
        output[first_count + j] = buffer[j];
        j = j + 1;
    }
    assert(output@ =~= ring_read_spec(buffer@, start as int, count as int) + before.subrange(
        count as int,
        before.len() as int,
    ));
}

/// Writes `input` into the ring `buffer` from slot `start` on, wrapping to
/// the beginning of the buffer where it reaches the end.
pub fn copy_to_ring(buffer: &mut [u8], start: usize, input: &[u8])
    requires
        start <= old(buffer)@.len(),
        input@.len() - first_part(old(buffer)@.len() as int, start as int, input@.len() as int)
            <= old(buffer)@.len(),
    ensures
        final(buffer)@ == ring_write_spec(old(buffer)@, start as int, input@),
{
    let room = buffer.len() - start;
    let first_count = if input.len() < room {
        input.len()
    } else {
        room
    };
    let second_count = input.len() - first_count;
    let ghost before = buffer@;
    let mut i: usize = 0;
    while i < first_count
        invariant
            i <= first_count,
            first_count == first_part(before.len() as int, start as int, input@.len() as int),
            start + first_count <= buffer.len(),
            first_count <= input@.len(),
            buffer@.len() == before.len(),
            forall|p: int| start <= p < start + i ==> buffer@[p] == input@[p - start],
            forall|p: int| 0 <= p < before.len() && !(start <= p < start + i) ==> buffer@[p] == before[p],
        decreases first_count - i,
    {
        buffer[start + i] = input[i];
        i = i + 1;
    }
    let mut j: usize = 0;
    while j < second_count
        invariant
            j <= second_count,
            second_count == input@.len() - first_count,
            first_count + second_count == input.len(),
            second_count <= before.len(),
            first_count == first_part(before.len() as int, start as int, input@.len() as int),
            start + first_count <= before.len(),
            buffer@.len() == before.len(),
            forall|p: int| 0 <= p < j ==> buffer@[p] == input@[first_count + p],
            forall|p: int|
                j <= p < before.len() && start <= p < start + first_count ==> buffer@[p] == input@[p - start],
            forall|p: int|
                j <= p < before.len() && !(start <= p < start + first_count) ==> buffer@[p] == before[p],
        decreases second_count - j,
    {
        buffer[j] = input[first_count + j];
        j = j + 1;
    }
    assert(buffer@ =~= ring_write_spec(before, start as int, input@));
}

/// A position `x` in `[0, 2 * len)` lies at slot `x` or `x - len`.
proof fn lemma_mod_once(x: int, len: int)
    requires
        len > 0,
        0 <= x < 2 * len,
    ensures
        x % len == if x < len {
            x
        } else {
            x - len
        },
{
    if x < len {
        lemma_small_mod(x as nat, len as nat);
    } else {
        lemma_fundamental_div_mod_converse(x, len, 1, x - len);
    }
}

/// A distance `x` in `[-len, 0)` wraps to `x + len`.
proof fn lemma_mod_negative(x: int, len: int)
    requires
        len > 0,
        -len <= x < 0,
    ensures
        x % len == x + len,
{
    lemma_fundamental_div_mod_converse(x, len, -1, x + len);
}

/// What `copy_from_ring` reads is the buffer in ring order: byte `i` comes
/// from slot `(start + i) % len`.
pub proof fn lemma_read_spec_ring_order(buffer: Seq<u8>, start: int, count: int)
    requires
        0 <= start < buffer.len(),
        0 <= count <= buffer.len(),
    ensures
        forall|i: int|
            0 <= i < count ==> #[trigger] ring_read_spec(buffer, start, count)[i] == buffer[(start + i)
                % (buffer.len() as int)],
{
    let len = buffer.len() as int;
    assert forall|i: int| 0 <= i < count implies #[trigger] ring_read_spec(buffer, start, count)[i]
        == buffer[(start + i) % len] by {
        lemma_mod_once(start + i, len);
    }
}

/// What `copy_to_ring` leaves in slot `p` depends on the slot's distance
/// from `start` in ring order: the distance indexes `input` where it is
/// short enough, and the slot keeps its old byte otherwise.
pub proof fn lemma_write_spec_by_distance(buffer: Seq<u8>, start: int, input: Seq<u8>)
    requires
        0 <= start < buffer.len(),
        input.len() <= buffer.len(),
    ensures
        forall|p: int|
            0 <= p < buffer.len() ==> #[trigger] ring_write_spec(buffer, start, input)[p] == if (p
                - start) % (buffer.len() as int) < input.len() {
                input[(p - start) % (buffer.len() as int)]
            } else {
                buffer[p]
            },
{
    let len = buffer.len() as int;
    assert forall|p: int| 0 <= p < len implies #[trigger] ring_write_spec(buffer, start, input)[p]
        == if (p - start) % len < input.len() {
        input[(p - start) % len]
    } else {
        buffer[p]
    } by {
        if p >= start {
            lemma_mod_once(p - start, len);
        } else {
            lemma_mod_negative(p - start, len);
        }
    }
}

/// Reading `count` bytes of a well-formed ring returns the first `count`
/// pending bytes, and leaves the others pending.
pub proof fn lemma_read_takes_pending(buffer: Seq<u8>, read: u64, write: u64, count: int)
    requires
        ring_well_formed(buffer.len() as int, read, write),
        0 <= count <= write - read,
    ensures
        ring_read_spec(buffer, (read as int) % (buffer.len() as int), count) == pending(buffer, read, write).take(
            count,
        ),
        read + count <= u64::MAX,
        pending(buffer, (read + count) as u64, write) == pending(buffer, read, write).skip(count),
{
    let len = buffer.len() as int;
    let start = (read as int) % len;
    lemma_mod_bound(read as int, len);
    lemma_read_spec_ring_order(buffer, start, count);
    assert forall|i: int| 0 <= i < count implies #[trigger] ((start + i) % len) == (read + i) % len by {
        lemma_mod_bound(i, len);
        lemma_add_mod_noop(read as int, i, len);
        lemma_small_mod(i as nat, len as nat);
    }
    assert(ring_read_spec(buffer, start, count) =~= pending(buffer, read, write).take(count));
    let after = (read + count) as u64;
    assert(pending(buffer, after, write) =~= pending(buffer, read, write).skip(count));
}

/// Writing `chunk` at the writer's position of a well-formed ring, where it
/// fits in the free room, appends it to the pending bytes.
pub proof fn lemma_write_appends_pending(buffer: Seq<u8>, read: u64, write: u64, chunk: Seq<u8>)
    requires
        ring_well_formed(buffer.len() as int, read, write),
        chunk.len() <= buffer.len() - (write - read),
        write + chunk.len() <= u64::MAX,
    ensures
        ring_well_formed(buffer.len() as int, read, (write + chunk.len()) as u64),
        pending(
            ring_write_spec(buffer, (write as int) % (buffer.len() as int), chunk),
            read,
            (write + chunk.len()) as u64,
        ) == pending(buffer, read, write) + chunk,
{
    let len = buffer.len() as int;
    let start = (write as int) % len;
    let fill = write - read;
    let after = ring_write_spec(buffer, start, chunk);
    let new_write = (write + chunk.len()) as u64;
    lemma_mod_bound(write as int, len);
    lemma_write_spec_by_distance(buffer, start, chunk);
    assert forall|k: int| 0 <= k < fill + chunk.len() implies #[trigger] after[(read + k) % len]
        == (pending(buffer, read, write) + chunk)[k] by {
        let p = (read + k) % len;
        lemma_mod_bound(read + k, len);
        lemma_sub_mod_noop(read + k, write as int, len);
        if k < fill {
            lemma_mod_negative(k - fill, len);
        } else {
            lemma_small_mod((k - fill) as nat, len as nat);
        }
    }
    assert(pending(after, read, new_write) =~= pending(buffer, read, write) + chunk);
}

/// Copying bytes into a ring and then out of it from the same slot gives
/// the same bytes back, as long as they fit in the ring.
pub proof fn lemma_copy_round_trip(buffer: Seq<u8>, start: int, input: Seq<u8>)
    requires
        0 <= start < buffer.len(),
        input.len() <= buffer.len(),
    ensures
        ring_read_spec(ring_write_spec(buffer, start, input), start, input.len() as int) == input,
{
    let len = buffer.len() as int;
    let written = ring_write_spec(buffer, start, input);
    lemma_read_spec_ring_order(written, start, input.len() as int);
    lemma_write_spec_by_distance(buffer, start, input);
    assert forall|i: int| 0 <= i < input.len() implies #[trigger] ring_read_spec(
        written,
        start,
        input.len() as int,
    )[i] == input[i] by {
        lemma_mod_bound(start + i, len);
        lemma_mod_once(start + i, len);
        if start + i < len {
            lemma_small_mod(i as nat, len as nat);
        } else {
            lemma_mod_negative(start + i - len - start, len);
            lemma_small_mod(i as nat, len as nat);
        }
    }
    assert(ring_read_spec(written, start, input.len() as int) =~= input);
}

} // verus!
