//! The bytes that were read from a file and wait to be parsed.
use vstd::prelude::*;

use circular::Buffer as CircularBuffer;
use std::io::Write;

verus! {

#[verifier::external_type_specification]
#[verifier::external_body]
pub struct ExCircularBuffer(CircularBuffer);

/// The bytes that a buffer holds, the oldest first.
pub uninterp spec fn held_bytes(buffer: CircularBuffer) -> Seq<u8>;

/// The number of bytes that a buffer was made for.
pub uninterp spec fn buffer_capacity(buffer: CircularBuffer) -> nat;

/// The number of bytes that can be written to a buffer at once: those behind its data. What lies
/// before its data is free too, but comes back only when the data are shifted.
pub uninterp spec fn free_bytes(buffer: CircularBuffer) -> nat;

/// Calls `Buffer::with_capacity` of circular. Trusted: the new buffer is empty, and all of its
/// capacity is free.
#[verifier::external_body]
fn new_circular(capacity: usize) -> (res: CircularBuffer)
    requires
        capacity <= isize::MAX,
    ensures
        held_bytes(res) == Seq::<u8>::empty(),
        buffer_capacity(res) == capacity,
        free_bytes(res) == capacity,
{
    CircularBuffer::with_capacity(capacity)
}

/// Calls `Buffer::reset` of circular. Trusted: the buffer is as new.
#[verifier::external_body]
fn reset_circular(buffer: &mut CircularBuffer)
    ensures
        held_bytes(*final(buffer)) == Seq::<u8>::empty(),
        buffer_capacity(*final(buffer)) == buffer_capacity(*old(buffer)),
        free_bytes(*final(buffer)) == buffer_capacity(*old(buffer)),
{
    buffer.reset()
}

/// Calls `Buffer::data` of circular. Trusted: it gives the bytes that the buffer holds.
#[verifier::external_body]
fn circular_data(buffer: &CircularBuffer) -> (res: &[u8])
    ensures
        res@ == held_bytes(*buffer),
{
    buffer.data()
}

/// Calls `Buffer::available_space` of circular. Trusted: it gives the number of bytes that can be
/// written at once.
#[verifier::external_body]
fn circular_space(buffer: &CircularBuffer) -> (res: usize)
    ensures
        res == free_bytes(*buffer),
{
    buffer.available_space()
}

/// Calls `Buffer::consume` of circular. Trusted: it drops `count` bytes from the front, or all
/// that there are if they are fewer, and returns how many. Where the data now start in the upper
/// half of the buffer, they are shifted to its beginning, so that all that they leave is free.
#[verifier::external_body]
fn consume_circular(buffer: &mut CircularBuffer, count: usize) -> (res: usize)
    ensures
        res == consumed_count(held_bytes(*old(buffer)), count as nat),
        held_bytes(*final(buffer)) == held_bytes(*old(buffer)).skip(res as int),
        buffer_capacity(*final(buffer)) == buffer_capacity(*old(buffer)),
        free_bytes(*final(buffer)) == free_after_consume(
            held_bytes(*old(buffer)),
            buffer_capacity(*old(buffer)),
            free_bytes(*old(buffer)),
            count as nat,
        ),
{
    buffer.consume(count)
}

/// Calls `write` of the impl of `std::io::Write` for circular's `Buffer`. Trusted: it appends
/// the bytes, or as many as are free, and returns how many. Where less is free then than the
/// data and what was written take together, the data are shifted to the beginning of the buffer,
/// so that all that they leave is free. The impl returns no error.
#[verifier::external_body]
fn write_circular(buffer: &mut CircularBuffer, bytes: &[u8]) -> (res: usize)
    ensures
        res == written_count(free_bytes(*old(buffer)), bytes@),
        held_bytes(*final(buffer)) == held_bytes(*old(buffer)) + bytes@.take(res as int),
        buffer_capacity(*final(buffer)) == buffer_capacity(*old(buffer)),
        free_bytes(*final(buffer)) == free_after_write(
            held_bytes(*old(buffer)),
            buffer_capacity(*old(buffer)),
            free_bytes(*old(buffer)),
            bytes@,
        ),
{
    buffer.write(bytes).unwrap()
}

/// How many bytes are dropped from `contents` where `count` are to be.
pub open spec fn consumed_count(contents: Seq<u8>, count: nat) -> nat {
    if count <= contents.len() {
        count
    } else {
        contents.len()
    }
}

/// How much is free after `count` bytes were consumed.
pub open spec fn free_after_consume(
    contents: Seq<u8>,
    capacity: nat,
    space: nat,
    count: nat,
) -> nat {
    let dropped = consumed_count(contents, count);
    if capacity - space - contents.len() + dropped > capacity / 2 {
        (capacity - (contents.len() - dropped)) as nat
    } else {
        space
    }
}

/// How many of the bytes are written where `space` are free.
pub open spec fn written_count(space: nat, bytes: Seq<u8>) -> nat {
    if bytes.len() <= space {
        bytes.len()
    } else {
        space
    }
}

/// How much is free after the bytes were written.
pub open spec fn free_after_write(
    contents: Seq<u8>,
    capacity: nat,
    space: nat,
    bytes: Seq<u8>,
) -> nat {
    let written = written_count(space, bytes);
    if space - written < contents.len() + written + written {
        (capacity - contents.len() - written) as nat
    } else {
        (space - written) as nat
    }
}

/// Bytes between the file that they are read from and the parsers.
pub struct Buffer {
    buffer: CircularBuffer,
    read_bytes: u64,
}

/// What a buffer is, as its users see it.
#[verifier::ext_equal]
pub struct BufferView {
    /// the bytes that wait to be parsed
    pub contents: Seq<u8>,
    /// the number of bytes that the buffer was made for
    pub capacity: nat,
    /// the number of bytes that can be read into the buffer at once
    pub space: nat,
    /// the number of bytes that were read since the last reset
    pub read_bytes: u64,
}

impl BufferView {
    /// What holds of every buffer.
    pub open spec fn wf(self) -> bool {
        self.contents.len() + self.space <= self.capacity
    }

    /// A new buffer.
    pub open spec fn empty(capacity: nat) -> BufferView {
        BufferView { contents: Seq::empty(), capacity, space: capacity, read_bytes: 0 }
    }

    /// The buffer after a reset.
    pub open spec fn after_reset(self) -> BufferView {
        BufferView::empty(self.capacity)
    }

    /// The buffer after `count` bytes were consumed.
    pub open spec fn after_consume(self, count: nat) -> BufferView {
        BufferView {
            contents: self.contents.skip(consumed_count(self.contents, count) as int),
            space: free_after_consume(self.contents, self.capacity, self.space, count),
            ..self
        }
    }

    /// The buffer after `bytes` were read.
    pub open spec fn after_read(self, bytes: Seq<u8>) -> BufferView {
        let written = written_count(self.space, bytes);
        BufferView {
            contents: self.contents + bytes.take(written as int),
            space: free_after_write(self.contents, self.capacity, self.space, bytes),
            read_bytes: ((self.read_bytes + written) % 0x1_0000_0000_0000_0000) as u64,
            ..self
        }
    }
}

impl View for Buffer {
    type V = BufferView;

    closed spec fn view(&self) -> BufferView {
        BufferView {
            contents: held_bytes(self.buffer),
            capacity: buffer_capacity(self.buffer),
            space: free_bytes(self.buffer),
            read_bytes: self.read_bytes,
        }
    }
}

impl Buffer {
    pub fn with_capacity(size: usize) -> (res: Self)
        requires
            size <= isize::MAX,
        ensures
            res@ == BufferView::empty(size as nat),
            res@.wf(),
    {
        Buffer { buffer: new_circular(size), read_bytes: 0 }
    }

    /// Resets the buffer (so that `data()` returns an empty slice, and `space()` returns the full
    /// capacity), along with the read bytes counter.
    pub fn reset(&mut self)
        ensures
            final(self)@ == old(self)@.after_reset(),
            final(self)@.wf(),
    {
        self.read_bytes = 0;
        reset_circular(&mut self.buffer);
    }

    /// Returns the number of read bytes since the last reset.
    pub fn read_bytes(&self) -> (res: u64)
        ensures
            res == self@.read_bytes,
    {
        self.read_bytes
    }

    /// Returns a slice with all the available data.
    pub fn data(&self) -> (res: &[u8])
        ensures
            res@ == self@.contents,
    {
        circular_data(&self.buffer)
    }

    /// Returns how many bytes can be read at once.
    pub fn space(&self) -> (res: usize)
        ensures
            res == self@.space,
    {
        circular_space(&self.buffer)
    }

    /// Advances the position tracker.
    ///
    /// If the position gets past the buffer's half, the remaining data are moved to the beginning
    /// of the buffer.
    pub fn consume(&mut self, count: usize) -> (res: usize)
        requires
            old(self)@.wf(),
        ensures
            final(self)@ == old(self)@.after_consume(count as nat),
            res == consumed_count(old(self)@.contents, count as nat),
            final(self)@.wf(),
    {
        consume_circular(&mut self.buffer, count)
    }

    /// Fills the buffer with bytes that were read, and returns how many of them fit.
    pub fn read(&mut self, bytes: &[u8]) -> (res: usize)
        requires
            old(self)@.wf(),
        ensures
            final(self)@ == old(self)@.after_read(bytes@),
            res == written_count(old(self)@.space, bytes@),
            final(self)@.wf(),
    {
        let written: usize = write_circular(&mut self.buffer, bytes);
        self.read_bytes = self.read_bytes.wrapping_add(written as u64);
        written
    }
}

} // verus!
