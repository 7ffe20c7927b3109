//! The read buffer: the unconsumed tail of the byte stream, in a buffer
//! whose capacity grows by fixed steps up to a hard ceiling.

use bytes::BytesMut;
use vstd::prelude::*;

verus! {

/// The capacity a read buffer starts with.
pub const INITIAL_CAPACITY: usize = 1024;

/// The step by which a full read buffer grows.
pub const GROW_STEP: usize = 2 * 1024;

/// The ceiling: the capacity that a read buffer never exceeds, and so the
/// longest line that can be received.
pub const LINE_CAP: usize = 8 * 1024;

/// `bytes::BytesMut`, a growable buffer of bytes; what it holds is read
/// through [`buffered`] alone.
#[verifier::external_type_specification]
#[verifier::external_body]
pub struct ExBytesMut(bytes::BytesMut);

/// The bytes that a `BytesMut` holds, first to last.
pub uninterp spec fn buffered(b: BytesMut) -> Seq<u8>;

/// `BytesMut::with_capacity`: a buffer that holds no bytes.
pub assume_specification[ BytesMut::with_capacity ](capacity: usize) -> (b: BytesMut)
    requires
        capacity <= isize::MAX,
    ensures
        buffered(b) == Seq::<u8>::empty(),
;

/// `BytesMut::len`: the number of bytes held.
pub assume_specification[ BytesMut::len ](b: &BytesMut) -> (n: usize)
    ensures
        n == buffered(*b).len(),
;

/// `BytesMut::reserve`: makes room; the bytes held stay as they are.
pub assume_specification[ BytesMut::reserve ](b: &mut BytesMut, additional: usize)
    requires
        buffered(*old(b)).len() + additional <= isize::MAX,
    ensures
        buffered(*final(b)) == buffered(*old(b)),
;

/// `BytesMut::extend_from_slice`: the given bytes are appended.
pub assume_specification[ BytesMut::extend_from_slice ](b: &mut BytesMut, extend: &[u8])
    requires
        buffered(*old(b)).len() + extend@.len() <= isize::MAX,
    ensures
        buffered(*final(b)) == buffered(*old(b)) + extend@,
;

/// `BytesMut::split_to`: the first `at` bytes are returned, the buffer keeps
/// the rest. The call panics where `at` exceeds the length.
pub assume_specification[ BytesMut::split_to ](b: &mut BytesMut, at: usize) -> (front: BytesMut)
    requires
        at <= buffered(*old(b)).len(),
    ensures
        buffered(front) == buffered(*old(b)).take(at as int),
        buffered(*final(b)) == buffered(*old(b)).skip(at as int),
;

/// `Deref` of `BytesMut`: the bytes held, as a slice.
#[verifier::external_body]
fn held_bytes(b: &BytesMut) -> (s: &[u8])
    ensures
        s@ == buffered(*b),
{
    &b[..]
}

/// The unconsumed tail of the stream.
///
/// The capacity is the room that the buffer grants to reads. The buffer
/// counts it itself: it is a limit of the protocol, not the size of an
/// allocation.
pub struct ReadBuffer {
    data: BytesMut,
    capacity: usize,
}

impl View for ReadBuffer {
    type V = Seq<u8>;

    closed spec fn view(&self) -> Seq<u8> {
        buffered(self.data)
    }
}

impl ReadBuffer {
    /// The capacity that the buffer has grown to.
    pub closed spec fn room(&self) -> nat {
        self.capacity as nat
    }

    /// The invariant: the bytes held fit the capacity, and the capacity lies
    /// between the initial one and the ceiling.
    pub open spec fn wf(&self) -> bool {
        capacity_wf(self@.len(), self.room())
    }

    /// An empty buffer of the initial capacity.
    pub fn new() -> (b: ReadBuffer)
        ensures
            b.wf(),
            b@ == Seq::<u8>::empty(),
            b.room() == INITIAL_CAPACITY,
    {
        ReadBuffer { data: BytesMut::with_capacity(INITIAL_CAPACITY), capacity: INITIAL_CAPACITY }
    }

    /// The number of bytes held.
    pub fn len(&self) -> (n: usize)
        ensures
            n == self@.len(),
    {
        self.data.len()
    }

    /// The capacity that the buffer has grown to.
    pub fn capacity(&self) -> (n: usize)
        ensures
            n == self.room(),
    {
        self.capacity
    }

    /// The number of bytes that the next read may bring.
    pub fn spare(&self) -> (n: usize)
        requires
            self.wf(),
        ensures
            n == self.room() - self@.len(),
    {
        self.capacity - self.data.len()
    }

    /// The bytes held.
    pub fn as_slice(&self) -> (s: &[u8])
        ensures
            s@ == self@,
    {
        held_bytes(&self.data)
    }

    /// Makes sure that the next read has room. A buffer with spare capacity
    /// is left alone; a full one grows by one step, but never beyond the
    /// ceiling. Returns `false`, and changes nothing, for a buffer that is
    /// full at the ceiling. The bytes held are never touched.
    pub fn ensure_room(&mut self) -> (ok: bool)
        requires
            old(self).wf(),
        ensures
            final(self).wf(),
            final(self)@ == old(self)@,
            final(self).room() == grown(old(self)@.len(), old(self).room()),
            ok == has_room(old(self)@.len(), old(self).room()),
            ok ==> final(self)@.len() < final(self).room(),
    {
        if self.data.len() < self.capacity {
            return true;
        }
        if self.capacity >= LINE_CAP {
            return false;
        }
        let left = LINE_CAP - self.capacity;
        let add = if GROW_STEP < left {
            GROW_STEP
        } else {
            left
        };
        self.data.reserve(add);
        self.capacity = self.capacity + add;
        true
    }

    /// Appends what a read brought.
    pub fn extend(&mut self, chunk: &[u8])
        requires
            old(self).wf(),
            old(self)@.len() + chunk@.len() <= old(self).room(),
        ensures
            final(self).wf(),
            final(self)@ == old(self)@ + chunk@,
            final(self).room() == old(self).room(),
    {
        self.data.extend_from_slice(chunk);
    }

    /// Drops the first `n` bytes.
    pub fn consume(&mut self, n: usize)
        requires
            old(self).wf(),
            n <= old(self)@.len(),
        ensures
            final(self).wf(),
            final(self)@ == old(self)@.skip(n as int),
            final(self).room() == old(self).room(),
    {
        let _ = self.data.split_to(n);
    }
}

/// Whether `len` bytes and a capacity of `room` are a state that a read
/// buffer can be in.
pub open spec fn capacity_wf(len: nat, room: nat) -> bool {
    len <= room && INITIAL_CAPACITY <= room <= LINE_CAP
}

/// Whether a read can go on: the buffer has spare capacity, or can grow.
pub open spec fn has_room(len: nat, room: nat) -> bool {
    len < room || room < LINE_CAP
}

/// The capacity after room was asked for: a full buffer below the ceiling
/// has grown by one step, cut off at the ceiling.
pub open spec fn grown(len: nat, room: nat) -> nat {
    if len < room || room >= LINE_CAP {
        room
    } else if room + GROW_STEP <= LINE_CAP {
        (room + GROW_STEP) as nat
    } else {
        LINE_CAP as nat
    }
}

} // verus!
