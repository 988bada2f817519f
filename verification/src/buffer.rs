//! Packet buffers and the fixed-size pool they are lent from.
//!
//! A pool owns `PACKET_POOL_SIZE` buffers of `PACKET_SIZE` bytes each. `take`
//! lends out the first free buffer and marks it in use; `release` hands a
//! buffer back and marks its place free again. A buffer keeps its bytes while
//! it sits in the pool, so a buffer that is taken again holds what it held
//! when it was released.
use vstd::prelude::*;
use crate::codec::{be_bytes, splice, write_be, write_bytes, zeros};
use crate::config::{PACKET_POOL_SIZE, PACKET_SIZE};
use crate::schedule::{slots_bytes, Schedule, SCHEDULE_WIRE_SIZE};

verus! {

/// One place of a pool: the stored bytes and whether they are lent out.
pub struct Buffer {
    data: Vec<u8>,
    in_use: bool,
}

/// A buffer lent out by a pool: `PACKET_SIZE` bytes, of which the first
/// `size` are the packet.
pub struct PacketBuffer {
    index: usize,
    data: Vec<u8>,
    size: usize,
}

/// A vector of `n` zero bytes.
fn zeroed_bytes(n: usize) -> (v: Vec<u8>)
    ensures
        v@ == zeros(n as nat),
{
    let mut v: Vec<u8> = Vec::new();
    let mut i: usize = 0;
    while i < n
        invariant
            i <= n,
            v@ == zeros(i as nat),
        decreases n - i,
    {
        v.push(0u8);
        i = i + 1;
        assert(v@ =~= zeros(i as nat));
    }
    v
}

impl PacketBuffer {
    /// All `PACKET_SIZE` bytes of the buffer.
    pub closed spec fn bytes(&self) -> Seq<u8> {
        self.data@
    }

    /// The packet size recorded in the buffer.
    pub closed spec fn size_view(&self) -> nat {
        self.size as nat
    }

    /// The place in its pool that the buffer was lent from.
    pub closed spec fn pool_index(&self) -> nat {
        self.index as nat
    }

    /// The buffer holds exactly `PACKET_SIZE` bytes.
    pub open spec fn wf(&self) -> bool {
        self.bytes().len() == PACKET_SIZE
    }

    /// The packet bytes: the first `size` bytes of the buffer.
    pub open spec fn packet_bytes(&self) -> Seq<u8> {
        self.bytes().subrange(0, self.size_view() as int)
    }

    /// All bytes of the buffer.
    pub fn as_slice(&self) -> (s: &[u8])
        ensures
            s@ == self.bytes(),
    {
        self.data.as_slice()
    }

    /// All bytes of the buffer, to be written in place.
    pub fn as_mut_slice(&mut self) -> (s: &mut [u8])
        ensures
            s@ == old(self).bytes(),
            final(s)@ == final(self).bytes(),
            final(self).size_view() == old(self).size_view(),
            final(self).pool_index() == old(self).pool_index(),
    {
        self.data.as_mut_slice()
    }

    /// The packet bytes: the first `size` bytes of the buffer.
    pub fn as_bytes(&self) -> (s: &[u8])
        requires
            self.size_view() <= self.bytes().len(),
        ensures
            s@ == self.packet_bytes(),
    {
        vstd::slice::slice_subrange(self.data.as_slice(), 0, self.size)
    }

    /// Records the packet size.
    pub fn set_size(&mut self, size: usize)
        ensures
            final(self).bytes() == old(self).bytes(),
            final(self).size_view() == size,
            final(self).pool_index() == old(self).pool_index(),
    {
        self.size = size;
    }

    /// Sets every byte of the buffer to zero.
    pub(crate) fn clear(&mut self)
        requires
            old(self).wf(),
        ensures
            final(self).bytes() == zeros(PACKET_SIZE as nat),
            final(self).size_view() == old(self).size_view(),
            final(self).pool_index() == old(self).pool_index(),
    {
        let ghost start = self.data@;
        let mut i: usize = 0;
        while i < PACKET_SIZE
            invariant
                i <= PACKET_SIZE,
                self.data@.len() == PACKET_SIZE,
                self.size == old(self).size,
                self.index == old(self).index,
                forall|j: int| 0 <= j < i ==> #[trigger] self.data@[j] == 0u8,
            decreases PACKET_SIZE - i,
        {
            self.data.set(i, 0u8);
            i = i + 1;
        }
        assert(self.data@ =~= zeros(PACKET_SIZE as nat));
    }

    /// Sets the byte at `off`.
    pub(crate) fn put_byte(&mut self, off: usize, b: u8)
        requires
            off < old(self).bytes().len(),
        ensures
            final(self).bytes() == old(self).bytes().update(off as int, b),
            final(self).size_view() == old(self).size_view(),
            final(self).pool_index() == old(self).pool_index(),
    {
        self.data.set(off, b);
    }

    /// Writes the `n` low bytes of `v`, most significant first, at `off`.
    pub(crate) fn put_be(&mut self, off: usize, v: u64, n: usize)
        requires
            off + n <= old(self).bytes().len(),
        ensures
            final(self).bytes() == splice(old(self).bytes(), off as int, be_bytes(v as nat, n as nat)),
            final(self).bytes().len() == old(self).bytes().len(),
            final(self).size_view() == old(self).size_view(),
            final(self).pool_index() == old(self).pool_index(),
    {
        write_be(&mut self.data, off, v, n);
    }

    /// Copies `src` into the buffer at `off`.
    pub(crate) fn put_bytes(&mut self, off: usize, src: &[u8])
        requires
            off + src@.len() <= old(self).bytes().len(),
        ensures
            final(self).bytes() == splice(old(self).bytes(), off as int, src@),
            final(self).bytes().len() == old(self).bytes().len(),
            final(self).size_view() == old(self).size_view(),
            final(self).pool_index() == old(self).pool_index(),
    {
        write_bytes(&mut self.data, off, src);
    }

    /// Writes the wire form of a schedule into the buffer at `off`.
    pub(crate) fn put_schedule(&mut self, off: usize, schedule: &Schedule)
        requires
            off + SCHEDULE_WIRE_SIZE <= old(self).bytes().len(),
        ensures
            final(self).bytes() == splice(old(self).bytes(), off as int, slots_bytes(schedule.slots@)),
            final(self).size_view() == old(self).size_view(),
            final(self).pool_index() == old(self).pool_index(),
    {
        schedule.write_to(&mut self.data, off);
    }
}

/// Every place of the pool is lent out.
pub open spec fn all_in_use(pool: PacketBufferPool) -> bool {
    forall|i: int| 0 <= i < PACKET_POOL_SIZE ==> #[trigger] pool.in_use()[i]
}

/// `after` is `before` with the first free place, the one `b` came from,
/// marked in use and every other place's bytes kept.
pub open spec fn lent_first_free(
    before: PacketBufferPool,
    after: PacketBufferPool,
    b: PacketBuffer,
) -> bool {
    let i = b.pool_index() as int;
    &&& 0 <= i < PACKET_POOL_SIZE
    &&& !before.in_use()[i]
    &&& forall|j: int| 0 <= j < i ==> #[trigger] before.in_use()[j]
    &&& after.in_use() == before.in_use().update(i, true)
    &&& forall|j: int|
        0 <= j < PACKET_POOL_SIZE && j != i ==> #[trigger] after.stored()[j] == before.stored()[j]
}

/// What lending from a pool does: `r` is `None` exactly when every place was
/// in use, and then the pool is unchanged; otherwise `r` came from the first
/// free place, which is now in use.
pub open spec fn pool_lends(
    before: PacketBufferPool,
    after: PacketBufferPool,
    r: Option<PacketBuffer>,
) -> bool {
    &&& after.wf()
    &&& (r is None <==> all_in_use(before))
    &&& (r is None ==> after.in_use() == before.in_use() && after.stored() == before.stored())
    &&& (r matches Some(b) ==> lent_first_free(before, after, b) && b.wf())
}

/// `buffer` can go back to `pool`: it holds `PACKET_SIZE` bytes and its
/// place in the pool is lent out.
pub open spec fn releasable(pool: PacketBufferPool, buffer: PacketBuffer) -> bool {
    &&& buffer.wf()
    &&& buffer.pool_index() < PACKET_POOL_SIZE
    &&& pool.in_use()[buffer.pool_index() as int]
}

/// `after` is `before` with `buffer` handed back: its place is free and
/// stores the buffer's bytes.
pub open spec fn pool_released(
    before: PacketBufferPool,
    after: PacketBufferPool,
    buffer: PacketBuffer,
) -> bool {
    &&& after.wf()
    &&& after.in_use() == before.in_use().update(buffer.pool_index() as int, false)
    &&& after.stored() == before.stored().update(buffer.pool_index() as int, buffer.bytes())
}

/// A fixed set of packet buffers that are lent out and handed back.
pub struct PacketBufferPool {
    buffers: Vec<Buffer>,
}

impl PacketBufferPool {
    /// For each place of the pool, whether its buffer is lent out.
    pub closed spec fn in_use(&self) -> Seq<bool> {
        Seq::new(self.buffers@.len(), |i: int| self.buffers@[i].in_use)
    }

    /// For each place of the pool, the bytes it stores (meaningful for the
    /// places that are not lent out).
    pub closed spec fn stored(&self) -> Seq<Seq<u8>> {
        Seq::new(self.buffers@.len(), |i: int| self.buffers@[i].data@)
    }

    /// The pool has `PACKET_POOL_SIZE` places and every free place stores
    /// `PACKET_SIZE` bytes.
    pub open spec fn wf(&self) -> bool {
        &&& self.in_use().len() == PACKET_POOL_SIZE
        &&& self.stored().len() == PACKET_POOL_SIZE
        &&& forall|i: int|
            0 <= i < PACKET_POOL_SIZE && !self.in_use()[i] ==> (#[trigger] self.stored()[i]).len()
                == PACKET_SIZE
    }

    /// A pool whose `PACKET_POOL_SIZE` buffers are all free and zeroed.
    pub fn new() -> (pool: Self)
        ensures
            pool.wf(),
            forall|i: int| 0 <= i < PACKET_POOL_SIZE ==> !(#[trigger] pool.in_use()[i]),
            forall|i: int|
                0 <= i < PACKET_POOL_SIZE ==> #[trigger] pool.stored()[i] == zeros(
                    PACKET_SIZE as nat,
                ),
    {
        let mut buffers: Vec<Buffer> = Vec::new();
        let mut i: usize = 0;
        while i < PACKET_POOL_SIZE
            invariant
                i <= PACKET_POOL_SIZE,
                buffers@.len() == i,
                forall|j: int|
                    0 <= j < i ==> !(#[trigger] buffers@[j]).in_use && buffers@[j].data@ == zeros(
                        PACKET_SIZE as nat,
                    ),
            decreases PACKET_POOL_SIZE - i,
        {
            buffers.push(Buffer { data: zeroed_bytes(PACKET_SIZE), in_use: false });
            i = i + 1;
        }
        let pool = PacketBufferPool { buffers };
        assert forall|i: int| 0 <= i < PACKET_POOL_SIZE implies !(#[trigger] pool.in_use()[i])
            && pool.stored()[i] == zeros(PACKET_SIZE as nat) by {
            assert(pool.buffers@[i].data@ == zeros(PACKET_SIZE as nat));
        }
        pool
    }

    /// Lends out the first free buffer, if any, and marks its place in use.
    pub fn take(&mut self) -> (r: Option<PacketBuffer>)
        requires
            old(self).wf(),
        ensures
            final(self).wf(),
            r is None <==> all_in_use(*old(self)),
            r is None ==> final(self).in_use() == old(self).in_use() && final(self).stored()
                == old(self).stored(),
            r matches Some(b) ==> {
                &&& lent_first_free(*old(self), *final(self), b)
                &&& b.bytes() == old(self).stored()[b.pool_index() as int]
                &&& b.size_view() == PACKET_SIZE
                &&& b.wf()
            },
    {
        let n = self.buffers.len();
        let mut i: usize = 0;
        while i < n
            invariant
                n == self.buffers@.len(),
                n == PACKET_POOL_SIZE,
                i <= n,
                self.wf(),
                *self == *old(self),
                forall|j: int| 0 <= j < i ==> #[trigger] self.in_use()[j],
            decreases n - i,
        {
            if !self.buffers[i].in_use {
                let ghost before = *self;
                assert(!before.in_use()[i as int]);
                let mut place = Buffer { data: Vec::new(), in_use: true };
                self.buffers.set_and_swap(i, &mut place);
                proof {
                    assert(self.in_use() =~= before.in_use().update(i as int, true));
                    assert(before.stored()[i as int] == place.data@);
                    assert forall|j: int|
                        0 <= j < PACKET_POOL_SIZE && j != i implies #[trigger] self.stored()[j]
                        == before.stored()[j] by {
                        assert(self.buffers@[j] == before.buffers@[j]);
                    }
                    assert forall|j: int|
                        0 <= j < PACKET_POOL_SIZE && !self.in_use()[j] implies (
                        #[trigger] self.stored()[j]).len() == PACKET_SIZE by {
                        assert(self.buffers@[j] == before.buffers@[j]);
                        assert(!before.in_use()[j]);
                    }
                }
                return Some(PacketBuffer { index: i, data: place.data, size: PACKET_SIZE });
            }
            i = i + 1;
        }
        None
    }

    /// Whether `buffer` can be handed back to this pool: it holds
    /// `PACKET_SIZE` bytes and its place in the pool is lent out.
    pub fn may_release(&self, buffer: &PacketBuffer) -> (b: bool)
        requires
            self.wf(),
        ensures
            b == releasable(*self, *buffer),
    {
        buffer.data.len() == PACKET_SIZE && buffer.index < self.buffers.len()
            && self.buffers[buffer.index].in_use
    }

    /// Hands a buffer back: its place becomes free and stores the buffer's bytes.
    pub fn release(&mut self, buffer: PacketBuffer)
        requires
            old(self).wf(),
            releasable(*old(self), buffer),
        ensures
            pool_released(*old(self), *final(self), buffer),
    {
        let ghost before = *self;
        let i = buffer.index;
        self.buffers.set(i, Buffer { data: buffer.data, in_use: false });
        proof {
            assert(self.in_use() =~= before.in_use().update(i as int, false));
            assert(self.stored() =~= before.stored().update(i as int, buffer.bytes()));
        }
    }
}

/// Taking a buffer and handing it straight back leaves the pool as it was:
/// same places in use, same bytes stored.
pub proof fn law_take_release_restores(
    before: PacketBufferPool,
    after_take: PacketBufferPool,
    taken: PacketBuffer,
    after_release: PacketBufferPool,
)
    requires
        before.wf(),
        after_take.wf(),
        lent_first_free(before, after_take, taken),
        taken.bytes() == before.stored()[taken.pool_index() as int],
        after_release.in_use() == after_take.in_use().update(taken.pool_index() as int, false),
        after_release.stored() == after_take.stored().update(
            taken.pool_index() as int,
            taken.bytes(),
        ),
    ensures
        after_release.in_use() == before.in_use(),
        after_release.stored() == before.stored(),
{
    assert(after_release.in_use() =~= before.in_use());
    assert(after_release.stored() =~= before.stored());
}

} // verus!
