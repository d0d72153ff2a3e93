use vstd::prelude::*;
use vstd::bytes::*;
use vstd::slice::slice_subrange;
use std::marker::PhantomData;
use crate::error::SilError;
use crate::region::{extend_bytes, write_bytes};
use crate::version::{
    Packer, IsVersionMatched, Version, VERSION_LEN, PROGRAM_VERSION, unpack_account,
    spec_unpack_account,
};

verus! {

/// Capacity of every ring and stack container of a pool.
pub const POOL_QUEUE_CAPACITY: u64 = 1000;

/// Encoded length of [`FIFOInfo`]: header, then used, head and tail.
pub const FIFO_INFO_LEN: usize = 153;

/// Encoded length of [`LIFOInfo`]: header, then used.
pub const LIFO_INFO_LEN: usize = 137;

/// The slot that lies `k` places after `head` in a ring of `cap` slots.
pub open spec fn ring_slot(head: int, k: int, cap: int) -> int {
    if head + k < cap {
        head + k
    } else {
        head + k - cap
    }
}

/// Offset of slot `i` in a region whose slots of `elen` bytes follow `meta` bytes.
pub open spec fn slot_start(meta: int, elen: int, i: int) -> int {
    meta + i * elen
}

/// The bytes of slot `i`.
pub open spec fn slot_bytes(data: Seq<u8>, meta: int, elen: int, i: int) -> Seq<u8> {
    data.subrange(slot_start(meta, elen, i), slot_start(meta, elen, i) + elen)
}

/// `data` with slot `i` overwritten by `e`, every other byte kept.
pub open spec fn written(data: Seq<u8>, meta: int, elen: int, i: int, e: Seq<u8>) -> Seq<u8> {
    data.subrange(0, slot_start(meta, elen, i)) + e + data.subrange(slot_start(meta, elen, i) + elen, data.len() as int)
}

/// Slots of equal length laid end to end do not overlap and stay inside the region.
pub proof fn lemma_slot_order(i: int, j: int, elen: int)
    requires
        0 <= i < j,
        0 <= elen,
    ensures
        i * elen + elen <= j * elen,
        0 <= i * elen,
{
    assert(i * elen + elen <= j * elen) by (nonlinear_arith)
        requires
            0 <= i < j,
            0 <= elen,
    ;
    assert(0 <= i * elen) by (nonlinear_arith)
        requires
            0 <= i,
            0 <= elen,
    ;
}

/// With slots of at least one byte, the slot count is below the slots' length.
pub proof fn lemma_count_le_bytes(cap: int, elen: int)
    requires
        0 <= cap,
        1 <= elen,
    ensures
        cap <= cap * elen,
{
    assert(cap <= cap * elen) by (nonlinear_arith)
        requires
            0 <= cap,
            1 <= elen,
    ;
}

/// Writing slot `t` sets its bytes and keeps every other slot's bytes.
pub proof fn lemma_write_slot(old_data: Seq<u8>, new_data: Seq<u8>, meta: int, elen: int, cap: int, t: int, e: Seq<u8>)
    requires
        0 <= meta,
        0 <= elen,
        0 <= t < cap,
        e.len() == elen,
        old_data.len() >= meta + cap * elen,
        new_data == old_data.subrange(0, slot_start(meta, elen, t)) + e
            + old_data.subrange(slot_start(meta, elen, t) + elen, old_data.len() as int),
    ensures
        new_data.len() == old_data.len(),
        slot_bytes(new_data, meta, elen, t) == e,
        forall|i: int| 0 <= i < cap && i != t ==> #[trigger] slot_bytes(new_data, meta, elen, i)
            == slot_bytes(old_data, meta, elen, i),
{
    lemma_slot_order(t, cap, elen);
    assert(slot_bytes(new_data, meta, elen, t) =~= e);
    assert forall|i: int| 0 <= i < cap && i != t implies #[trigger] slot_bytes(new_data, meta, elen, i)
        == slot_bytes(old_data, meta, elen, i) by {
        lemma_slot_order(i, cap, elen);
        if i < t {
            lemma_slot_order(i, t, elen);
        } else {
            lemma_slot_order(t, i, elen);
        }
        assert(slot_bytes(new_data, meta, elen, i) =~= slot_bytes(old_data, meta, elen, i));
    }
}

/// Metadata of a ring container: header and its three counters.
#[derive(Debug, Clone, Copy, PartialEq, Eq, Structural)]
pub struct FIFOInfo {
    pub tag: Version,
    pub used: u64,
    pub head: u64,
    pub tail: u64,
}

impl FIFOInfo {
    /// The metadata of an empty ring stamped with the current version.
    pub open spec fn default_spec() -> FIFOInfo {
        FIFOInfo { tag: Version(PROGRAM_VERSION), used: 0, head: 0, tail: 0 }
    }
}

impl Default for FIFOInfo {
    fn default() -> (r: FIFOInfo)
        ensures
            r == (FIFOInfo { tag: Version(PROGRAM_VERSION), used: 0, head: 0, tail: 0 }),
    {
        FIFOInfo { tag: Version(PROGRAM_VERSION), used: 0, head: 0, tail: 0 }
    }
}

impl Packer for FIFOInfo {
    open spec fn spec_len() -> nat {
        FIFO_INFO_LEN as nat
    }

    open spec fn spec_pack(&self) -> Seq<u8> {
        self.tag.spec_pack() + spec_u64_to_le_bytes(self.used) + spec_u64_to_le_bytes(self.head)
            + spec_u64_to_le_bytes(self.tail)
    }

    open spec fn spec_unpack(b: Seq<u8>) -> FIFOInfo {
        FIFOInfo {
            tag: Version::spec_unpack(b.subrange(0, 129)),
            used: spec_u64_from_le_bytes(b.subrange(129, 137)),
            head: spec_u64_from_le_bytes(b.subrange(137, 145)),
            tail: spec_u64_from_le_bytes(b.subrange(145, 153)),
        }
    }

    fn packed_len() -> (r: usize) {
        FIFO_INFO_LEN
    }

    fn pack(&self) -> (r: Vec<u8>) {
        proof {
            lemma_auto_spec_u64_to_from_le_bytes();
        }
        let mut out = self.tag.pack();
        extend_bytes(&mut out, &u64_to_le_bytes(self.used));
        extend_bytes(&mut out, &u64_to_le_bytes(self.head));
        extend_bytes(&mut out, &u64_to_le_bytes(self.tail));
        out
    }

    fn unpack(b: &[u8]) -> (r: FIFOInfo) {
        FIFOInfo {
            tag: Version::unpack(slice_subrange(b, 0, VERSION_LEN)),
            used: u64_from_le_bytes(slice_subrange(b, 129, 137)),
            head: u64_from_le_bytes(slice_subrange(b, 137, 145)),
            tail: u64_from_le_bytes(slice_subrange(b, 145, 153)),
        }
    }

    proof fn lemma_pack_unpack(v: FIFOInfo) {
        lemma_auto_spec_u64_to_from_le_bytes();
        let b = v.spec_pack();
        assert(b.subrange(0, 129)[0] == v.tag.0);
        assert(b.subrange(129, 137) =~= spec_u64_to_le_bytes(v.used));
        assert(b.subrange(137, 145) =~= spec_u64_to_le_bytes(v.head));
        assert(b.subrange(145, 153) =~= spec_u64_to_le_bytes(v.tail));
    }
}

impl IsVersionMatched for FIFOInfo {
    open spec fn spec_version(&self) -> u8 {
        self.tag.0
    }

    proof fn lemma_version_byte(bytes: Seq<u8>) {
        assert(bytes.subrange(0, 129)[0] == bytes[0]);
    }

    fn is_version_matched(&self) -> (r: bool) {
        self.tag.is_version_matched()
    }

    fn is_initialized(&self) -> (r: bool) {
        self.tag.is_initialized()
    }
}

/// The counters of a ring of `cap` slots agree with each other.
pub open spec fn fifo_counters_ok(info: FIFOInfo, cap: u64) -> bool {
    &&& info.used <= cap
    &&& info.head < cap
    &&& info.tail == ring_slot(info.head as int, info.used as int, cap as int)
}

/// A ring (first in, first out) container kept in a byte region: the
/// metadata at the front, then `capacity` element slots.
pub struct FIFO<E: Packer> {
    pub info: FIFOInfo,
    pub capacity: u64,
    pub data: Vec<u8>,
    pub _e: PhantomData<E>,
}

/// What an accepted `push` of `e` does to a ring container: `e` joins the
/// back of the view, its encoding is written to the tail slot and every other
/// byte of the region is kept; the tail moves on one slot, head and tag stay.
pub open spec fn fifo_push_step<E: Packer>(pre: FIFO<E>, e: E, post: FIFO<E>) -> bool {
    &&& post.wf()
    &&& post.capacity == pre.capacity
    &&& post@ == pre@.push(e)
    &&& post.info.used == pre.info.used + 1
    &&& post.info.head == pre.info.head
    &&& post.info.tail == ring_slot(pre.info.tail as int, 1, pre.capacity as int)
    &&& post.info.tag == pre.info.tag
    &&& post.data@ == written(pre.data@, FIFO_INFO_LEN as int, E::spec_len() as int, pre.info.tail as int, e.spec_pack())
    &&& post.slot(pre.info.tail as int) == e.spec_pack()
}

/// What a successful `pop` returning `x` does to a ring container: `x` is
/// the front of the view and leaves it; the head moves on one slot, the
/// region's bytes, the tail and the tag stay.
pub open spec fn fifo_pop_step<E: Packer>(pre: FIFO<E>, x: E, post: FIFO<E>) -> bool {
    &&& post.wf()
    &&& pre@.len() > 0
    &&& x == pre@[0]
    &&& post.capacity == pre.capacity
    &&& post@ == pre@.drop_first()
    &&& post.info.used == pre.info.used - 1
    &&& post.info.head == ring_slot(pre.info.head as int, 1, pre.capacity as int)
    &&& post.info.tail == pre.info.tail
    &&& post.info.tag == pre.info.tag
    &&& post.data == pre.data
}

impl<E: Packer> View for FIFO<E> {
    type V = Seq<E>;

    /// The live elements, oldest first.
    open spec fn view(&self) -> Seq<E> {
        Seq::new(
            self.info.used as nat,
            |k: int| E::spec_unpack(self.slot(ring_slot(self.info.head as int, k, self.capacity as int))),
        )
    }
}

impl<E: Packer> FIFO<E> {
    /// The counters agree and the region holds the metadata and every slot.
    pub open spec fn wf(&self) -> bool {
        &&& 0 < self.capacity
        &&& self.capacity <= usize::MAX
        &&& fifo_counters_ok(self.info, self.capacity)
        &&& self.data@.len() >= FIFO_INFO_LEN + self.capacity * E::spec_len()
    }

    /// The bytes of slot `i`.
    pub open spec fn slot(&self, i: int) -> Seq<u8> {
        slot_bytes(self.data@, FIFO_INFO_LEN as int, E::spec_len() as int, i)
    }

    pub open spec fn spec_is_full(&self) -> bool {
        self.info.used >= self.capacity
    }

    fn is_empty(&self) -> (r: bool)
        ensures
            r == (self.info.used == 0),
    {
        self.info.used == 0
    }

    fn is_full(&self) -> (r: bool)
        ensures
            r == self.spec_is_full(),
    {
        self.info.used >= self.capacity
    }

    /// Reads the container held in `data`, which must carry the current
    /// version, be long enough for `capacity` slots and hold counters that agree.
    pub fn new(data: Vec<u8>, capacity: u64) -> (r: Result<FIFO<E>, SilError>)
        requires
            0 < capacity,
        ensures
            spec_unpack_account::<FIFOInfo>(data@) is Err ==> r == Err::<FIFO<E>, SilError>(
                spec_unpack_account::<FIFOInfo>(data@)->Err_0,
            ),
            spec_unpack_account::<FIFOInfo>(data@) is Ok ==> {
                let info = spec_unpack_account::<FIFOInfo>(data@)->Ok_0;
                &&& data@.len() < FIFO_INFO_LEN + capacity * E::spec_len() ==> r
                    == Err::<FIFO<E>, SilError>(SilError::AccountDataTooSmall)
                &&& data@.len() >= FIFO_INFO_LEN + capacity * E::spec_len() && !fifo_counters_ok(info, capacity)
                    ==> r == Err::<FIFO<E>, SilError>(SilError::InvalidQueueState)
                &&& data@.len() >= FIFO_INFO_LEN + capacity * E::spec_len() && fifo_counters_ok(info, capacity)
                    ==> r is Ok && r->Ok_0.info == info && r->Ok_0.capacity == capacity && r->Ok_0.data@ == data@
            },
            r is Ok ==> r->Ok_0.wf(),
    {
        let info = match unpack_account::<FIFOInfo>(data.as_slice()) {
            Ok(i) => i,
            Err(e) => return Err(e),
        };
        let elen = E::packed_len() as u64;
        let dlen = data.len();
        let slots = match capacity.checked_mul(elen) {
            Some(n) => n,
            None => {
                assert(dlen as int <= u64::MAX);
                return Err(SilError::AccountDataTooSmall);
            }
        };
        if (data.len() as u64) < slots || data.len() - (slots as usize) < FIFO_INFO_LEN {
            return Err(SilError::AccountDataTooSmall);
        }
        if !(info.used <= capacity && info.head < capacity) {
            return Err(SilError::InvalidQueueState);
        }
        let expect_tail = if info.used < capacity - info.head {
            info.head + info.used
        } else {
            info.used - (capacity - info.head)
        };
        if info.tail != expect_tail {
            return Err(SilError::InvalidQueueState);
        }
        proof {
            lemma_count_le_bytes(capacity as int, elen as int);
        }
        Ok(FIFO { info, capacity, data, _e: PhantomData })
    }

    /// Writes the metadata back to the front of the region; the slots, and so
    /// the elements, stay as they are.
    pub fn save(&mut self)
        requires
            old(self).wf(),
        ensures
            final(self).wf(),
            final(self).info == old(self).info,
            final(self).capacity == old(self).capacity,
            final(self).data@ == old(self).info.spec_pack() + old(self).data@.subrange(FIFO_INFO_LEN as int, old(self).data@.len() as int),
            final(self)@ == old(self)@,
            forall|i: int| 0 <= i < old(self).capacity ==> #[trigger] final(self).slot(i) == old(self).slot(i),
    {
        let bytes = self.info.pack();
        proof {
            FIFOInfo::lemma_pack_unpack(self.info);
        }
        let ghost pre = *self;
        write_bytes(&mut self.data, 0, &bytes);
        proof {
            assert(self.data@ =~= pre.info.spec_pack() + pre.data@.subrange(FIFO_INFO_LEN as int, pre.data@.len() as int));
            assert forall|i: int| 0 <= i < pre.capacity implies #[trigger] self.slot(i) == pre.slot(i) by {
                lemma_slot_order(i, pre.capacity as int, E::spec_len() as int);
                assert(self.slot(i) =~= pre.slot(i));
            }
            assert(self@ =~= pre@);
        }
    }

    /// Writes the metadata back and hands out the region's bytes.
    pub fn into_data(self) -> (r: Vec<u8>)
        requires
            self.wf(),
        ensures
            r@ == self.info.spec_pack() + self.data@.subrange(FIFO_INFO_LEN as int, self.data@.len() as int),
    {
        let mut q = self;
        q.save();
        q.data
    }

    /// Starts an empty container in a fresh region: the region must be long
    /// enough for `capacity` slots and carry no version yet. The metadata,
    /// stamped with the current version, is written to its front.
    pub fn create(data: Vec<u8>, capacity: u64) -> (r: Result<FIFO<E>, SilError>)
        requires
            0 < capacity,
        ensures
            data@.len() < FIFO_INFO_LEN + capacity * E::spec_len() ==> r == Err::<FIFO<E>, SilError>(
                SilError::AccountDataTooSmall,
            ),
            data@.len() >= FIFO_INFO_LEN + capacity * E::spec_len() && data@[0] != 0 ==> r == Err::<FIFO<E>, SilError>(
                SilError::AlreadyInitialized,
            ),
            data@.len() >= FIFO_INFO_LEN + capacity * E::spec_len() && data@[0] == 0 ==> {
                &&& r is Ok
                &&& r->Ok_0.wf()
                &&& r->Ok_0.capacity == capacity
                &&& r->Ok_0.info == FIFOInfo::default_spec()
                &&& r->Ok_0@.len() == 0
                &&& r->Ok_0.data@ == FIFOInfo::default_spec().spec_pack() + data@.subrange(FIFO_INFO_LEN as int, data@.len() as int)
            },
    {
        let elen = E::packed_len() as u64;
        let dlen = data.len();
        let slots = match capacity.checked_mul(elen) {
            Some(n) => n,
            None => {
                assert(dlen as int <= u64::MAX);
                return Err(SilError::AccountDataTooSmall);
            }
        };
        if (data.len() as u64) < slots || data.len() - (slots as usize) < FIFO_INFO_LEN {
            return Err(SilError::AccountDataTooSmall);
        }
        if data[0] != 0 {
            return Err(SilError::AlreadyInitialized);
        }
        proof {
            lemma_count_le_bytes(capacity as int, elen as int);
        }
        let mut q = FIFO { info: FIFOInfo::default(), capacity, data, _e: PhantomData };
        q.save();
        Ok(q)
    }

    /// Decodes the element in slot `index`.
    fn read_element(&self, index: usize) -> (r: E)
        requires
            self.wf(),
            index < self.capacity,
        ensures
            r == E::spec_unpack(self.slot(index as int)),
    {
        let elen = E::packed_len();
        let _ = self.data.len();
        proof {
            lemma_slot_order(index as int, self.capacity as int, elen as int);
        }
        let start = FIFO_INFO_LEN + index * elen;
        E::unpack(slice_subrange(self.data.as_slice(), start, start + elen))
    }

    /// Encodes `element` into slot `index`, leaving every other byte as it was.
    fn write_element(&mut self, index: usize, element: &E)
        requires
            old(self).wf(),
            index < old(self).capacity,
        ensures
            final(self).info == old(self).info,
            final(self).capacity == old(self).capacity,
            final(self).data@.len() == old(self).data@.len(),
            final(self).data@ == written(old(self).data@, FIFO_INFO_LEN as int, E::spec_len() as int, index as int, element.spec_pack()),
            final(self).slot(index as int) == element.spec_pack(),
            forall|i: int| 0 <= i < old(self).capacity && i != index ==> #[trigger] final(self).slot(i)
                == old(self).slot(i),
    {
        let elen = E::packed_len();
        let _ = self.data.len();
        proof {
            lemma_slot_order(index as int, self.capacity as int, elen as int);
            E::lemma_pack_unpack(*element);
        }
        let start = FIFO_INFO_LEN + index * elen;
        let bytes = element.pack();
        let ghost old_data = self.data@;
        write_bytes(&mut self.data, start, &bytes);
        proof {
            lemma_write_slot(
                old_data,
                self.data@,
                FIFO_INFO_LEN as int,
                elen as int,
                self.capacity as int,
                index as int,
                bytes@,
            );
        }
    }

    /// Number of bytes of the region: metadata and every slot.
    pub fn size(&self) -> (r: usize)
        requires
            self.wf(),
        ensures
            r == FIFO_INFO_LEN + self.capacity * E::spec_len(),
    {
        let elen = E::packed_len();
        let _ = self.data.len();
        proof {
            lemma_slot_order(0, self.capacity as int, elen as int);
        }
        FIFO_INFO_LEN + (self.capacity as usize) * elen
    }

    /// The oldest element, left in place.
    pub fn first(&self) -> (r: Result<E, SilError>)
        requires
            self.wf(),
        ensures
            self@.len() == 0 ==> r == Err::<E, SilError>(SilError::EmptyQueue),
            self@.len() > 0 ==> r == Ok::<E, SilError>(self@[0]),
    {
        if self.is_empty() {
            return Err(SilError::EmptyQueue);
        }
        Ok(self.read_element(self.info.head as usize))
    }

    /// Appends `element` at the tail and returns its slot, or returns `None`
    /// and changes nothing when the container is full.
    pub fn push(&mut self, element: E) -> (r: Result<Option<usize>, SilError>)
        requires
            old(self).wf(),
        ensures
            final(self).wf(),
            final(self).capacity == old(self).capacity,
            old(self).spec_is_full() ==> r == Ok::<Option<usize>, SilError>(None) && *final(self) == *old(self),
            !old(self).spec_is_full() ==> r == Ok::<Option<usize>, SilError>(Some(old(self).info.tail as usize))
                && fifo_push_step(*old(self), element, *final(self)),
    {
        if self.is_full() {
            return Ok(None);
        }
        let index = self.info.tail as usize;
        let ghost pre = *self;
        self.write_element(index, &element);
        let ghost mid = *self;
        proof {
            E::lemma_pack_unpack(element);
        }
        self.info.tail = if self.info.tail + 1 == self.capacity {
            0
        } else {
            self.info.tail + 1
        };
        self.info.used = self.info.used + 1;
        proof {
            let cap = self.capacity as int;
            let head = self.info.head as int;
            assert forall|k: int| 0 <= k < pre.info.used implies #[trigger] self@[k] == pre@[k] by {
                let t = ring_slot(head, k, cap);
                assert(t != index as int && 0 <= t < cap);
                assert(self.slot(t) == mid.slot(t));
                assert(mid.slot(t) == pre.slot(t));
            }
            assert(self.slot(index as int) == mid.slot(index as int));
            assert(self@ =~= pre@.push(element));
        }
        Ok(Some(index))
    }

    /// Removes and returns the oldest element.
    pub fn pop(&mut self) -> (r: Result<E, SilError>)
        requires
            old(self).wf(),
        ensures
            final(self).wf(),
            final(self).capacity == old(self).capacity,
            final(self).data == old(self).data,
            old(self)@.len() == 0 ==> r == Err::<E, SilError>(SilError::EmptyQueue) && *final(self) == *old(self),
            old(self)@.len() > 0 ==> r is Ok && fifo_pop_step(*old(self), r->Ok_0, *final(self)),
    {
        if self.is_empty() {
            return Err(SilError::EmptyQueue);
        }
        let element = self.read_element(self.info.head as usize);
        let ghost pre = *self;
        self.info.head = if self.info.head + 1 == self.capacity {
            0
        } else {
            self.info.head + 1
        };
        self.info.used = self.info.used - 1;
        assert(self@ =~= pre@.drop_first());
        Ok(element)
    }
}

/// Metadata of a stack container: header and its fill count.
#[derive(Debug, Clone, Copy, PartialEq, Eq, Structural)]
pub struct LIFOInfo {
    pub tag: Version,
    pub used: u64,
}

impl LIFOInfo {
    /// The metadata of an empty stack stamped with the current version.
    pub open spec fn default_spec() -> LIFOInfo {
        LIFOInfo { tag: Version(PROGRAM_VERSION), used: 0 }
    }
}

impl Default for LIFOInfo {
    fn default() -> (r: LIFOInfo)
        ensures
            r == (LIFOInfo { tag: Version(PROGRAM_VERSION), used: 0 }),
    {
        LIFOInfo { tag: Version(PROGRAM_VERSION), used: 0 }
    }
}

impl Packer for LIFOInfo {
    open spec fn spec_len() -> nat {
        LIFO_INFO_LEN as nat
    }

    open spec fn spec_pack(&self) -> Seq<u8> {
        self.tag.spec_pack() + spec_u64_to_le_bytes(self.used)
    }

    open spec fn spec_unpack(b: Seq<u8>) -> LIFOInfo {
        LIFOInfo {
            tag: Version::spec_unpack(b.subrange(0, 129)),
            used: spec_u64_from_le_bytes(b.subrange(129, 137)),
        }
    }

    fn packed_len() -> (r: usize) {
        LIFO_INFO_LEN
    }

    fn pack(&self) -> (r: Vec<u8>) {
        proof {
            lemma_auto_spec_u64_to_from_le_bytes();
        }
        let mut out = self.tag.pack();
        extend_bytes(&mut out, &u64_to_le_bytes(self.used));
        out
    }

    fn unpack(b: &[u8]) -> (r: LIFOInfo) {
        LIFOInfo {
            tag: Version::unpack(slice_subrange(b, 0, VERSION_LEN)),
            used: u64_from_le_bytes(slice_subrange(b, 129, 137)),
        }
    }

    proof fn lemma_pack_unpack(v: LIFOInfo) {
        lemma_auto_spec_u64_to_from_le_bytes();
        let b = v.spec_pack();
        assert(b.subrange(0, 129)[0] == v.tag.0);
        assert(b.subrange(129, 137) =~= spec_u64_to_le_bytes(v.used));
    }
}

impl IsVersionMatched for LIFOInfo {
    open spec fn spec_version(&self) -> u8 {
        self.tag.0
    }

    proof fn lemma_version_byte(bytes: Seq<u8>) {
        assert(bytes.subrange(0, 129)[0] == bytes[0]);
    }

    fn is_version_matched(&self) -> (r: bool) {
        self.tag.is_version_matched()
    }

    fn is_initialized(&self) -> (r: bool) {
        self.tag.is_initialized()
    }
}

/// A stack (last in, first out) container kept in a byte region: the
/// metadata at the front, then `capacity` element slots.
///
/// `pop` and `first` read the slot at index `used`, one past the most recently
/// pushed element, before the count goes down. When the stack is full that
/// slot lies past the container's slots: they still read it where the region
/// holds it, and fail with `AccountDataTooSmall` where the region ends first.
pub struct LIFO<E: Packer> {
    pub info: LIFOInfo,
    pub capacity: u64,
    pub data: Vec<u8>,
    pub _e: PhantomData<E>,
}

/// What an accepted `push` of `e` does to a stack container: `e` joins the
/// top of the view, its encoding is written to slot `used` and every other
/// byte of the region is kept; the count goes up by one, the tag stays.
pub open spec fn lifo_push_step<E: Packer>(pre: LIFO<E>, e: E, post: LIFO<E>) -> bool {
    &&& post.wf()
    &&& post.capacity == pre.capacity
    &&& post@ == pre@.push(e)
    &&& post.info.used == pre.info.used + 1
    &&& post.info.tag == pre.info.tag
    &&& post.data@ == written(pre.data@, LIFO_INFO_LEN as int, E::spec_len() as int, pre.info.used as int, e.spec_pack())
    &&& post.slot(pre.info.used as int) == e.spec_pack()
    &&& forall|i: int| 0 <= i < pre.capacity && i != pre.info.used ==> #[trigger] post.slot(i) == pre.slot(i)
}

/// What a successful `pop` returning `x` does to a stack container: the
/// region holds slot `used`, `x` is what that slot decodes to, the count goes down by one, the region's
/// bytes and the tag stay.
pub open spec fn lifo_pop_step<E: Packer>(pre: LIFO<E>, x: E, post: LIFO<E>) -> bool {
    &&& post.wf()
    &&& 0 < pre.info.used
    &&& pre.top_in_region()
    &&& x == pre.slot_value(pre.info.used as int)
    &&& post.capacity == pre.capacity
    &&& post@ == pre@.drop_last()
    &&& post.info.used == pre.info.used - 1
    &&& post.info.tag == pre.info.tag
    &&& post.data == pre.data
}

impl<E: Packer> View for LIFO<E> {
    type V = Seq<E>;

    /// The live elements, bottom first.
    open spec fn view(&self) -> Seq<E> {
        Seq::new(self.info.used as nat, |k: int| self.slot_value(k))
    }
}

impl<E: Packer> LIFO<E> {
    /// The count fits and the region holds the metadata and every slot.
    pub open spec fn wf(&self) -> bool {
        &&& 0 < self.capacity
        &&& self.capacity <= usize::MAX
        &&& self.info.used <= self.capacity
        &&& self.data@.len() >= LIFO_INFO_LEN + self.capacity * E::spec_len()
    }

    /// The bytes of slot `i`.
    pub open spec fn slot(&self, i: int) -> Seq<u8> {
        slot_bytes(self.data@, LIFO_INFO_LEN as int, E::spec_len() as int, i)
    }

    /// What slot `i` decodes to, whether or not it is live.
    pub open spec fn slot_value(&self, i: int) -> E {
        E::spec_unpack(self.slot(i))
    }

    pub open spec fn spec_is_full(&self) -> bool {
        self.info.used >= self.capacity
    }

    /// The region holds slot `used`, the slot that `pop` and `first` read.
    pub open spec fn top_in_region(&self) -> bool {
        slot_start(LIFO_INFO_LEN as int, E::spec_len() as int, self.info.used as int) + E::spec_len()
            <= self.data@.len()
    }

    fn is_empty(&self) -> (r: bool)
        ensures
            r == (self.info.used == 0),
    {
        self.info.used == 0
    }

    fn is_full(&self) -> (r: bool)
        ensures
            r == self.spec_is_full(),
    {
        self.info.used >= self.capacity
    }

    /// Reads the container held in `data`, which must carry the current
    /// version, be long enough for `capacity` slots and hold a count that fits.
    pub fn new(data: Vec<u8>, capacity: u64) -> (r: Result<LIFO<E>, SilError>)
        requires
            0 < capacity,
        ensures
            spec_unpack_account::<LIFOInfo>(data@) is Err ==> r == Err::<LIFO<E>, SilError>(
                spec_unpack_account::<LIFOInfo>(data@)->Err_0,
            ),
            spec_unpack_account::<LIFOInfo>(data@) is Ok ==> {
                let info = spec_unpack_account::<LIFOInfo>(data@)->Ok_0;
                &&& data@.len() < LIFO_INFO_LEN + capacity * E::spec_len() ==> r
                    == Err::<LIFO<E>, SilError>(SilError::AccountDataTooSmall)
                &&& data@.len() >= LIFO_INFO_LEN + capacity * E::spec_len() && info.used > capacity
                    ==> r == Err::<LIFO<E>, SilError>(SilError::InvalidQueueState)
                &&& data@.len() >= LIFO_INFO_LEN + capacity * E::spec_len() && info.used <= capacity
                    ==> r is Ok && r->Ok_0.info == info && r->Ok_0.capacity == capacity && r->Ok_0.data@ == data@
            },
            r is Ok ==> r->Ok_0.wf(),
    {
        let info = match unpack_account::<LIFOInfo>(data.as_slice()) {
            Ok(i) => i,
            Err(e) => return Err(e),
        };
        let elen = E::packed_len() as u64;
        let dlen = data.len();
        let slots = match capacity.checked_mul(elen) {
            Some(n) => n,
            None => {
                assert(dlen as int <= u64::MAX);
                return Err(SilError::AccountDataTooSmall);
            }
        };
        if (data.len() as u64) < slots || data.len() - (slots as usize) < LIFO_INFO_LEN {
            return Err(SilError::AccountDataTooSmall);
        }
        if info.used > capacity {
            return Err(SilError::InvalidQueueState);
        }
        proof {
            lemma_count_le_bytes(capacity as int, elen as int);
        }
        Ok(LIFO { info, capacity, data, _e: PhantomData })
    }

    /// Writes the metadata back to the front of the region; the slots, and so
    /// the elements, stay as they are.
    pub fn save(&mut self)
        requires
            old(self).wf(),
        ensures
            final(self).wf(),
            final(self).info == old(self).info,
            final(self).capacity == old(self).capacity,
            final(self).data@ == old(self).info.spec_pack() + old(self).data@.subrange(LIFO_INFO_LEN as int, old(self).data@.len() as int),
            final(self)@ == old(self)@,
            forall|i: int| 0 <= i < old(self).capacity ==> #[trigger] final(self).slot(i) == old(self).slot(i),
    {
        let bytes = self.info.pack();
        proof {
            LIFOInfo::lemma_pack_unpack(self.info);
        }
        let ghost pre = *self;
        write_bytes(&mut self.data, 0, &bytes);
        proof {
            assert(self.data@ =~= pre.info.spec_pack() + pre.data@.subrange(LIFO_INFO_LEN as int, pre.data@.len() as int));
            assert forall|i: int| 0 <= i < pre.capacity implies #[trigger] self.slot(i) == pre.slot(i) by {
                lemma_slot_order(i, pre.capacity as int, E::spec_len() as int);
                assert(self.slot(i) =~= pre.slot(i));
            }
            assert(self@ =~= pre@);
        }
    }

    /// Writes the metadata back and hands out the region's bytes.
    pub fn into_data(self) -> (r: Vec<u8>)
        requires
            self.wf(),
        ensures
            r@ == self.info.spec_pack() + self.data@.subrange(LIFO_INFO_LEN as int, self.data@.len() as int),
    {
        let mut q = self;
        q.save();
        q.data
    }

    /// Starts an empty container in a fresh region: the region must be long
    /// enough for `capacity` slots and carry no version yet. The metadata,
    /// stamped with the current version, is written to its front.
    pub fn create(data: Vec<u8>, capacity: u64) -> (r: Result<LIFO<E>, SilError>)
        requires
            0 < capacity,
        ensures
            data@.len() < LIFO_INFO_LEN + capacity * E::spec_len() ==> r == Err::<LIFO<E>, SilError>(
                SilError::AccountDataTooSmall,
            ),
            data@.len() >= LIFO_INFO_LEN + capacity * E::spec_len() && data@[0] != 0 ==> r == Err::<LIFO<E>, SilError>(
                SilError::AlreadyInitialized,
            ),
            data@.len() >= LIFO_INFO_LEN + capacity * E::spec_len() && data@[0] == 0 ==> {
                &&& r is Ok
                &&& r->Ok_0.wf()
                &&& r->Ok_0.capacity == capacity
                &&& r->Ok_0.info == LIFOInfo::default_spec()
                &&& r->Ok_0@.len() == 0
                &&& r->Ok_0.data@ == LIFOInfo::default_spec().spec_pack() + data@.subrange(LIFO_INFO_LEN as int, data@.len() as int)
            },
    {
        let elen = E::packed_len() as u64;
        let dlen = data.len();
        let slots = match capacity.checked_mul(elen) {
            Some(n) => n,
            None => {
                assert(dlen as int <= u64::MAX);
                return Err(SilError::AccountDataTooSmall);
            }
        };
        if (data.len() as u64) < slots || data.len() - (slots as usize) < LIFO_INFO_LEN {
            return Err(SilError::AccountDataTooSmall);
        }
        if data[0] != 0 {
            return Err(SilError::AlreadyInitialized);
        }
        proof {
            lemma_count_le_bytes(capacity as int, elen as int);
        }
        let mut q = LIFO { info: LIFOInfo::default(), capacity, data, _e: PhantomData };
        q.save();
        Ok(q)
    }

    /// Decodes the element in slot `index`.
    fn read_element(&self, index: usize) -> (r: E)
        requires
            self.wf(),
            slot_start(LIFO_INFO_LEN as int, E::spec_len() as int, index as int) + E::spec_len() <= self.data@.len(),
        ensures
            r == self.slot_value(index as int),
    {
        let elen = E::packed_len();
        let _ = self.data.len();
        proof {
            lemma_slot_order(0, index as int + 1, elen as int);
        }
        let start = LIFO_INFO_LEN + index * elen;
        E::unpack(slice_subrange(self.data.as_slice(), start, start + elen))
    }

    /// Encodes `element` into slot `index`, leaving every other byte as it was.
    fn write_element(&mut self, index: usize, element: &E)
        requires
            old(self).wf(),
            index < old(self).capacity,
        ensures
            final(self).info == old(self).info,
            final(self).capacity == old(self).capacity,
            final(self).data@.len() == old(self).data@.len(),
            final(self).data@ == written(old(self).data@, LIFO_INFO_LEN as int, E::spec_len() as int, index as int, element.spec_pack()),
            final(self).slot(index as int) == element.spec_pack(),
            forall|i: int| 0 <= i < old(self).capacity && i != index ==> #[trigger] final(self).slot(i)
                == old(self).slot(i),
    {
        let elen = E::packed_len();
        let _ = self.data.len();
        proof {
            lemma_slot_order(index as int, self.capacity as int, elen as int);
            E::lemma_pack_unpack(*element);
        }
        let start = LIFO_INFO_LEN + index * elen;
        let bytes = element.pack();
        let ghost old_data = self.data@;
        write_bytes(&mut self.data, start, &bytes);
        proof {
            lemma_write_slot(
                old_data,
                self.data@,
                LIFO_INFO_LEN as int,
                elen as int,
                self.capacity as int,
                index as int,
                bytes@,
            );
        }
    }

    /// Number of bytes of the region: metadata and every slot.
    pub fn size(&self) -> (r: usize)
        requires
            self.wf(),
        ensures
            r == LIFO_INFO_LEN + self.capacity * E::spec_len(),
    {
        let elen = E::packed_len();
        let _ = self.data.len();
        proof {
            lemma_slot_order(0, self.capacity as int, elen as int);
        }
        LIFO_INFO_LEN + (self.capacity as usize) * elen
    }

    /// The element in slot `used`, left in place.
    pub fn first(&self) -> (r: Result<E, SilError>)
        requires
            self.wf(),
        ensures
            self.info.used == 0 ==> r == Err::<E, SilError>(SilError::EmptyQueue),
            0 < self.info.used && !self.top_in_region() ==> r == Err::<E, SilError>(SilError::AccountDataTooSmall),
            0 < self.info.used && self.top_in_region() ==> r == Ok::<E, SilError>(
                self.slot_value(self.info.used as int),
            ),
    {
        if self.is_empty() {
            return Err(SilError::EmptyQueue);
        }
        if !self.has_top_slot() {
            return Err(SilError::AccountDataTooSmall);
        }
        Ok(self.read_element(self.info.used as usize))
    }

    /// Whether the region holds slot `used`.
    fn has_top_slot(&self) -> (r: bool)
        requires
            self.wf(),
        ensures
            r == self.top_in_region(),
    {
        let elen = E::packed_len();
        let used = self.info.used as usize;
        let dlen = self.data.len();
        proof {
            if used < self.capacity {
                lemma_slot_order(used as int, self.capacity as int, elen as int);
            }
            lemma_slot_order(0, used as int + 1, elen as int);
        }
        dlen - LIFO_INFO_LEN - used * elen >= elen
    }

    /// Writes `element` into slot `used` and returns that slot, or returns
    /// `None` and changes nothing when the container is full.
    pub fn push(&mut self, element: E) -> (r: Result<Option<usize>, SilError>)
        requires
            old(self).wf(),
        ensures
            final(self).wf(),
            final(self).capacity == old(self).capacity,
            old(self).spec_is_full() ==> r == Ok::<Option<usize>, SilError>(None) && *final(self) == *old(self),
            !old(self).spec_is_full() ==> r == Ok::<Option<usize>, SilError>(Some(old(self).info.used as usize))
                && lifo_push_step(*old(self), element, *final(self)),
    {
        if self.is_full() {
            return Ok(None);
        }
        let index = self.info.used as usize;
        let ghost pre = *self;
        self.write_element(index, &element);
        let ghost mid = *self;
        proof {
            E::lemma_pack_unpack(element);
        }
        self.info.used = self.info.used + 1;
        proof {
            assert forall|i: int| 0 <= i < pre.capacity && i != index implies
                #[trigger] self.slot(i) == pre.slot(i) by {
                assert(self.slot(i) == mid.slot(i));
            }
            assert(self.slot(index as int) == mid.slot(index as int));
            assert(self@ =~= pre@.push(element));
        }
        Ok(Some(index))
    }

    /// Returns the element in slot `used`, then lowers the count by one.
    pub fn pop(&mut self) -> (r: Result<E, SilError>)
        requires
            old(self).wf(),
        ensures
            final(self).wf(),
            final(self).capacity == old(self).capacity,
            final(self).data == old(self).data,
            old(self).info.used == 0 ==> r == Err::<E, SilError>(SilError::EmptyQueue) && *final(self) == *old(self),
            0 < old(self).info.used && !old(self).top_in_region() ==> r == Err::<E, SilError>(
                SilError::AccountDataTooSmall,
            ) && *final(self) == *old(self),
            0 < old(self).info.used && old(self).top_in_region() ==> r is Ok && lifo_pop_step(
                *old(self),
                r->Ok_0,
                *final(self),
            ),
    {
        if self.is_empty() {
            return Err(SilError::EmptyQueue);
        }
        if !self.has_top_slot() {
            return Err(SilError::AccountDataTooSmall);
        }
        let element = self.read_element(self.info.used as usize);
        let ghost pre = *self;
        self.info.used = self.info.used - 1;
        assert(self@ =~= pre@.drop_last());
        Ok(element)
    }
}

/// A stack that is not full always has slot `used` inside its region.
pub proof fn lemma_top_in_region<E: Packer>(s: LIFO<E>)
    requires
        s.wf(),
        !s.spec_is_full(),
    ensures
        s.top_in_region(),
{
    lemma_slot_order(s.info.used as int, s.capacity as int, E::spec_len() as int);
}

/// `j` is the first container of the group that is not full.
pub open spec fn first_open_fifo<E: Packer>(fs: Seq<FIFO<E>>, j: int) -> bool {
    &&& 0 <= j < fs.len()
    &&& !fs[j].spec_is_full()
    &&& forall|i: int| 0 <= i < j ==> #[trigger] fs[i].spec_is_full()
}

/// `j` is the first container of the group that is not full.
pub open spec fn first_open_lifo<E: Packer>(ls: Seq<LIFO<E>>, j: int) -> bool {
    &&& 0 <= j < ls.len()
    &&& !ls[j].spec_is_full()
    &&& forall|i: int| 0 <= i < j ==> #[trigger] ls[i].spec_is_full()
}

/// Pushes into the first ring container of the group that has room and
/// returns the slot it took there; fails when every container is full.
pub fn fifo_push<E: Packer>(fifos: &mut Vec<FIFO<E>>, element: E) -> (r: Result<usize, SilError>)
    requires
        forall|i: int| 0 <= i < old(fifos)@.len() ==> (#[trigger] old(fifos)@[i]).wf(),
    ensures
        final(fifos)@.len() == old(fifos)@.len(),
        forall|i: int| 0 <= i < final(fifos)@.len() ==> (#[trigger] final(fifos)@[i]).wf(),
        r is Err ==> {
            &&& r == Err::<usize, SilError>(SilError::ErrorPushInFIFOGroup)
            &&& final(fifos)@ == old(fifos)@
            &&& forall|i: int| 0 <= i < old(fifos)@.len() ==> (#[trigger] old(fifos)@[i]).spec_is_full()
        },
        r is Ok ==> exists|j: int| {
            &&& first_open_fifo(old(fifos)@, j)
            &&& r->Ok_0 == old(fifos)@[j].info.tail
            &&& fifo_push_step(old(fifos)@[j], element, final(fifos)@[j])
            &&& forall|i: int| 0 <= i < old(fifos)@.len() && i != j ==> #[trigger] final(fifos)@[i] == old(fifos)@[i]
        },
{
    let mut i: usize = 0;
    while i < fifos.len()
        invariant
            fifos@ == old(fifos)@,
            0 <= i <= fifos@.len(),
            forall|k: int| 0 <= k < fifos@.len() ==> (#[trigger] fifos@[k]).wf(),
            forall|k: int| 0 <= k < i ==> (#[trigger] fifos@[k]).spec_is_full(),
        decreases fifos@.len() - i,
    {
        let pushed = fifos[i].push(element);
        match pushed {
            Ok(Some(index)) => {
                assert(first_open_fifo(old(fifos)@, i as int));
                return Ok(index);
            }
            _ => {}
        }
        assert(fifos@ =~= old(fifos)@);
        i = i + 1;
    }
    Err(SilError::ErrorPushInFIFOGroup)
}

/// Pops the oldest element of one ring container.
pub fn fifo_pop<E: Packer>(fifo: &mut FIFO<E>) -> (r: Result<E, SilError>)
    requires
        old(fifo).wf(),
    ensures
        final(fifo).wf(),
        final(fifo).capacity == old(fifo).capacity,
        old(fifo)@.len() == 0 ==> r == Err::<E, SilError>(SilError::EmptyQueue) && *final(fifo) == *old(fifo),
        old(fifo)@.len() > 0 ==> r == Ok::<E, SilError>(old(fifo)@[0]) && fifo_pop_step(
            *old(fifo),
            r->Ok_0,
            *final(fifo),
        ),
{
    fifo.pop()
}

/// Pushes into the first stack container of the group that has room and
/// returns the slot it took there; fails when every container is full.
pub fn lifo_push<E: Packer>(lifos: &mut Vec<LIFO<E>>, element: E) -> (r: Result<usize, SilError>)
    requires
        forall|i: int| 0 <= i < old(lifos)@.len() ==> (#[trigger] old(lifos)@[i]).wf(),
    ensures
        final(lifos)@.len() == old(lifos)@.len(),
        forall|i: int| 0 <= i < final(lifos)@.len() ==> (#[trigger] final(lifos)@[i]).wf(),
        r is Err ==> {
            &&& r == Err::<usize, SilError>(SilError::ErrorPushInLIFOGroup)
            &&& final(lifos)@ == old(lifos)@
            &&& forall|i: int| 0 <= i < old(lifos)@.len() ==> (#[trigger] old(lifos)@[i]).spec_is_full()
        },
        r is Ok ==> exists|j: int| {
            &&& first_open_lifo(old(lifos)@, j)
            &&& r->Ok_0 == old(lifos)@[j].info.used
            &&& lifo_push_step(old(lifos)@[j], element, final(lifos)@[j])
            &&& forall|i: int| 0 <= i < old(lifos)@.len() && i != j ==> #[trigger] final(lifos)@[i] == old(lifos)@[i]
        },
{
    let mut i: usize = 0;
    while i < lifos.len()
        invariant
            lifos@ == old(lifos)@,
            0 <= i <= lifos@.len(),
            forall|k: int| 0 <= k < lifos@.len() ==> (#[trigger] lifos@[k]).wf(),
            forall|k: int| 0 <= k < i ==> (#[trigger] lifos@[k]).spec_is_full(),
        decreases lifos@.len() - i,
    {
        let pushed = lifos[i].push(element);
        match pushed {
            Ok(Some(index)) => {
                assert(first_open_lifo(old(lifos)@, i as int));
                return Ok(index);
            }
            _ => {}
        }
        assert(lifos@ =~= old(lifos)@);
        i = i + 1;
    }
    Err(SilError::ErrorPushInLIFOGroup)
}

/// Pops from the first stack container of the group that is not full (not
/// the first that is non-empty); fails when every container is full.
pub fn lifo_pop<E: Packer>(lifos: &mut Vec<LIFO<E>>) -> (r: Result<E, SilError>)
    requires
        forall|i: int| 0 <= i < old(lifos)@.len() ==> (#[trigger] old(lifos)@[i]).wf(),
    ensures
        final(lifos)@.len() == old(lifos)@.len(),
        forall|i: int| 0 <= i < final(lifos)@.len() ==> (#[trigger] final(lifos)@[i]).wf(),
        (forall|i: int| 0 <= i < old(lifos)@.len() ==> (#[trigger] old(lifos)@[i]).spec_is_full()) ==> {
            &&& r == Err::<E, SilError>(SilError::ErrorPopFromFIFOGroup)
            &&& final(lifos)@ == old(lifos)@
        },
        forall|j: int| first_open_lifo(old(lifos)@, j) ==> {
            &&& forall|i: int| 0 <= i < old(lifos)@.len() && i != j ==> #[trigger] final(lifos)@[i] == old(lifos)@[i]
            &&& old(lifos)@[j].info.used == 0 ==> r == Err::<E, SilError>(SilError::EmptyQueue)
                && final(lifos)@[j] == old(lifos)@[j]
            &&& old(lifos)@[j].info.used > 0 ==> {
                &&& r == Ok::<E, SilError>(old(lifos)@[j].slot_value(old(lifos)@[j].info.used as int))
                &&& lifo_pop_step(old(lifos)@[j], r->Ok_0, final(lifos)@[j])
            }
        },
{
    let mut i: usize = 0;
    while i < lifos.len()
        invariant
            lifos@ == old(lifos)@,
            0 <= i <= lifos@.len(),
            forall|k: int| 0 <= k < lifos@.len() ==> (#[trigger] lifos@[k]).wf(),
            forall|k: int| 0 <= k < i ==> (#[trigger] lifos@[k]).spec_is_full(),
        decreases lifos@.len() - i,
    {
        if lifos[i].is_full() {
            i = i + 1;
        } else {
            proof {
                lemma_top_in_region(lifos@[i as int]);
            }
            let r = lifos[i].pop();
            proof {
                assert forall|j: int| first_open_lifo(old(lifos)@, j) implies j == i by {
                    if j < i {
                        assert(old(lifos)@[j].spec_is_full());
                    }
                    if j > i {
                        assert(old(lifos)@[i as int].spec_is_full());
                    }
                }
            }
            return r;
        }
    }
    Err(SilError::ErrorPopFromFIFOGroup)
}

proof fn lemma_pushes_fill<E: Packer>(es: Seq<E>, ps: Seq<FIFO<E>>, i: int)
    requires
        ps.len() == es.len() + 1,
        ps[0]@.len() == 0,
        forall|j: int| 0 <= j < es.len() ==> #[trigger] fifo_push_step(ps[j], es[j], ps[j + 1]),
        0 <= i <= es.len(),
    ensures
        ps[i]@ == es.take(i),
    decreases i,
{
    if i == 0 {
        assert(ps[0]@ =~= es.take(0));
    } else {
        lemma_pushes_fill(es, ps, i - 1);
        let j = i - 1;
        assert(fifo_push_step(ps[j], es[j], ps[j + 1]));
        assert(es.take(i - 1).push(es[i - 1]) =~= es.take(i));
    }
}

proof fn lemma_pops_drain<E: Packer>(es: Seq<E>, qs: Seq<FIFO<E>>, outs: Seq<E>, i: int)
    requires
        qs.len() == es.len() + 1,
        outs.len() == es.len(),
        qs[0]@ == es,
        forall|j: int| 0 <= j < es.len() ==> #[trigger] fifo_pop_step(qs[j], outs[j], qs[j + 1]),
        0 <= i <= es.len(),
    ensures
        qs[i]@ == es.subrange(i, es.len() as int),
        forall|j: int| 0 <= j < i ==> outs[j] == es[j],
    decreases i,
{
    if i == 0 {
        assert(qs[0]@ =~= es.subrange(0, es.len() as int));
    } else {
        lemma_pops_drain(es, qs, outs, i - 1);
        let j = i - 1;
        assert(fifo_pop_step(qs[j], outs[j], qs[j + 1]));
        assert(es.subrange(i - 1, es.len() as int).drop_first() =~= es.subrange(i, es.len() as int));
    }
}

/// First in, first out: if `ps` are the states of a ring container that starts
/// empty and takes pushes of `es` in turn, each accepted, and `qs` are its
/// states over as many successful pops from there, then the pops return `es`
/// in the order it was pushed, and the container ends empty with its head
/// back on its tail.
pub proof fn lemma_fifo_order<E: Packer>(es: Seq<E>, ps: Seq<FIFO<E>>, qs: Seq<FIFO<E>>, outs: Seq<E>)
    requires
        ps.len() == es.len() + 1,
        ps[0].wf(),
        ps[0]@.len() == 0,
        forall|j: int| 0 <= j < es.len() ==> #[trigger] fifo_push_step(ps[j], es[j], ps[j + 1]),
        qs.len() == es.len() + 1,
        qs[0] == ps[es.len() as int],
        outs.len() == es.len(),
        forall|j: int| 0 <= j < es.len() ==> #[trigger] fifo_pop_step(qs[j], outs[j], qs[j + 1]),
    ensures
        outs == es,
        qs[es.len() as int]@.len() == 0,
        qs[es.len() as int].info.head == qs[es.len() as int].info.tail,
{
    let n = es.len() as int;
    lemma_pushes_fill(es, ps, n);
    assert(es.take(n) =~= es);
    lemma_pops_drain(es, qs, outs, n);
    assert(outs =~= es);
    if n > 0 {
        let j = n - 1;
        assert(fifo_pop_step(qs[j], outs[j], qs[j + 1]));
        assert(j + 1 == n);
    }
    let last = qs[n];
    assert(last.wf());
    assert(last@.len() == last.info.used);
}

/// Stack reads are self-consistent across a push and two pops. Take a stack
/// holding at least one element. After `push(e)`, a successful first `pop`
/// (the region holds the slot above `e`, even when the push filled the stack)
/// returns what that slot decodes to. It leaves the count where it was before
/// the push and `e`'s bytes in place, so a second `pop` reads the slot that
/// `push` wrote and returns `e`.
pub proof fn lemma_lifo_push_pop_pop<E: Packer>(s0: LIFO<E>, s1: LIFO<E>, s2: LIFO<E>, e: E, x: E)
    requires
        s0.wf(),
        0 < s0.info.used,
        lifo_push_step(s0, e, s1),
        lifo_pop_step(s1, x, s2),
    ensures
        x == s0.slot_value(s0.info.used + 1),
        s2.info.used == s0.info.used,
        s2.slot(s2.info.used as int) == e.spec_pack(),
        0 < s2.info.used && s2.top_in_region(),
        s2.slot_value(s2.info.used as int) == e,
{
    E::lemma_pack_unpack(e);
    lemma_top_in_region(s2);
    let u = s0.info.used as int;
    let elen = E::spec_len() as int;
    lemma_slot_order(u, s0.capacity as int, elen);
    lemma_slot_order(u, u + 1, elen);
    assert(s1.slot(u + 1) =~= s0.slot(u + 1));
}

/// The version gate on a ring container's region: its first byte is the
/// version tag, a zero tag reads as never initialized and any other tag but
/// the current one as a mismatch.
pub proof fn lemma_fifo_version_gate(data: Seq<u8>)
    requires
        data.len() >= FIFO_INFO_LEN,
    ensures
        data[0] == 0 ==> spec_unpack_account::<FIFOInfo>(data) == Err::<FIFOInfo, SilError>(SilError::Uninitialized),
        data[0] != 0 && data[0] != PROGRAM_VERSION ==> spec_unpack_account::<FIFOInfo>(data)
            == Err::<FIFOInfo, SilError>(SilError::VersionIsNotMatched),
        data[0] == PROGRAM_VERSION ==> spec_unpack_account::<FIFOInfo>(data) is Ok,
{
}

/// The version gate on a stack container's region, as for a ring container.
pub proof fn lemma_lifo_version_gate(data: Seq<u8>)
    requires
        data.len() >= LIFO_INFO_LEN,
    ensures
        data[0] == 0 ==> spec_unpack_account::<LIFOInfo>(data) == Err::<LIFOInfo, SilError>(SilError::Uninitialized),
        data[0] != 0 && data[0] != PROGRAM_VERSION ==> spec_unpack_account::<LIFOInfo>(data)
            == Err::<LIFOInfo, SilError>(SilError::VersionIsNotMatched),
        data[0] == PROGRAM_VERSION ==> spec_unpack_account::<LIFOInfo>(data) is Ok,
{
}

} // verus!
