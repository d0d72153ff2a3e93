use vstd::prelude::*;
use crate::error::SilError;
use crate::instruction::QueueType;
use vstd::bytes::*;
use vstd::slice::slice_subrange;
use crate::pubkey::{Pubkey, pubkey_of, lemma_pubkey_of, PUBKEY_LEN};
use crate::region::extend_bytes;
use crate::version::{Version, Packer, PROGRAM_VERSION, IsVersionMatched, VERSION_LEN};

verus! {

/// Largest number of back-references of one kind that a user index holds.
pub const USER_INDEX_CAPACITY: usize = 30;

/// A back-reference into a container: the container's number and a slot in it.
pub type Index = (u8, u16);

/// Encoded length of one list of back-references: three bytes per entry.
pub const INDEX_ARRAY_LEN: usize = 90;

/// Encoded length of a [`UserIndex`].
pub const USER_INDEX_LEN: usize = 444;

/// Byte `j` (0, 1 or 2) of an entry: the container number, then the slot little-endian.
pub open spec fn index_byte(e: Index, j: int) -> u8 {
    if j == 0 {
        e.0
    } else if j == 1 {
        (e.1 % 256) as u8
    } else {
        (e.1 / 256) as u8
    }
}

/// The entry that three bytes from `at` on hold.
pub open spec fn index_at(b: Seq<u8>, at: int) -> Index {
    (b[at], (b[at + 1] + 256 * b[at + 2]) as u16)
}

/// The bytes of a full list of entries.
pub open spec fn spec_pack_index_array(a: [Index; 30]) -> Seq<u8> {
    Seq::new(90, |i: int| index_byte(a[i / 3], i % 3))
}

/// The list of entries that 90 bytes hold.
pub open spec fn spec_unpack_index_array(b: Seq<u8>) -> [Index; 30] {
    choose|a: [Index; 30]| #[trigger] a@ == Seq::new(30, |k: int| index_at(b, 3 * k))
}

proof fn lemma_index_array_round_trip(a: [Index; 30])
    ensures
        spec_pack_index_array(a).len() == INDEX_ARRAY_LEN,
        spec_unpack_index_array(spec_pack_index_array(a)) == a,
{
    let b = spec_pack_index_array(a);
    let target = Seq::new(30, |k: int| index_at(b, 3 * k));
    assert forall|k: int| 0 <= k < 30 implies #[trigger] target[k] == a@[k] by {
        assert((3 * k) / 3 == k && (3 * k) % 3 == 0);
        assert((3 * k + 1) / 3 == k && (3 * k + 1) % 3 == 1);
        assert((3 * k + 2) / 3 == k && (3 * k + 2) % 3 == 2);
    }
    assert(a@ =~= target);
    let c = spec_unpack_index_array(b);
    assert(c@ =~= a@);
    assert(c =~= a);
}

fn pack_index_array(out: &mut Vec<u8>, a: &[Index; 30])
    ensures
        final(out)@ == old(out)@ + spec_pack_index_array(*a),
{
    let mut k: usize = 0;
    while k < 30
        invariant
            0 <= k <= 30,
            out@ == old(out)@ + spec_pack_index_array(*a).take(3 * k as int),
        decreases 30 - k,
    {
        let e = a[k];
        out.push(e.0);
        out.push((e.1 % 256) as u8);
        out.push((e.1 / 256) as u8);
        proof {
            assert((3 * k) / 3 == k && (3 * k) % 3 == 0);
            assert((3 * k + 1) / 3 == k && (3 * k + 1) % 3 == 1);
            assert((3 * k + 2) / 3 == k && (3 * k + 2) % 3 == 2);
        }
        k = k + 1;
        assert(out@ =~= old(out)@ + spec_pack_index_array(*a).take(3 * k as int));
    }
    assert(spec_pack_index_array(*a).take(90) =~= spec_pack_index_array(*a));
}

fn unpack_index_array(b: &[u8]) -> (r: [Index; 30])
    requires
        b@.len() == INDEX_ARRAY_LEN,
    ensures
        r == spec_unpack_index_array(b@),
{
    let mut a: [Index; 30] = [(0u8, 0u16); 30];
    let mut k: usize = 0;
    while k < 30
        invariant
            0 <= k <= 30,
            b@.len() == 90,
            forall|j: int| 0 <= j < k ==> #[trigger] a@[j] == index_at(b@, 3 * j),
        decreases 30 - k,
    {
        a[k] = (b[3 * k], (b[3 * k + 1] as u16) + 256 * (b[3 * k + 2] as u16));
        k = k + 1;
    }
    proof {
        let target = Seq::new(30, |j: int| index_at(b@, 3 * j));
        assert(a@ =~= target);
        let c = spec_unpack_index_array(b@);
        assert(c@ =~= a@);
        assert(c =~= a);
    }
    a
}

/// Per-user back-references into the containers of a pair, one bounded
/// list per kind, mirroring the user's pushes and pops on the containers.
///
/// Each kind appends at its own count.
#[derive(Debug, Clone, Copy, PartialEq, Eq)]
pub struct UserIndex {
    pub version: Version,
    pub match_pair: Pubkey,
    pub is_first: bool,
    pub lp_num: u32,
    pub lp_index: [Index; 30],
    pub priority_num: u32,
    pub priority_index: [Index; 30],
    pub pending_num: u32,
    pub pending_index: [Index; 30],
}

/// `post` is `pre` with `entry` written at index `num` of the list of `kind`
/// and that count raised by one; every other field and entry is kept.
pub open spec fn index_appended(pre: UserIndex, kind: QueueType, entry: Index, post: UserIndex) -> bool {
    &&& post.spec_entries(kind) == pre.spec_entries(kind).push(entry)
    &&& match kind {
        QueueType::LP => post == (UserIndex { lp_num: (pre.lp_num + 1) as u32, lp_index: post.lp_index, ..pre })
            && post.lp_index@ == pre.lp_index@.update(pre.lp_num as int, entry),
        QueueType::Priority => post == (UserIndex {
            priority_num: (pre.priority_num + 1) as u32,
            priority_index: post.priority_index,
            ..pre
        }) && post.priority_index@ == pre.priority_index@.update(pre.priority_num as int, entry),
        QueueType::Pending => post == (UserIndex {
            pending_num: (pre.pending_num + 1) as u32,
            pending_index: post.pending_index,
            ..pre
        }) && post.pending_index@ == pre.pending_index@.update(pre.pending_num as int, entry),
    }
}

/// `post` is `pre` with the count of `kind` lowered by one; the entries
/// themselves, and every other field, are kept.
pub open spec fn index_dropped(pre: UserIndex, kind: QueueType, post: UserIndex) -> bool {
    &&& post.spec_entries(kind) == pre.spec_entries(kind).drop_last()
    &&& match kind {
        QueueType::LP => post == (UserIndex { lp_num: (pre.lp_num - 1) as u32, ..pre }),
        QueueType::Priority => post == (UserIndex { priority_num: (pre.priority_num - 1) as u32, ..pre }),
        QueueType::Pending => post == (UserIndex { pending_num: (pre.pending_num - 1) as u32, ..pre }),
    }
}

impl UserIndex {
    /// Whether each count fits its array, as a record read from a region
    /// must be checked before it is changed.
    pub fn is_wf(&self) -> (r: bool)
        ensures
            r == self.wf(),
    {
        (self.lp_num as usize) <= USER_INDEX_CAPACITY && (self.priority_num as usize) <= USER_INDEX_CAPACITY
            && (self.pending_num as usize) <= USER_INDEX_CAPACITY
    }

    /// Each count fits its array.
    pub open spec fn wf(&self) -> bool {
        &&& self.lp_num <= USER_INDEX_CAPACITY
        &&& self.priority_num <= USER_INDEX_CAPACITY
        &&& self.pending_num <= USER_INDEX_CAPACITY
    }

    /// How many back-references of `kind` are live.
    pub open spec fn spec_num(&self, kind: QueueType) -> nat {
        match kind {
            QueueType::LP => self.lp_num as nat,
            QueueType::Priority => self.priority_num as nat,
            QueueType::Pending => self.pending_num as nat,
        }
    }

    /// The live back-references of `kind`, oldest first.
    pub open spec fn spec_entries(&self, kind: QueueType) -> Seq<Index> {
        match kind {
            QueueType::LP => self.lp_index@.take(self.lp_num as int),
            QueueType::Priority => self.priority_index@.take(self.priority_num as int),
            QueueType::Pending => self.pending_index@.take(self.pending_num as int),
        }
    }

    /// An empty index for one user of `match_pair`, on the side `is_first` names.
    pub fn new(match_pair: Pubkey, is_first: bool) -> (r: UserIndex)
        ensures
            r.wf(),
            r.version == Version(PROGRAM_VERSION),
            r.match_pair == match_pair,
            r.is_first == is_first,
            r.spec_entries(QueueType::LP).len() == 0,
            r.spec_entries(QueueType::Priority).len() == 0,
            r.spec_entries(QueueType::Pending).len() == 0,
    {
        UserIndex {
            version: Version(PROGRAM_VERSION),
            match_pair,
            is_first,
            lp_num: 0,
            lp_index: [(0u8, 0u16); 30],
            priority_num: 0,
            priority_index: [(0u8, 0u16); 30],
            pending_num: 0,
            pending_index: [(0u8, 0u16); 30],
        }
    }

    /// Appends `entry` to the list of `kind`; fails, changing nothing, when it is full.
    pub fn push(&mut self, kind: QueueType, entry: Index) -> (r: Result<(), SilError>)
        requires
            old(self).wf(),
        ensures
            final(self).wf(),
            old(self).spec_num(kind) >= USER_INDEX_CAPACITY ==> r == Err::<(), SilError>(
                SilError::ErrorPushInUserIndex,
            ) && *final(self) == *old(self),
            old(self).spec_num(kind) < USER_INDEX_CAPACITY ==> r == Ok::<(), SilError>(()) && index_appended(
                *old(self),
                kind,
                entry,
                *final(self),
            ),
    {
        match kind {
            QueueType::LP => {
                if self.lp_num as usize >= USER_INDEX_CAPACITY {
                    return Err(SilError::ErrorPushInUserIndex);
                }
                self.lp_index[self.lp_num as usize] = entry;
                self.lp_num = self.lp_num + 1;
            },
            QueueType::Priority => {
                if self.priority_num as usize >= USER_INDEX_CAPACITY {
                    return Err(SilError::ErrorPushInUserIndex);
                }
                self.priority_index[self.priority_num as usize] = entry;
                self.priority_num = self.priority_num + 1;
            },
            QueueType::Pending => {
                if self.pending_num as usize >= USER_INDEX_CAPACITY {
                    return Err(SilError::ErrorPushInUserIndex);
                }
                self.pending_index[self.pending_num as usize] = entry;
                self.pending_num = self.pending_num + 1;
            },
        }
        assert(self.spec_entries(kind) =~= old(self).spec_entries(kind).push(entry));
        Ok(())
    }

    /// Drops the most recently appended entry of `kind`; fails, changing
    /// nothing, when the list is empty.
    pub fn pop(&mut self, kind: QueueType) -> (r: Result<(), SilError>)
        requires
            old(self).wf(),
        ensures
            final(self).wf(),
            old(self).spec_num(kind) == 0 ==> r == Err::<(), SilError>(SilError::ErrorPopFromUserIndex)
                && *final(self) == *old(self),
            old(self).spec_num(kind) > 0 ==> r == Ok::<(), SilError>(()) && index_dropped(
                *old(self),
                kind,
                *final(self),
            ),
    {
        match kind {
            QueueType::LP => {
                if self.lp_num == 0 {
                    return Err(SilError::ErrorPopFromUserIndex);
                }
                self.lp_num = self.lp_num - 1;
            },
            QueueType::Priority => {
                if self.priority_num == 0 {
                    return Err(SilError::ErrorPopFromUserIndex);
                }
                self.priority_num = self.priority_num - 1;
            },
            QueueType::Pending => {
                if self.pending_num == 0 {
                    return Err(SilError::ErrorPopFromUserIndex);
                }
                self.pending_num = self.pending_num - 1;
            },
        }
        assert(self.spec_entries(kind) =~= old(self).spec_entries(kind).drop_last());
        Ok(())
    }

    /// Appends a back-reference of kind `LP`.
    pub fn push_lp(&mut self, lp_index: Index) -> (r: Result<(), SilError>)
        requires
            old(self).wf(),
        ensures
            final(self).wf(),
            old(self).spec_num(QueueType::LP) >= USER_INDEX_CAPACITY ==> r == Err::<(), SilError>(
                SilError::ErrorPushInUserIndex,
            ) && *final(self) == *old(self),
            old(self).spec_num(QueueType::LP) < USER_INDEX_CAPACITY ==> r == Ok::<(), SilError>(())
                && index_appended(*old(self), QueueType::LP, lp_index, *final(self)),
    {
        self.push(QueueType::LP, lp_index)
    }

    /// Drops the most recent back-reference of kind `LP`.
    pub fn pop_lp(&mut self) -> (r: Result<(), SilError>)
        requires
            old(self).wf(),
        ensures
            final(self).wf(),
            old(self).spec_num(QueueType::LP) == 0 ==> r == Err::<(), SilError>(SilError::ErrorPopFromUserIndex)
                && *final(self) == *old(self),
            old(self).spec_num(QueueType::LP) > 0 ==> r == Ok::<(), SilError>(())
                && index_dropped(*old(self), QueueType::LP, *final(self)),
    {
        self.pop(QueueType::LP)
    }

    /// Appends a back-reference of kind `Priority`.
    pub fn push_priority(&mut self, priority_index: Index) -> (r: Result<(), SilError>)
        requires
            old(self).wf(),
        ensures
            final(self).wf(),
            old(self).spec_num(QueueType::Priority) >= USER_INDEX_CAPACITY ==> r == Err::<(), SilError>(
                SilError::ErrorPushInUserIndex,
            ) && *final(self) == *old(self),
            old(self).spec_num(QueueType::Priority) < USER_INDEX_CAPACITY ==> r == Ok::<(), SilError>(())
                && index_appended(*old(self), QueueType::Priority, priority_index, *final(self)),
    {
        self.push(QueueType::Priority, priority_index)
    }

    /// Drops the most recent back-reference of kind `Priority`.
    pub fn pop_priority(&mut self) -> (r: Result<(), SilError>)
        requires
            old(self).wf(),
        ensures
            final(self).wf(),
            old(self).spec_num(QueueType::Priority) == 0 ==> r == Err::<(), SilError>(SilError::ErrorPopFromUserIndex)
                && *final(self) == *old(self),
            old(self).spec_num(QueueType::Priority) > 0 ==> r == Ok::<(), SilError>(())
                && index_dropped(*old(self), QueueType::Priority, *final(self)),
    {
        self.pop(QueueType::Priority)
    }

    /// Appends a back-reference of kind `Pending`.
    pub fn push_pending(&mut self, pending_index: Index) -> (r: Result<(), SilError>)
        requires
            old(self).wf(),
        ensures
            final(self).wf(),
            old(self).spec_num(QueueType::Pending) >= USER_INDEX_CAPACITY ==> r == Err::<(), SilError>(
                SilError::ErrorPushInUserIndex,
            ) && *final(self) == *old(self),
            old(self).spec_num(QueueType::Pending) < USER_INDEX_CAPACITY ==> r == Ok::<(), SilError>(())
                && index_appended(*old(self), QueueType::Pending, pending_index, *final(self)),
    {
        self.push(QueueType::Pending, pending_index)
    }

    /// Drops the most recent back-reference of kind `Pending`.
    pub fn pop_pending(&mut self) -> (r: Result<(), SilError>)
        requires
            old(self).wf(),
        ensures
            final(self).wf(),
            old(self).spec_num(QueueType::Pending) == 0 ==> r == Err::<(), SilError>(SilError::ErrorPopFromUserIndex)
                && *final(self) == *old(self),
            old(self).spec_num(QueueType::Pending) > 0 ==> r == Ok::<(), SilError>(())
                && index_dropped(*old(self), QueueType::Pending, *final(self)),
    {
        self.pop(QueueType::Pending)
    }
}

impl Packer for UserIndex {
    open spec fn spec_len() -> nat {
        USER_INDEX_LEN as nat
    }

    open spec fn spec_pack(&self) -> Seq<u8> {
        self.version.spec_pack() + self.match_pair@ + seq![if self.is_first { 1u8 } else { 0u8 }]
            + spec_u32_to_le_bytes(self.lp_num) + spec_pack_index_array(self.lp_index) + spec_u32_to_le_bytes(
            self.priority_num,
        ) + spec_pack_index_array(self.priority_index) + spec_u32_to_le_bytes(self.pending_num)
            + spec_pack_index_array(self.pending_index)
    }

    /// A flag byte other than zero reads as `true`.
    open spec fn spec_unpack(b: Seq<u8>) -> UserIndex {
        UserIndex {
            version: Version::spec_unpack(b.subrange(0, 129)),
            match_pair: pubkey_of(b.subrange(129, 161)),
            is_first: b[161] != 0,
            lp_num: spec_u32_from_le_bytes(b.subrange(162, 166)),
            lp_index: spec_unpack_index_array(b.subrange(166, 256)),
            priority_num: spec_u32_from_le_bytes(b.subrange(256, 260)),
            priority_index: spec_unpack_index_array(b.subrange(260, 350)),
            pending_num: spec_u32_from_le_bytes(b.subrange(350, 354)),
            pending_index: spec_unpack_index_array(b.subrange(354, 444)),
        }
    }

    fn packed_len() -> (r: usize) {
        USER_INDEX_LEN
    }

    fn pack(&self) -> (r: Vec<u8>) {
        proof {
            lemma_auto_spec_u32_to_from_le_bytes();
            lemma_index_array_round_trip(self.lp_index);
            lemma_index_array_round_trip(self.priority_index);
            lemma_index_array_round_trip(self.pending_index);
        }
        let mut out = self.version.pack();
        extend_bytes(&mut out, &self.match_pair.to_bytes());
        out.push(if self.is_first { 1 } else { 0 });
        extend_bytes(&mut out, &u32_to_le_bytes(self.lp_num));
        pack_index_array(&mut out, &self.lp_index);
        extend_bytes(&mut out, &u32_to_le_bytes(self.priority_num));
        pack_index_array(&mut out, &self.priority_index);
        extend_bytes(&mut out, &u32_to_le_bytes(self.pending_num));
        pack_index_array(&mut out, &self.pending_index);
        out
    }

    fn unpack(b: &[u8]) -> (r: UserIndex) {
        UserIndex {
            version: Version::unpack(slice_subrange(b, 0, VERSION_LEN)),
            match_pair: Pubkey::from_slice(slice_subrange(b, 129, 129 + PUBKEY_LEN)),
            is_first: b[161] != 0,
            lp_num: u32_from_le_bytes(slice_subrange(b, 162, 166)),
            lp_index: unpack_index_array(slice_subrange(b, 166, 256)),
            priority_num: u32_from_le_bytes(slice_subrange(b, 256, 260)),
            priority_index: unpack_index_array(slice_subrange(b, 260, 350)),
            pending_num: u32_from_le_bytes(slice_subrange(b, 350, 354)),
            pending_index: unpack_index_array(slice_subrange(b, 354, 444)),
        }
    }

    proof fn lemma_pack_unpack(v: UserIndex) {
        lemma_auto_spec_u32_to_from_le_bytes();
        lemma_pubkey_of(v.match_pair);
        lemma_index_array_round_trip(v.lp_index);
        lemma_index_array_round_trip(v.priority_index);
        lemma_index_array_round_trip(v.pending_index);
        let b = v.spec_pack();
        assert(b.subrange(0, 129)[0] == v.version.0);
        assert(b.subrange(129, 161) =~= v.match_pair@);
        assert(b.subrange(162, 166) =~= spec_u32_to_le_bytes(v.lp_num));
        assert(b.subrange(166, 256) =~= spec_pack_index_array(v.lp_index));
        assert(b.subrange(256, 260) =~= spec_u32_to_le_bytes(v.priority_num));
        assert(b.subrange(260, 350) =~= spec_pack_index_array(v.priority_index));
        assert(b.subrange(350, 354) =~= spec_u32_to_le_bytes(v.pending_num));
        assert(b.subrange(354, 444) =~= spec_pack_index_array(v.pending_index));
    }
}

impl IsVersionMatched for UserIndex {
    open spec fn spec_version(&self) -> u8 {
        self.version.0
    }

    proof fn lemma_version_byte(bytes: Seq<u8>) {
        assert(bytes.subrange(0, 129)[0] == bytes[0]);
    }

    fn is_version_matched(&self) -> (r: bool) {
        self.version.is_version_matched()
    }

    fn is_initialized(&self) -> (r: bool) {
        self.version.is_initialized()
    }
}

} // verus!

verus! {

/// An amount owed to an account.
#[derive(Debug, Clone, Copy, PartialEq, Eq)]
pub struct UserAmount {
    pub account: Pubkey,
    pub amount: u64,
}

/// A user's request against a container slot, with the rates it was priced at.
#[derive(Debug, Clone, Copy, PartialEq, Eq)]
pub struct RequestWrapper {
    pub index: usize,
    pub account: Pubkey,
    pub amount: u64,
    pub rate: u128,
    pub rate2: u128,
}

} // verus!
