use vstd::prelude::*;
use crate::error::SilError;
use crate::instruction::QueueType;
use vstd::bytes::*;
use vstd::slice::slice_subrange;
use crate::pubkey::{Pubkey, is_zero_key, pubkey_of, lemma_pubkey_of, PUBKEY_LEN};
use crate::region::extend_bytes;
use crate::version::{Version, Packer, PROGRAM_VERSION, IsVersionMatched, VERSION_LEN};

verus! {

/// Number of slots kept in reserve as a safety margin.
pub const SAFE_PROTECT: usize = 50;

/// Largest number of containers of one kind that one side registers.
pub const MAX_QUEUE_NUM: usize = 3;

/// Encoded length of three identifiers.
pub const KEYS_LEN: usize = 96;

/// Encoded length of a [`QueuePoolInfo`]: total, then count and identifiers per kind.
pub const QUEUE_POOL_INFO_LEN: usize = 299;

/// Encoded length of a [`MatchPair`].
pub const MATCH_PAIR_LEN: usize = 783;

/// The bytes of three identifiers, one after another.
pub open spec fn spec_pack_keys(keys: [Pubkey; 3]) -> Seq<u8> {
    keys[0]@ + keys[1]@ + keys[2]@
}

/// The three identifiers that 96 bytes hold.
pub open spec fn spec_unpack_keys(b: Seq<u8>) -> [Pubkey; 3] {
    choose|a: [Pubkey; 3]|
        #[trigger] a@ == seq![pubkey_of(b.subrange(0, 32)), pubkey_of(b.subrange(32, 64)), pubkey_of(b.subrange(64, 96))]
}

proof fn lemma_keys_round_trip(keys: [Pubkey; 3])
    ensures
        spec_pack_keys(keys).len() == KEYS_LEN,
        spec_unpack_keys(spec_pack_keys(keys)) == keys,
{
    let b = spec_pack_keys(keys);
    lemma_pubkey_of(keys[0]);
    lemma_pubkey_of(keys[1]);
    lemma_pubkey_of(keys[2]);
    assert(b.subrange(0, 32) =~= keys[0]@);
    assert(b.subrange(32, 64) =~= keys[1]@);
    assert(b.subrange(64, 96) =~= keys[2]@);
    assert(keys@ =~= seq![pubkey_of(b.subrange(0, 32)), pubkey_of(b.subrange(32, 64)), pubkey_of(b.subrange(64, 96))]);
    let c = spec_unpack_keys(b);
    assert(c@ =~= keys@);
    assert(c =~= keys);
}

fn pack_keys(out: &mut Vec<u8>, keys: &[Pubkey; 3])
    ensures
        final(out)@ == old(out)@ + spec_pack_keys(*keys),
{
    extend_bytes(out, &keys[0].to_bytes());
    extend_bytes(out, &keys[1].to_bytes());
    extend_bytes(out, &keys[2].to_bytes());
    assert(out@ =~= old(out)@ + spec_pack_keys(*keys));
}

fn unpack_keys(b: &[u8]) -> (r: [Pubkey; 3])
    requires
        b@.len() == KEYS_LEN,
    ensures
        r == spec_unpack_keys(b@),
{
    let r = [
        Pubkey::from_slice(slice_subrange(b, 0, 32)),
        Pubkey::from_slice(slice_subrange(b, 32, 64)),
        Pubkey::from_slice(slice_subrange(b, 64, 96)),
    ];
    proof {
        let c = spec_unpack_keys(b@);
        assert(r@ =~= seq![pubkey_of(b@.subrange(0, 32)), pubkey_of(b@.subrange(32, 64)), pubkey_of(b@.subrange(64, 96))]);
        assert(c@ =~= r@);
        assert(c =~= r);
    }
    r
}

/// One of the two symmetric legs of a matching pair.
#[derive(Debug, Clone, Copy, PartialEq, Eq, Structural)]
pub enum Side {
    First,
    Second,
}

/// The containers that one side of a pair registered, per kind, and the
/// total amount pending on that side.
#[derive(Debug, Clone, Copy, PartialEq, Eq)]
pub struct QueuePoolInfo {
    pub total_pending: u64,
    pub lp_queue_num: u8,
    pub lp_queue_keys: [Pubkey; 3],
    pub priority_queue_num: u8,
    pub priority_queue_keys: [Pubkey; 3],
    pub pending_queue_num: u8,
    pub pending_queue_keys: [Pubkey; 3],
}

/// What registering `key` does to the identifiers of one kind: the all-zero
/// identifier is refused, a full list is refused, else `key` is appended.
pub open spec fn spec_register_key(keys: Seq<Pubkey>, key: Pubkey) -> Result<Seq<Pubkey>, SilError> {
    if is_zero_key(key@) {
        Err(SilError::InvalidQueueKey)
    } else if keys.len() >= MAX_QUEUE_NUM {
        Err(SilError::ExceedsMaxQueueNum)
    } else {
        Ok(keys.push(key))
    }
}

/// Checked addition into a pending total.
pub open spec fn spec_add_pending(total: u64, amount: u64) -> Result<u64, SilError> {
    if total + amount > u64::MAX {
        Err(SilError::MathOverflow)
    } else {
        Ok((total + amount) as u64)
    }
}

/// Registering four non-zero identifiers in turn on an empty list of one
/// kind: the first three are accepted and kept in call order, the fourth
/// is refused with `ExceedsMaxQueueNum`.
pub proof fn lemma_registry_capacity(k1: Pubkey, k2: Pubkey, k3: Pubkey, k4: Pubkey)
    requires
        !is_zero_key(k1@),
        !is_zero_key(k2@),
        !is_zero_key(k3@),
        !is_zero_key(k4@),
    ensures
        spec_register_key(Seq::empty(), k1) == Ok::<Seq<Pubkey>, SilError>(seq![k1]),
        spec_register_key(seq![k1], k2) == Ok::<Seq<Pubkey>, SilError>(seq![k1, k2]),
        spec_register_key(seq![k1, k2], k3) == Ok::<Seq<Pubkey>, SilError>(seq![k1, k2, k3]),
        spec_register_key(seq![k1, k2, k3], k4) == Err::<Seq<Pubkey>, SilError>(SilError::ExceedsMaxQueueNum),
{
    assert(Seq::<Pubkey>::empty().push(k1) =~= seq![k1]);
    assert(seq![k1].push(k2) =~= seq![k1, k2]);
    assert(seq![k1, k2].push(k3) =~= seq![k1, k2, k3]);
}

/// Once an addition has overflowed, the total stays where it was: a total at
/// the largest value refuses any further positive amount.
pub proof fn lemma_overflow_guard(total: u64, amount: u64)
    requires
        total as int + amount as int > u64::MAX,
    ensures
        spec_add_pending(total, amount) == Err::<u64, SilError>(SilError::MathOverflow),
        spec_add_pending(0, u64::MAX) == Ok::<u64, SilError>(u64::MAX),
        spec_add_pending(u64::MAX, 1) == Err::<u64, SilError>(SilError::MathOverflow),
{
}

/// `post` is `pre` with `key` written at index `num` of the identifiers of
/// `kind` and that kind's count raised by one; every other field, the
/// pending total included, is kept.
pub open spec fn pool_appended(pre: QueuePoolInfo, kind: QueueType, key: Pubkey, post: QueuePoolInfo) -> bool {
    &&& post.spec_keys(kind) == pre.spec_keys(kind).push(key)
    &&& match kind {
        QueueType::LP => post == (QueuePoolInfo {
            lp_queue_num: (pre.lp_queue_num + 1) as u8,
            lp_queue_keys: post.lp_queue_keys,
            ..pre
        }) && post.lp_queue_keys@ == pre.lp_queue_keys@.update(pre.lp_queue_num as int, key),
        QueueType::Priority => post == (QueuePoolInfo {
            priority_queue_num: (pre.priority_queue_num + 1) as u8,
            priority_queue_keys: post.priority_queue_keys,
            ..pre
        }) && post.priority_queue_keys@ == pre.priority_queue_keys@.update(pre.priority_queue_num as int, key),
        QueueType::Pending => post == (QueuePoolInfo {
            pending_queue_num: (pre.pending_queue_num + 1) as u8,
            pending_queue_keys: post.pending_queue_keys,
            ..pre
        }) && post.pending_queue_keys@ == pre.pending_queue_keys@.update(pre.pending_queue_num as int, key),
    }
}

impl QueuePoolInfo {
    /// Each count fits its array.
    pub open spec fn wf(&self) -> bool {
        &&& self.lp_queue_num <= MAX_QUEUE_NUM
        &&& self.priority_queue_num <= MAX_QUEUE_NUM
        &&& self.pending_queue_num <= MAX_QUEUE_NUM
    }

    /// How many containers of `kind` are registered.
    pub open spec fn spec_num(&self, kind: QueueType) -> nat {
        match kind {
            QueueType::LP => self.lp_queue_num as nat,
            QueueType::Priority => self.priority_queue_num as nat,
            QueueType::Pending => self.pending_queue_num as nat,
        }
    }

    /// The registered identifiers of `kind`, in the order they were added.
    pub open spec fn spec_keys(&self, kind: QueueType) -> Seq<Pubkey> {
        match kind {
            QueueType::LP => self.lp_queue_keys@.take(self.lp_queue_num as int),
            QueueType::Priority => self.priority_queue_keys@.take(self.priority_queue_num as int),
            QueueType::Pending => self.pending_queue_keys@.take(self.pending_queue_num as int),
        }
    }

    /// A side that registers the given identifiers and has nothing pending.
    /// Fails when a list is longer than the registry holds.
    pub fn new(lp_queue_keys: &[Pubkey], priority_queue_keys: &[Pubkey], pending_queue_keys: &[Pubkey]) -> (r:
        Result<QueuePoolInfo, SilError>)
        ensures
            lp_queue_keys@.len() > MAX_QUEUE_NUM || priority_queue_keys@.len() > MAX_QUEUE_NUM
                || pending_queue_keys@.len() > MAX_QUEUE_NUM ==> r == Err::<QueuePoolInfo, SilError>(
                SilError::ExceedsMaxQueueNum,
            ),
            lp_queue_keys@.len() <= MAX_QUEUE_NUM && priority_queue_keys@.len() <= MAX_QUEUE_NUM
                && pending_queue_keys@.len() <= MAX_QUEUE_NUM ==> {
                &&& r is Ok
                &&& r->Ok_0.wf()
                &&& r->Ok_0.total_pending == 0
                &&& r->Ok_0.spec_keys(QueueType::LP) == lp_queue_keys@
                &&& r->Ok_0.spec_keys(QueueType::Priority) == priority_queue_keys@
                &&& r->Ok_0.spec_keys(QueueType::Pending) == pending_queue_keys@
            },
    {
        if lp_queue_keys.len() > MAX_QUEUE_NUM {
            return Err(SilError::ExceedsMaxQueueNum);
        }
        if priority_queue_keys.len() > MAX_QUEUE_NUM {
            return Err(SilError::ExceedsMaxQueueNum);
        }
        if pending_queue_keys.len() > MAX_QUEUE_NUM {
            return Err(SilError::ExceedsMaxQueueNum);
        }
        let z = Pubkey::zero();
        let mut qpi = QueuePoolInfo {
            total_pending: 0,
            lp_queue_num: 0,
            lp_queue_keys: [z, z, z],
            priority_queue_num: 0,
            priority_queue_keys: [z, z, z],
            pending_queue_num: 0,
            pending_queue_keys: [z, z, z],
        };
        let mut i: usize = 0;
        while i < lp_queue_keys.len()
            invariant
                0 <= i <= lp_queue_keys@.len() <= MAX_QUEUE_NUM,
                qpi.wf(),
                qpi.total_pending == 0,
                qpi.spec_num(QueueType::Priority) == 0,
                qpi.spec_num(QueueType::Pending) == 0,
                qpi.spec_num(QueueType::LP) == i,
                qpi.spec_keys(QueueType::LP) == lp_queue_keys@.take(i as int),
            decreases lp_queue_keys@.len() - i,
        {
            qpi.add_key(QueueType::LP, lp_queue_keys[i]);
            i = i + 1;
            assert(qpi.spec_keys(QueueType::LP) =~= lp_queue_keys@.take(i as int));
        }
        i = 0;
        while i < priority_queue_keys.len()
            invariant
                0 <= i <= priority_queue_keys@.len() <= MAX_QUEUE_NUM,
                lp_queue_keys@.len() <= MAX_QUEUE_NUM,
                qpi.wf(),
                qpi.total_pending == 0,
                qpi.spec_num(QueueType::Pending) == 0,
                qpi.spec_num(QueueType::Priority) == i,
                qpi.spec_keys(QueueType::LP) == lp_queue_keys@.take(lp_queue_keys@.len() as int),
                qpi.spec_keys(QueueType::Priority) == priority_queue_keys@.take(i as int),
            decreases priority_queue_keys@.len() - i,
        {
            qpi.add_key(QueueType::Priority, priority_queue_keys[i]);
            i = i + 1;
            assert(qpi.spec_keys(QueueType::Priority) =~= priority_queue_keys@.take(i as int));
        }
        i = 0;
        while i < pending_queue_keys.len()
            invariant
                0 <= i <= pending_queue_keys@.len() <= MAX_QUEUE_NUM,
                qpi.wf(),
                qpi.total_pending == 0,
                qpi.spec_num(QueueType::Pending) == i,
                qpi.spec_keys(QueueType::LP) == lp_queue_keys@.take(lp_queue_keys@.len() as int),
                qpi.spec_keys(QueueType::Priority) == priority_queue_keys@.take(
                    priority_queue_keys@.len() as int,
                ),
                qpi.spec_keys(QueueType::Pending) == pending_queue_keys@.take(i as int),
            decreases pending_queue_keys@.len() - i,
        {
            qpi.add_key(QueueType::Pending, pending_queue_keys[i]);
            i = i + 1;
            assert(qpi.spec_keys(QueueType::Pending) =~= pending_queue_keys@.take(i as int));
        }
        assert(lp_queue_keys@.take(lp_queue_keys@.len() as int) =~= lp_queue_keys@);
        assert(priority_queue_keys@.take(priority_queue_keys@.len() as int) =~= priority_queue_keys@);
        assert(pending_queue_keys@.take(pending_queue_keys@.len() as int) =~= pending_queue_keys@);
        Ok(qpi)
    }

    /// Appends `key` to the identifiers of `kind`; the count must be below the limit.
    fn add_key(&mut self, kind: QueueType, key: Pubkey)
        requires
            old(self).wf(),
            old(self).spec_num(kind) < MAX_QUEUE_NUM,
        ensures
            final(self).wf(),
            pool_appended(*old(self), kind, key, *final(self)),
            final(self).total_pending == old(self).total_pending,
            final(self).spec_num(kind) == old(self).spec_num(kind) + 1,
            final(self).spec_keys(kind) == old(self).spec_keys(kind).push(key),
            forall|k: QueueType| k != kind ==> #[trigger] final(self).spec_num(k) == old(self).spec_num(k),
            forall|k: QueueType| k != kind ==> #[trigger] final(self).spec_keys(k) == old(self).spec_keys(k),
    {
        match kind {
            QueueType::LP => {
                let n = self.lp_queue_num as usize;
                self.lp_queue_keys[n] = key;
                self.lp_queue_num = self.lp_queue_num + 1;
            },
            QueueType::Priority => {
                let n = self.priority_queue_num as usize;
                self.priority_queue_keys[n] = key;
                self.priority_queue_num = self.priority_queue_num + 1;
            },
            QueueType::Pending => {
                let n = self.pending_queue_num as usize;
                self.pending_queue_keys[n] = key;
                self.pending_queue_num = self.pending_queue_num + 1;
            },
        }
        assert(self.spec_keys(kind) =~= old(self).spec_keys(kind).push(key));
    }

    /// Registers `key` as a container of `kind`. Fails, changing nothing, on the
    /// all-zero identifier or when `kind` already holds the largest number.
    pub fn register_queue(&mut self, kind: QueueType, key: Pubkey) -> (r: Result<(), SilError>)
        requires
            old(self).wf(),
        ensures
            final(self).wf(),
            spec_register_key(old(self).spec_keys(kind), key) is Err ==> r == Err::<(), SilError>(
                spec_register_key(old(self).spec_keys(kind), key)->Err_0,
            ) && *final(self) == *old(self),
            spec_register_key(old(self).spec_keys(kind), key) is Ok ==> {
                &&& r == Ok::<(), SilError>(())
                &&& pool_appended(*old(self), kind, key, *final(self))
                &&& final(self).spec_keys(kind) == spec_register_key(old(self).spec_keys(kind), key)->Ok_0
            },
    {
        if key.is_zero() {
            return Err(SilError::InvalidQueueKey);
        }
        let num = match kind {
            QueueType::LP => self.lp_queue_num,
            QueueType::Priority => self.priority_queue_num,
            QueueType::Pending => self.pending_queue_num,
        };
        if num as usize >= MAX_QUEUE_NUM {
            return Err(SilError::ExceedsMaxQueueNum);
        }
        self.add_key(kind, key);
        Ok(())
    }

    /// Adds `pending` to the side's pending total; on overflow fails and
    /// leaves the total as it was.
    pub fn add_pending(&mut self, pending: u64) -> (r: Result<(), SilError>)
        ensures
            spec_add_pending(old(self).total_pending, pending) is Err ==> r == Err::<(), SilError>(
                SilError::MathOverflow,
            ) && *final(self) == *old(self),
            spec_add_pending(old(self).total_pending, pending) is Ok ==> r == Ok::<(), SilError>(())
                && *final(self) == (QueuePoolInfo {
                total_pending: spec_add_pending(old(self).total_pending, pending)->Ok_0,
                ..*old(self)
            }),
    {
        match self.total_pending.checked_add(pending) {
            Some(t) => {
                self.total_pending = t;
                Ok(())
            },
            None => Err(SilError::MathOverflow),
        }
    }
}

impl Packer for QueuePoolInfo {
    open spec fn spec_len() -> nat {
        QUEUE_POOL_INFO_LEN as nat
    }

    open spec fn spec_pack(&self) -> Seq<u8> {
        spec_u64_to_le_bytes(self.total_pending) + seq![self.lp_queue_num] + spec_pack_keys(self.lp_queue_keys)
            + seq![self.priority_queue_num] + spec_pack_keys(self.priority_queue_keys) + seq![self.pending_queue_num]
            + spec_pack_keys(self.pending_queue_keys)
    }

    open spec fn spec_unpack(b: Seq<u8>) -> QueuePoolInfo {
        QueuePoolInfo {
            total_pending: spec_u64_from_le_bytes(b.subrange(0, 8)),
            lp_queue_num: b[8],
            lp_queue_keys: spec_unpack_keys(b.subrange(9, 105)),
            priority_queue_num: b[105],
            priority_queue_keys: spec_unpack_keys(b.subrange(106, 202)),
            pending_queue_num: b[202],
            pending_queue_keys: spec_unpack_keys(b.subrange(203, 299)),
        }
    }

    fn packed_len() -> (r: usize) {
        QUEUE_POOL_INFO_LEN
    }

    fn pack(&self) -> (r: Vec<u8>) {
        proof {
            lemma_auto_spec_u64_to_from_le_bytes();
        }
        let mut out = u64_to_le_bytes(self.total_pending);
        out.push(self.lp_queue_num);
        pack_keys(&mut out, &self.lp_queue_keys);
        out.push(self.priority_queue_num);
        pack_keys(&mut out, &self.priority_queue_keys);
        out.push(self.pending_queue_num);
        pack_keys(&mut out, &self.pending_queue_keys);
        proof {
            lemma_keys_round_trip(self.lp_queue_keys);
            lemma_keys_round_trip(self.priority_queue_keys);
            lemma_keys_round_trip(self.pending_queue_keys);
        }
        assert(out@ =~= self.spec_pack());
        out
    }

    fn unpack(b: &[u8]) -> (r: QueuePoolInfo) {
        QueuePoolInfo {
            total_pending: u64_from_le_bytes(slice_subrange(b, 0, 8)),
            lp_queue_num: b[8],
            lp_queue_keys: unpack_keys(slice_subrange(b, 9, 105)),
            priority_queue_num: b[105],
            priority_queue_keys: unpack_keys(slice_subrange(b, 106, 202)),
            pending_queue_num: b[202],
            pending_queue_keys: unpack_keys(slice_subrange(b, 203, 299)),
        }
    }

    proof fn lemma_pack_unpack(v: QueuePoolInfo) {
        lemma_auto_spec_u64_to_from_le_bytes();
        lemma_keys_round_trip(v.lp_queue_keys);
        lemma_keys_round_trip(v.priority_queue_keys);
        lemma_keys_round_trip(v.pending_queue_keys);
        let b = v.spec_pack();
        assert(b.subrange(0, 8) =~= spec_u64_to_le_bytes(v.total_pending));
        assert(b.subrange(9, 105) =~= spec_pack_keys(v.lp_queue_keys));
        assert(b.subrange(106, 202) =~= spec_pack_keys(v.priority_queue_keys));
        assert(b.subrange(203, 299) =~= spec_pack_keys(v.pending_queue_keys));
    }
}

/// The registry of a matching pair: its admin, round counter, per-side
/// minimum thresholds and the containers of each side.
#[derive(Debug, Clone, Copy, PartialEq, Eq)]
pub struct MatchPair {
    pub version: Version,
    pub admin: Pubkey,
    pub pair_round: u64,
    pub min_mint_token_0: u64,
    pub min_mint_token_1: u64,
    pub queue_pool_0: QueuePoolInfo,
    pub queue_pool_1: QueuePoolInfo,
}

impl MatchPair {
    /// Both sides are well formed.
    pub open spec fn wf(&self) -> bool {
        self.queue_pool_0.wf() && self.queue_pool_1.wf()
    }

    /// Whether both sides' counts fit their arrays, as a record read from a
    /// region must be checked before it is changed.
    pub fn is_wf(&self) -> (r: bool)
        ensures
            r == self.wf(),
    {
        (self.queue_pool_0.lp_queue_num as usize) <= MAX_QUEUE_NUM
            && (self.queue_pool_0.priority_queue_num as usize) <= MAX_QUEUE_NUM
            && (self.queue_pool_0.pending_queue_num as usize) <= MAX_QUEUE_NUM
            && (self.queue_pool_1.lp_queue_num as usize) <= MAX_QUEUE_NUM
            && (self.queue_pool_1.priority_queue_num as usize) <= MAX_QUEUE_NUM
            && (self.queue_pool_1.pending_queue_num as usize) <= MAX_QUEUE_NUM
    }

    /// The registry of one side.
    pub open spec fn pool(&self, side: Side) -> QueuePoolInfo {
        match side {
            Side::First => self.queue_pool_0,
            Side::Second => self.queue_pool_1,
        }
    }

    /// A fresh pair stamped with the current version, at round zero.
    pub fn new(
        admin: Pubkey,
        min_mint_token_0: u64,
        min_mint_token_1: u64,
        queue_pool_0: QueuePoolInfo,
        queue_pool_1: QueuePoolInfo,
    ) -> (r: MatchPair)
        ensures
            r == (MatchPair {
                version: Version(PROGRAM_VERSION),
                admin,
                pair_round: 0,
                min_mint_token_0,
                min_mint_token_1,
                queue_pool_0,
                queue_pool_1,
            }),
    {
        MatchPair {
            version: Version(PROGRAM_VERSION),
            admin,
            pair_round: 0,
            min_mint_token_0,
            min_mint_token_1,
            queue_pool_0,
            queue_pool_1,
        }
    }

    /// Registers `key` as a container of `kind` on `side`. Fails, changing
    /// nothing, on the all-zero identifier or when that list is full; else
    /// only that list of that side changes.
    pub fn register_queue(&mut self, side: Side, kind: QueueType, key: Pubkey) -> (r: Result<(), SilError>)
        requires
            old(self).wf(),
        ensures
            final(self).wf(),
            spec_register_key(old(self).pool(side).spec_keys(kind), key) is Err ==> r == Err::<(), SilError>(
                spec_register_key(old(self).pool(side).spec_keys(kind), key)->Err_0,
            ) && *final(self) == *old(self),
            spec_register_key(old(self).pool(side).spec_keys(kind), key) is Ok ==> r == Ok::<(), SilError>(())
                && pair_appended(*old(self), side, kind, key, *final(self)),
    {
        match side {
            Side::First => self.queue_pool_0.register_queue(kind, key),
            Side::Second => self.queue_pool_1.register_queue(kind, key),
        }
    }

    /// Registers an LP container on `side`.
    pub fn add_lp_queue_key(&mut self, side: Side, key: Pubkey) -> (r: Result<(), SilError>)
        requires
            old(self).wf(),
        ensures
            final(self).wf(),
            spec_register_key(old(self).pool(side).spec_keys(QueueType::LP), key) is Err ==> r == Err::<(), SilError>(
                spec_register_key(old(self).pool(side).spec_keys(QueueType::LP), key)->Err_0,
            ) && *final(self) == *old(self),
            spec_register_key(old(self).pool(side).spec_keys(QueueType::LP), key) is Ok ==> r == Ok::<(), SilError>(())
                && pair_appended(*old(self), side, QueueType::LP, key, *final(self)),
    {
        self.register_queue(side, QueueType::LP, key)
    }

    /// Registers a priority container on `side`.
    pub fn add_priority_queue_key(&mut self, side: Side, key: Pubkey) -> (r: Result<(), SilError>)
        requires
            old(self).wf(),
        ensures
            final(self).wf(),
            spec_register_key(old(self).pool(side).spec_keys(QueueType::Priority), key) is Err ==> r == Err::<(), SilError>(
                spec_register_key(old(self).pool(side).spec_keys(QueueType::Priority), key)->Err_0,
            ) && *final(self) == *old(self),
            spec_register_key(old(self).pool(side).spec_keys(QueueType::Priority), key) is Ok ==> r == Ok::<(), SilError>(())
                && pair_appended(*old(self), side, QueueType::Priority, key, *final(self)),
    {
        self.register_queue(side, QueueType::Priority, key)
    }

    /// Registers a pending container on `side`.
    pub fn add_pending_queue_key(&mut self, side: Side, key: Pubkey) -> (r: Result<(), SilError>)
        requires
            old(self).wf(),
        ensures
            final(self).wf(),
            spec_register_key(old(self).pool(side).spec_keys(QueueType::Pending), key) is Err ==> r == Err::<(), SilError>(
                spec_register_key(old(self).pool(side).spec_keys(QueueType::Pending), key)->Err_0,
            ) && *final(self) == *old(self),
            spec_register_key(old(self).pool(side).spec_keys(QueueType::Pending), key) is Ok ==> r == Ok::<(), SilError>(())
                && pair_appended(*old(self), side, QueueType::Pending, key, *final(self)),
    {
        self.register_queue(side, QueueType::Pending, key)
    }

    /// Adds `amount` to the pending total of `side`; on overflow fails and
    /// leaves the pair as it was.
    pub fn add_pending(&mut self, side: Side, amount: u64) -> (r: Result<(), SilError>)
        ensures
            spec_add_pending(old(self).pool(side).total_pending, amount) is Err ==> r == Err::<(), SilError>(
                SilError::MathOverflow,
            ) && *final(self) == *old(self),
            spec_add_pending(old(self).pool(side).total_pending, amount) is Ok ==> r == Ok::<(), SilError>(())
                && *final(self) == with_pool(
                *old(self),
                side,
                QueuePoolInfo {
                    total_pending: spec_add_pending(old(self).pool(side).total_pending, amount)->Ok_0,
                    ..old(self).pool(side)
                },
            ),
    {
        match side {
            Side::First => self.queue_pool_0.add_pending(amount),
            Side::Second => self.queue_pool_1.add_pending(amount),
        }
    }
}

/// `mp` with the registry of `side` replaced by `pool`.
pub open spec fn with_pool(mp: MatchPair, side: Side, pool: QueuePoolInfo) -> MatchPair {
    match side {
        Side::First => MatchPair { queue_pool_0: pool, ..mp },
        Side::Second => MatchPair { queue_pool_1: pool, ..mp },
    }
}

/// `post` is `pre` with `key` appended to the identifiers of `kind` on
/// `side`: header, admin, round, minimums and the other side are kept.
pub open spec fn pair_appended(pre: MatchPair, side: Side, kind: QueueType, key: Pubkey, post: MatchPair) -> bool {
    match side {
        Side::First => post == (MatchPair { queue_pool_0: post.queue_pool_0, ..pre }) && pool_appended(
            pre.queue_pool_0,
            kind,
            key,
            post.queue_pool_0,
        ),
        Side::Second => post == (MatchPair { queue_pool_1: post.queue_pool_1, ..pre }) && pool_appended(
            pre.queue_pool_1,
            kind,
            key,
            post.queue_pool_1,
        ),
    }
}

impl IsVersionMatched for MatchPair {
    open spec fn spec_version(&self) -> u8 {
        self.version.0
    }

    proof fn lemma_version_byte(bytes: Seq<u8>) {
        assert(bytes.subrange(0, 129)[0] == bytes[0]);
    }

    fn is_version_matched(&self) -> (r: bool) {
        self.version.is_version_matched()
    }

    fn is_initialized(&self) -> (r: bool) {
        self.version.is_initialized()
    }
}

impl Packer for MatchPair {
    open spec fn spec_len() -> nat {
        MATCH_PAIR_LEN as nat
    }

    open spec fn spec_pack(&self) -> Seq<u8> {
        self.version.spec_pack() + self.admin@ + spec_u64_to_le_bytes(self.pair_round) + spec_u64_to_le_bytes(
            self.min_mint_token_0,
        ) + spec_u64_to_le_bytes(self.min_mint_token_1) + self.queue_pool_0.spec_pack()
            + self.queue_pool_1.spec_pack()
    }

    open spec fn spec_unpack(b: Seq<u8>) -> MatchPair {
        MatchPair {
            version: Version::spec_unpack(b.subrange(0, 129)),
            admin: pubkey_of(b.subrange(129, 161)),
            pair_round: spec_u64_from_le_bytes(b.subrange(161, 169)),
            min_mint_token_0: spec_u64_from_le_bytes(b.subrange(169, 177)),
            min_mint_token_1: spec_u64_from_le_bytes(b.subrange(177, 185)),
            queue_pool_0: QueuePoolInfo::spec_unpack(b.subrange(185, 484)),
            queue_pool_1: QueuePoolInfo::spec_unpack(b.subrange(484, 783)),
        }
    }

    fn packed_len() -> (r: usize) {
        MATCH_PAIR_LEN
    }

    fn pack(&self) -> (r: Vec<u8>) {
        proof {
            lemma_auto_spec_u64_to_from_le_bytes();
            QueuePoolInfo::lemma_pack_unpack(self.queue_pool_0);
            QueuePoolInfo::lemma_pack_unpack(self.queue_pool_1);
        }
        let mut out = self.version.pack();
        extend_bytes(&mut out, &self.admin.to_bytes());
        extend_bytes(&mut out, &u64_to_le_bytes(self.pair_round));
        extend_bytes(&mut out, &u64_to_le_bytes(self.min_mint_token_0));
        extend_bytes(&mut out, &u64_to_le_bytes(self.min_mint_token_1));
        extend_bytes(&mut out, &self.queue_pool_0.pack());
        extend_bytes(&mut out, &self.queue_pool_1.pack());
        out
    }

    fn unpack(b: &[u8]) -> (r: MatchPair) {
        MatchPair {
            version: Version::unpack(slice_subrange(b, 0, VERSION_LEN)),
            admin: Pubkey::from_slice(slice_subrange(b, 129, 129 + PUBKEY_LEN)),
            pair_round: u64_from_le_bytes(slice_subrange(b, 161, 169)),
            min_mint_token_0: u64_from_le_bytes(slice_subrange(b, 169, 177)),
            min_mint_token_1: u64_from_le_bytes(slice_subrange(b, 177, 185)),
            queue_pool_0: QueuePoolInfo::unpack(slice_subrange(b, 185, 484)),
            queue_pool_1: QueuePoolInfo::unpack(slice_subrange(b, 484, 783)),
        }
    }

    proof fn lemma_pack_unpack(v: MatchPair) {
        lemma_auto_spec_u64_to_from_le_bytes();
        lemma_pubkey_of(v.admin);
        QueuePoolInfo::lemma_pack_unpack(v.queue_pool_0);
        QueuePoolInfo::lemma_pack_unpack(v.queue_pool_1);
        let b = v.spec_pack();
        assert(b.subrange(0, 129)[0] == v.version.0);
        assert(b.subrange(129, 161) =~= v.admin@);
        assert(b.subrange(161, 169) =~= spec_u64_to_le_bytes(v.pair_round));
        assert(b.subrange(169, 177) =~= spec_u64_to_le_bytes(v.min_mint_token_0));
        assert(b.subrange(177, 185) =~= spec_u64_to_le_bytes(v.min_mint_token_1));
        assert(b.subrange(185, 484) =~= v.queue_pool_0.spec_pack());
        assert(b.subrange(484, 783) =~= v.queue_pool_1.spec_pack());
    }
}

} // verus!
