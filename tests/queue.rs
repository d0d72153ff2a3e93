use sol_sil::error::SilError;
use sol_sil::pubkey::Pubkey;
use sol_sil::queue::{
    fifo_pop, fifo_push, lifo_pop, lifo_push, FIFO, FIFO_INFO_LEN, LIFO, LIFO_INFO_LEN,
};
use sol_sil::stake::{UserStake, USER_STAKE_LEN};
use sol_sil::version::Packer;

fn stake(n: u8) -> UserStake {
    UserStake {
        token_account: Pubkey::new_from_array([n; 32]),
        amount: 1000 + n as u64,
        per_rate: (n as u128) << 70,
        lp_per_token: 7 * n as u64,
        round: n as u64,
    }
}

fn fifo(cap: u64) -> FIFO<UserStake> {
    let data = vec![0u8; FIFO_INFO_LEN + cap as usize * USER_STAKE_LEN];
    FIFO::create(data, cap).unwrap()
}

fn lifo(cap: u64) -> LIFO<UserStake> {
    let data = vec![0u8; LIFO_INFO_LEN + cap as usize * USER_STAKE_LEN];
    LIFO::create(data, cap).unwrap()
}

#[test]
fn fifo_capacity_three_scenario() {
    let (a, b, c, d) = (stake(1), stake(2), stake(3), stake(4));
    let mut q = fifo(3);
    assert_eq!(q.push(a), Ok(Some(0)));
    assert_eq!(q.push(b), Ok(Some(1)));
    assert_eq!(q.push(c), Ok(Some(2)));
    assert_eq!(q.info.used, 3);
    assert_eq!(q.push(d), Ok(None));
    assert_eq!(q.info.used, 3);
    assert_eq!(q.pop(), Ok(a));
    assert_eq!(q.pop(), Ok(b));
    assert_eq!(q.push(d), Ok(Some(0)));
    assert_eq!(q.pop(), Ok(c));
    assert_eq!(q.pop(), Ok(d));
    assert_eq!(q.info.used, 0);
}

#[test]
fn fifo_order_is_kept() {
    let mut q = fifo(5);
    for i in 0..5u8 {
        assert_eq!(q.push(stake(i)), Ok(Some(i as usize)));
    }
    for i in 0..5u8 {
        assert_eq!(q.pop(), Ok(stake(i)));
    }
    assert_eq!(q.pop(), Err(SilError::EmptyQueue));
}

#[test]
fn fifo_full_push_changes_nothing_and_empty_pop_fails() {
    let mut q = fifo(2);
    assert_eq!(q.pop(), Err(SilError::EmptyQueue));
    assert_eq!(q.first(), Err(SilError::EmptyQueue));
    q.push(stake(1)).unwrap();
    q.push(stake(2)).unwrap();
    let before = q.data.clone();
    let info = q.info;
    assert_eq!(q.push(stake(3)), Ok(None));
    assert_eq!(q.data, before);
    assert_eq!(q.info, info);
    assert_eq!(q.first(), Ok(stake(1)));
    assert_eq!(q.info.used, 2);
}

#[test]
fn fifo_wraps_around() {
    let mut q = fifo(2);
    for round in 0..5u8 {
        assert!(q.push(stake(round)).unwrap().is_some());
        assert_eq!(q.pop(), Ok(stake(round)));
        assert!(q.info.used <= 2);
    }
    assert_eq!(q.info.head, 1);
    assert_eq!(q.info.tail, 1);
}

#[test]
fn fifo_size_counts_metadata_and_slots() {
    let q = fifo(4);
    assert_eq!(q.size(), 153 + 4 * 72);
}

#[test]
fn fifo_reload_after_save() {
    let mut q = fifo(3);
    q.push(stake(9)).unwrap();
    q.push(stake(8)).unwrap();
    q.pop().unwrap();
    let data = q.into_data();
    let mut again: FIFO<UserStake> = FIFO::new(data, 3).unwrap();
    assert_eq!(again.info.used, 1);
    assert_eq!(again.info.head, 1);
    assert_eq!(again.info.tail, 2);
    assert_eq!(again.pop(), Ok(stake(8)));
}

#[test]
fn version_gate_on_containers() {
    let mut data = vec![0u8; FIFO_INFO_LEN + 3 * USER_STAKE_LEN];
    assert_eq!(FIFO::<UserStake>::new(data.clone(), 3).err(), Some(SilError::Uninitialized));
    data[0] = 2;
    assert_eq!(FIFO::<UserStake>::new(data.clone(), 3).err(), Some(SilError::VersionIsNotMatched));
    data[0] = 1;
    assert!(FIFO::<UserStake>::new(data.clone(), 3).is_ok());
    assert_eq!(FIFO::<UserStake>::create(data.clone(), 3).err(), Some(SilError::AlreadyInitialized));
    let mut ldata = vec![0u8; LIFO_INFO_LEN + 3 * USER_STAKE_LEN];
    assert_eq!(LIFO::<UserStake>::new(ldata.clone(), 3).err(), Some(SilError::Uninitialized));
    ldata[0] = 7;
    assert_eq!(LIFO::<UserStake>::new(ldata, 3).err(), Some(SilError::VersionIsNotMatched));
}

#[test]
fn container_region_too_small_or_inconsistent() {
    let data = vec![0u8; FIFO_INFO_LEN + 3 * USER_STAKE_LEN - 1];
    assert_eq!(FIFO::<UserStake>::create(data, 3).err(), Some(SilError::AccountDataTooSmall));
    let mut data = vec![0u8; FIFO_INFO_LEN + 3 * USER_STAKE_LEN];
    data[0] = 1;
    data[129] = 4;
    assert_eq!(FIFO::<UserStake>::new(data.clone(), 3).err(), Some(SilError::InvalidQueueState));
    data[129] = 1;
    assert_eq!(FIFO::<UserStake>::new(data, 3).err(), Some(SilError::InvalidQueueState));
    let short = vec![1u8; 10];
    assert_eq!(LIFO::<UserStake>::new(short, 3).err(), Some(SilError::AccountDataTooSmall));
}

#[test]
fn lifo_reads_slot_at_used() {
    let mut s = lifo(4);
    assert_eq!(s.pop(), Err(SilError::EmptyQueue));
    assert_eq!(s.push(stake(1)), Ok(Some(0)));
    assert_eq!(s.push(stake(2)), Ok(Some(1)));
    assert_eq!(s.push(stake(3)), Ok(Some(2)));
    // slot 3 was never written: it decodes to the zero record
    assert_eq!(s.first(), Ok(UserStake {
        token_account: Pubkey::new_from_array([0; 32]),
        amount: 0,
        per_rate: 0,
        lp_per_token: 0,
        round: 0,
    }));
    s.pop().unwrap();
    assert_eq!(s.info.used, 2);
    assert_eq!(s.pop(), Ok(stake(3)));
    assert_eq!(s.pop(), Ok(stake(2)));
    assert_eq!(s.info.used, 0);
    assert_eq!(s.pop(), Err(SilError::EmptyQueue));
}

#[test]
fn lifo_push_pop_cycles_are_consistent() {
    let mut s = lifo(5);
    s.push(stake(1)).unwrap();
    for i in 10..20u8 {
        assert_eq!(s.push(stake(i)), Ok(Some(1)));
        assert_eq!(s.push(stake(i + 100)), Ok(Some(2)));
        s.pop().unwrap();
        assert_eq!(s.pop(), Ok(stake(i + 100)));
        assert_eq!(s.info.used, 1);
    }
}

#[test]
fn lifo_full_rejects_push_and_pop_past_region() {
    let mut s = lifo(2);
    s.push(stake(1)).unwrap();
    s.push(stake(2)).unwrap();
    assert_eq!(s.push(stake(3)), Ok(None));
    assert_eq!(s.pop(), Err(SilError::AccountDataTooSmall));
    assert_eq!(s.first(), Err(SilError::AccountDataTooSmall));
    assert_eq!(s.info.used, 2);
    assert_eq!(s.size(), 137 + 2 * 72);
}

#[test]
fn group_push_moves_to_next_container() {
    let mut group = vec![fifo(1), fifo(2)];
    assert_eq!(fifo_push(&mut group, stake(1)), Ok(0));
    assert_eq!(fifo_push(&mut group, stake(2)), Ok(0));
    assert_eq!(fifo_push(&mut group, stake(3)), Ok(1));
    assert_eq!(fifo_push(&mut group, stake(4)), Err(SilError::ErrorPushInFIFOGroup));
    assert_eq!(group[0].info.used, 1);
    assert_eq!(group[1].info.used, 2);
    assert_eq!(fifo_pop(&mut group[1]), Ok(stake(2)));
}

#[test]
fn lifo_group_push_and_pop_choice() {
    let mut group = vec![lifo(1), lifo(2)];
    assert_eq!(lifo_push(&mut group, stake(1)), Ok(0));
    assert_eq!(lifo_push(&mut group, stake(2)), Ok(0));
    assert_eq!(lifo_push(&mut group, stake(3)), Ok(1));
    assert_eq!(lifo_push(&mut group, stake(4)), Err(SilError::ErrorPushInLIFOGroup));
    // both containers are full: nothing is chosen
    assert_eq!(lifo_pop(&mut group), Err(SilError::ErrorPopFromFIFOGroup));

    let mut group = vec![lifo(1), lifo(3)];
    lifo_push(&mut group, stake(1)).unwrap();
    // the first container is full, so the pop goes to the second, which is empty
    assert_eq!(lifo_pop(&mut group), Err(SilError::EmptyQueue));
    lifo_push(&mut group, stake(2)).unwrap();
    lifo_push(&mut group, stake(3)).unwrap();
    assert_eq!(lifo_pop(&mut group), Ok(UserStake {
        token_account: Pubkey::new_from_array([0; 32]),
        amount: 0,
        per_rate: 0,
        lp_per_token: 0,
        round: 0,
    }));
    assert_eq!(group[1].info.used, 1);
    assert_eq!(group[0].info.used, 1);
}

#[test]
fn push_writes_the_slot_bytes_and_keeps_the_rest() {
    let mut q = fifo(3);
    q.push(stake(1)).unwrap();
    let before = q.data.clone();
    let tag = q.info.tag;
    assert_eq!(q.push(stake(2)), Ok(Some(1)));
    let start = FIFO_INFO_LEN + USER_STAKE_LEN;
    assert_eq!(&q.data[start..start + USER_STAKE_LEN], &stake(2).pack()[..]);
    assert_eq!(&q.data[..start], &before[..start]);
    assert_eq!(&q.data[start + USER_STAKE_LEN..], &before[start + USER_STAKE_LEN..]);
    assert_eq!(q.info.tag, tag);

    let mut s = lifo(3);
    s.push(stake(5)).unwrap();
    let start = LIFO_INFO_LEN;
    assert_eq!(&s.data[start..start + USER_STAKE_LEN], &stake(5).pack()[..]);
}

#[test]
fn full_lifo_in_longer_region_reads_slot_used() {
    // room for one slot past the container's two
    let data = vec![0u8; LIFO_INFO_LEN + 3 * USER_STAKE_LEN];
    let mut s: LIFO<UserStake> = LIFO::create(data, 2).unwrap();
    let extra = LIFO_INFO_LEN + 2 * USER_STAKE_LEN;
    s.data[extra..extra + USER_STAKE_LEN].copy_from_slice(&stake(9).pack());
    s.push(stake(1)).unwrap();
    assert_eq!(s.push(stake(2)), Ok(Some(1)));
    assert_eq!(s.first(), Ok(stake(9)));
    assert_eq!(s.pop(), Ok(stake(9)));
    assert_eq!(s.info.used, 1);
    assert_eq!(s.pop(), Ok(stake(2)));
    assert_eq!(s.info.used, 0);
}
