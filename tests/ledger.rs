use sol_sil::error::SilError;
use sol_sil::instruction::QueueType;
use sol_sil::match_pair::{MatchPair, QueuePoolInfo, Side, MATCH_PAIR_LEN};
use sol_sil::pubkey::Pubkey;
use sol_sil::user::{UserIndex, USER_INDEX_LEN};
use sol_sil::version::{unpack_account, Packer, Version, PROGRAM_VERSION};

fn key(n: u8) -> Pubkey {
    Pubkey::new_from_array([n; 32])
}

fn empty_pair() -> MatchPair {
    let pool = QueuePoolInfo::new(&[], &[], &[]).unwrap();
    MatchPair::new(key(200), 10, 20, pool, pool)
}

#[test]
fn registry_takes_three_then_refuses() {
    let mut mp = empty_pair();
    assert_eq!(mp.register_queue(Side::First, QueueType::LP, key(1)), Ok(()));
    assert_eq!(mp.register_queue(Side::First, QueueType::LP, key(2)), Ok(()));
    assert_eq!(mp.register_queue(Side::First, QueueType::LP, key(3)), Ok(()));
    assert_eq!(mp.queue_pool_0.lp_queue_num, 3);
    assert_eq!(mp.queue_pool_0.lp_queue_keys, [key(1), key(2), key(3)]);
    let before = mp;
    assert_eq!(
        mp.register_queue(Side::First, QueueType::LP, key(4)),
        Err(SilError::ExceedsMaxQueueNum)
    );
    assert_eq!(mp, before);
    assert_eq!(mp.queue_pool_1.lp_queue_num, 0);
}

#[test]
fn registry_named_adders_and_sides() {
    let mut mp = empty_pair();
    assert_eq!(mp.add_priority_queue_key(Side::Second, key(7)), Ok(()));
    assert_eq!(mp.add_pending_queue_key(Side::Second, key(8)), Ok(()));
    assert_eq!(mp.add_lp_queue_key(Side::First, key(9)), Ok(()));
    assert_eq!(mp.queue_pool_1.priority_queue_num, 1);
    assert_eq!(mp.queue_pool_1.priority_queue_keys[0], key(7));
    assert_eq!(mp.queue_pool_1.pending_queue_keys[0], key(8));
    assert_eq!(mp.queue_pool_0.lp_queue_keys[0], key(9));
    assert_eq!(mp.queue_pool_0.priority_queue_num, 0);
    assert_eq!(mp.add_lp_queue_key(Side::First, Pubkey::zero()), Err(SilError::InvalidQueueKey));
    assert_eq!(mp.queue_pool_0.lp_queue_num, 1);
}

#[test]
fn match_pair_new_fields() {
    let mp = empty_pair();
    assert_eq!(mp.version, Version(PROGRAM_VERSION));
    assert_eq!(mp.pair_round, 0);
    assert_eq!(mp.min_mint_token_0, 10);
    assert_eq!(mp.min_mint_token_1, 20);
    assert_eq!(mp.admin, key(200));
}

#[test]
fn pool_info_new_limits() {
    let p = QueuePoolInfo::new(&[key(1), key(2)], &[key(3)], &[]).unwrap();
    assert_eq!(p.lp_queue_num, 2);
    assert_eq!(p.lp_queue_keys[1], key(2));
    assert_eq!(p.priority_queue_num, 1);
    assert_eq!(p.pending_queue_num, 0);
    assert_eq!(p.total_pending, 0);
    let four = [key(1), key(2), key(3), key(4)];
    assert_eq!(QueuePoolInfo::new(&four, &[], &[]).err(), Some(SilError::ExceedsMaxQueueNum));
    assert_eq!(QueuePoolInfo::new(&[], &four, &[]).err(), Some(SilError::ExceedsMaxQueueNum));
    assert_eq!(QueuePoolInfo::new(&[], &[], &four).err(), Some(SilError::ExceedsMaxQueueNum));
}

#[test]
fn pending_overflow_guard() {
    let mut mp = empty_pair();
    assert_eq!(mp.add_pending(Side::First, u64::MAX), Ok(()));
    assert_eq!(mp.add_pending(Side::First, 1), Err(SilError::MathOverflow));
    assert_eq!(mp.queue_pool_0.total_pending, u64::MAX);
    assert_eq!(mp.add_pending(Side::Second, 5), Ok(()));
    assert_eq!(mp.add_pending(Side::Second, 6), Ok(()));
    assert_eq!(mp.queue_pool_1.total_pending, 11);
    let mut p = QueuePoolInfo::new(&[], &[], &[]).unwrap();
    assert_eq!(p.add_pending(u64::MAX), Ok(()));
    assert_eq!(p.add_pending(1), Err(SilError::MathOverflow));
    assert_eq!(p.total_pending, u64::MAX);
}

#[test]
fn user_index_bounds() {
    let mut ui = UserIndex::new(key(3), true);
    assert_eq!(ui.pop_lp(), Err(SilError::ErrorPopFromUserIndex));
    for i in 0..30u16 {
        assert_eq!(ui.push_lp((1, i)), Ok(()));
    }
    assert_eq!(ui.push_lp((1, 99)), Err(SilError::ErrorPushInUserIndex));
    assert_eq!(ui.lp_num, 30);
    assert_eq!(ui.lp_index[29], (1, 29));
    assert_eq!(ui.pop_lp(), Ok(()));
    assert_eq!(ui.lp_num, 29);
}

#[test]
fn user_index_kinds_use_their_own_counts() {
    let mut ui = UserIndex::new(key(3), false);
    ui.push_lp((1, 1)).unwrap();
    ui.push_lp((1, 2)).unwrap();
    assert_eq!(ui.push_priority((2, 5)), Ok(()));
    assert_eq!(ui.push_pending((3, 6)), Ok(()));
    assert_eq!(ui.priority_index[0], (2, 5));
    assert_eq!(ui.pending_index[0], (3, 6));
    assert_eq!(ui.priority_num, 1);
    assert_eq!(ui.pending_num, 1);
    assert_eq!(ui.pop_priority(), Ok(()));
    assert_eq!(ui.pop_priority(), Err(SilError::ErrorPopFromUserIndex));
    assert_eq!(ui.pop_pending(), Ok(()));
    assert_eq!(ui.pop_pending(), Err(SilError::ErrorPopFromUserIndex));
    assert_eq!(ui.lp_num, 2);
    assert!(!ui.is_first);
    for i in 0..29u16 {
        ui.push_pending((3, i)).unwrap();
    }
    assert_eq!(ui.push_pending((3, 100)), Ok(()));
    assert_eq!(ui.push_pending((3, 101)), Err(SilError::ErrorPushInUserIndex));
}

#[test]
fn match_pair_layout_round_trip() {
    let mut mp = empty_pair();
    mp.register_queue(Side::Second, QueueType::Pending, key(4)).unwrap();
    mp.add_pending(Side::First, 0x0102).unwrap();
    let b = mp.pack();
    assert_eq!(b.len(), MATCH_PAIR_LEN);
    assert_eq!(&b[129..161], &[200u8; 32]);
    assert_eq!(&b[169..177], &[10, 0, 0, 0, 0, 0, 0, 0]);
    assert_eq!(&b[185..187], &[2, 1]);
    // second side: pending count, then its first identifier
    assert_eq!(b[484 + 202], 1);
    assert_eq!(&b[484 + 203..484 + 235], &[4u8; 32]);
    assert_eq!(unpack_account::<MatchPair>(&b), Ok(mp));
    assert!(mp.is_wf());
    let mut bad = b.clone();
    bad[185 + 8] = 4;
    assert!(!unpack_account::<MatchPair>(&bad).unwrap().is_wf());
}

#[test]
fn user_index_layout_round_trip() {
    let mut ui = UserIndex::new(key(8), true);
    ui.push_lp((7, 0x0203)).unwrap();
    ui.push_pending((1, 65535)).unwrap();
    let b = ui.pack();
    assert_eq!(b.len(), USER_INDEX_LEN);
    assert_eq!(b[161], 1);
    assert_eq!(&b[162..166], &[1, 0, 0, 0]);
    assert_eq!(&b[166..169], &[7, 3, 2]);
    assert_eq!(&b[354..357], &[1, 255, 255]);
    assert_eq!(unpack_account::<UserIndex>(&b), Ok(ui));
    assert_eq!(UserIndex::unpack(&b), ui);
}

#[test]
fn user_index_checks_counts_read_from_a_region() {
    let ui = UserIndex::new(key(3), true);
    assert!(ui.is_wf());
    let mut b = ui.pack();
    b[162] = 31;
    let read = UserIndex::unpack(&b);
    assert!(!read.is_wf());
}

#[test]
fn user_index_push_and_pop_keep_other_fields() {
    let mut ui = UserIndex::new(key(3), true);
    ui.push_pending((4, 4)).unwrap();
    let before = ui;
    ui.push_lp((1, 7)).unwrap();
    assert_eq!(ui.version, before.version);
    assert_eq!(ui.match_pair, before.match_pair);
    assert_eq!(ui.pending_index, before.pending_index);
    assert_eq!(ui.pending_num, 1);
    ui.pop_lp().unwrap();
    assert_eq!(ui.lp_index[0], (1, 7));
    assert_eq!(ui.lp_num, 0);
}
