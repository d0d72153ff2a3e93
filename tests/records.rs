use sol_sil::admin::{Admin, ADMIN_LEN};
use sol_sil::error::SilError;
use sol_sil::pubkey::Pubkey;
use sol_sil::stake::{UserStake, USER_STAKE_LEN};
use sol_sil::version::{
    assert_uninitialized, unpack_account, Packer, Version, IsVersionMatched, PROGRAM_VERSION,
    VERSION_LEN,
};

#[test]
fn user_stake_layout() {
    let s = UserStake {
        token_account: Pubkey::new_from_array([0xAB; 32]),
        amount: 0x0102030405060708,
        per_rate: 1u128 << 64,
        lp_per_token: 3,
        round: u64::MAX,
    };
    let b = s.pack();
    assert_eq!(b.len(), USER_STAKE_LEN);
    assert_eq!(&b[0..32], &[0xAB; 32]);
    assert_eq!(&b[32..40], &[8, 7, 6, 5, 4, 3, 2, 1]);
    assert_eq!(&b[40..56], &[0, 0, 0, 0, 0, 0, 0, 0, 1, 0, 0, 0, 0, 0, 0, 0]);
    assert_eq!(&b[56..64], &[3, 0, 0, 0, 0, 0, 0, 0]);
    assert_eq!(&b[64..72], &[0xFF; 8]);
    assert_eq!(UserStake::unpack(&b), s);
}

#[test]
fn version_header_layout_and_checks() {
    let v = Version::default();
    assert_eq!(v.0, PROGRAM_VERSION);
    let b = v.pack();
    assert_eq!(b.len(), VERSION_LEN);
    assert_eq!(b[0], 1);
    assert!(b[1..].iter().all(|x| *x == 0));
    assert!(v.is_version_matched());
    assert!(v.is_initialized());
    assert!(!Version(0).is_initialized());
    assert!(!Version(2).is_version_matched());
    assert!(Version(2).is_initialized());
}

#[test]
fn admin_round_trip_and_gate() {
    let owner = Pubkey::new_from_array([5; 32]);
    let a = Admin::new(254, owner);
    assert_eq!(a.version, Version(PROGRAM_VERSION));
    let b = a.pack();
    assert_eq!(b.len(), ADMIN_LEN);
    assert_eq!(b[129], 254);
    assert_eq!(unpack_account::<Admin>(&b), Ok(a));
    let mut region = b.clone();
    region.extend_from_slice(&[9, 9, 9]);
    assert_eq!(unpack_account::<Admin>(&region), Ok(a));
    region[0] = 3;
    assert_eq!(unpack_account::<Admin>(&region), Err(SilError::VersionIsNotMatched));
    region[0] = 0;
    assert_eq!(unpack_account::<Admin>(&region), Err(SilError::Uninitialized));
    assert_eq!(unpack_account::<Admin>(&b[..100]), Err(SilError::AccountDataTooSmall));
}

#[test]
fn fresh_region_checks() {
    let fresh = vec![0u8; ADMIN_LEN];
    assert_eq!(assert_uninitialized::<Admin>(&fresh), Ok(()));
    let used = Admin::new(1, Pubkey::new_from_array([1; 32])).pack();
    assert_eq!(assert_uninitialized::<Admin>(&used), Err(SilError::AlreadyInitialized));
    assert_eq!(assert_uninitialized::<Admin>(&fresh[..5]), Err(SilError::AccountDataTooSmall));
}

#[test]
fn pubkey_helpers() {
    assert!(Pubkey::zero().is_zero());
    let mut bytes = [0u8; 32];
    bytes[31] = 1;
    let k = Pubkey::new_from_array(bytes);
    assert!(!k.is_zero());
    assert_eq!(k.to_bytes(), bytes.to_vec());
    assert_eq!(Pubkey::from_slice(&bytes), k);
}
