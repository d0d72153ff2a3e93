use vstd::prelude::*;
use vstd::bytes::*;
use vstd::slice::slice_subrange;
use crate::pubkey::{Pubkey, pubkey_of, lemma_pubkey_of, PUBKEY_LEN};
use crate::region::extend_bytes;
use crate::version::Packer;

verus! {

/// Encoded length of a [`UserStake`]: identifier, amount, rate, lp per token, round.
pub const USER_STAKE_LEN: usize = 72;

/// One staked position, the element stored in ring and stack containers.
#[derive(Debug, Clone, Copy, PartialEq, Eq)]
pub struct UserStake {
    pub token_account: Pubkey,
    pub amount: u64,
    pub per_rate: u128,
    pub lp_per_token: u64,
    pub round: u64,
}

impl Packer for UserStake {
    open spec fn spec_len() -> nat {
        USER_STAKE_LEN as nat
    }

    open spec fn spec_pack(&self) -> Seq<u8> {
        self.token_account@ + spec_u64_to_le_bytes(self.amount) + spec_u128_to_le_bytes(self.per_rate)
            + spec_u64_to_le_bytes(self.lp_per_token) + spec_u64_to_le_bytes(self.round)
    }

    open spec fn spec_unpack(b: Seq<u8>) -> UserStake {
        UserStake {
            token_account: pubkey_of(b.subrange(0, 32)),
            amount: spec_u64_from_le_bytes(b.subrange(32, 40)),
            per_rate: spec_u128_from_le_bytes(b.subrange(40, 56)),
            lp_per_token: spec_u64_from_le_bytes(b.subrange(56, 64)),
            round: spec_u64_from_le_bytes(b.subrange(64, 72)),
        }
    }

    fn packed_len() -> (r: usize) {
        USER_STAKE_LEN
    }

    fn pack(&self) -> (r: Vec<u8>) {
        proof {
            lemma_auto_spec_u64_to_from_le_bytes();
            lemma_auto_spec_u128_to_from_le_bytes();
        }
        let mut out = self.token_account.to_bytes();
        extend_bytes(&mut out, &u64_to_le_bytes(self.amount));
        extend_bytes(&mut out, &u128_to_le_bytes(self.per_rate));
        extend_bytes(&mut out, &u64_to_le_bytes(self.lp_per_token));
        extend_bytes(&mut out, &u64_to_le_bytes(self.round));
        out
    }

    fn unpack(b: &[u8]) -> (r: UserStake) {
        UserStake {
            token_account: Pubkey::from_slice(slice_subrange(b, 0, PUBKEY_LEN)),
            amount: u64_from_le_bytes(slice_subrange(b, 32, 40)),
            per_rate: u128_from_le_bytes(slice_subrange(b, 40, 56)),
            lp_per_token: u64_from_le_bytes(slice_subrange(b, 56, 64)),
            round: u64_from_le_bytes(slice_subrange(b, 64, 72)),
        }
    }

    proof fn lemma_pack_unpack(v: UserStake) {
        lemma_auto_spec_u64_to_from_le_bytes();
        lemma_auto_spec_u128_to_from_le_bytes();
        lemma_pubkey_of(v.token_account);
        let b = v.spec_pack();
        assert(b.subrange(0, 32) =~= v.token_account@);
        assert(b.subrange(32, 40) =~= spec_u64_to_le_bytes(v.amount));
        assert(b.subrange(40, 56) =~= spec_u128_to_le_bytes(v.per_rate));
        assert(b.subrange(56, 64) =~= spec_u64_to_le_bytes(v.lp_per_token));
        assert(b.subrange(64, 72) =~= spec_u64_to_le_bytes(v.round));
    }
}

} // verus!
