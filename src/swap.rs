use vstd::prelude::*;
use vstd::bytes::*;
use crate::region::extend_bytes;

verus! {

/// Discriminant of a swap on the token-swap program.
pub const OFFICIAL_SWAP_TAG: u8 = 1;

/// Discriminant of a swap on the stable-swap venue.
pub const SABER_SWAP_TAG: u8 = 1;

/// Discriminant of a swap on the AMM venue.
pub const RAYDIUM_SWAP_TAG: u8 = 9;

/// Discriminant of a deposit on the token-swap program and on the stable-swap venue.
pub const OFFICIAL_DEPOSIT_TAG: u8 = 2;

/// Discriminant of a deposit on the AMM venue.
pub const RAYDIUM_DEPOSIT_TAG: u8 = 3;

/// Discriminant of a withdrawal on the token-swap program and on the stable-swap venue.
pub const OFFICIAL_WITHDRAW_TAG: u8 = 3;

/// Discriminant of a withdrawal on the AMM venue.
pub const RAYDIUM_WITHDRAW_TAG: u8 = 4;

/// A payload for a call to an outside venue: a discriminant byte, then fixed
/// little-endian fields.
pub trait Data: Sized {
    /// The payload's bytes.
    spec fn spec_to_vec(&self) -> Seq<u8>;

    fn to_vec(self) -> (r: Vec<u8>)
        ensures
            r@ == self.spec_to_vec(),
    ;
}

/// The venues that payloads are formatted for.
#[derive(Debug, Clone, Copy, PartialEq, Eq, Structural)]
pub enum Swap {
    Solana,
    Raydium,
    Saber,
}

/// The swap discriminant of a venue.
pub open spec fn spec_swap_tag(venue: Swap) -> u8 {
    match venue {
        Swap::Solana => OFFICIAL_SWAP_TAG,
        Swap::Raydium => RAYDIUM_SWAP_TAG,
        Swap::Saber => SABER_SWAP_TAG,
    }
}

impl Swap {
    /// The swap discriminant of this venue.
    pub fn swap_tag(&self) -> (r: u8)
        ensures
            r == spec_swap_tag(*self),
    {
        match self {
            Swap::Solana => OFFICIAL_SWAP_TAG,
            Swap::Raydium => RAYDIUM_SWAP_TAG,
            Swap::Saber => SABER_SWAP_TAG,
        }
    }
}

/// Discriminant byte followed by little-endian `u64` fields.
pub open spec fn tagged_u64s(tag: u8, fields: Seq<u64>) -> Seq<u8> {
    seq![tag] + Seq::new(8 * fields.len(), |i: int| spec_u64_to_le_bytes(fields[i / 8])[i % 8])
}

/// The encoding of `fields` is the fields' encodings one after the other.
proof fn lemma_tagged(tag: u8, fields: Seq<u64>, bytes: Seq<u8>)
    requires
        bytes.len() == 1 + 8 * fields.len(),
        bytes[0] == tag,
        forall|k: int| 0 <= k < fields.len() ==> #[trigger] bytes.subrange(1 + 8 * k, 9 + 8 * k)
            == spec_u64_to_le_bytes(fields[k]),
    ensures
        bytes == tagged_u64s(tag, fields),
{
    lemma_auto_spec_u64_to_from_le_bytes();
    let t = tagged_u64s(tag, fields);
    assert forall|i: int| 1 <= i < bytes.len() implies bytes[i] == t[i] by {
        let k = (i - 1) / 8;
        assert(bytes.subrange(1 + 8 * k, 9 + 8 * k)[(i - 1) % 8] == bytes[i]);
    }
    assert(bytes =~= t);
}

/// Encodes a discriminant and three fields.
fn tagged3(tag: u8, a: u64, b: u64, c: u64) -> (r: Vec<u8>)
    ensures
        r@ == tagged_u64s(tag, seq![a, b, c]),
{
    let mut buf: Vec<u8> = Vec::new();
    buf.push(tag);
    extend_bytes(&mut buf, &u64_to_le_bytes(a));
    extend_bytes(&mut buf, &u64_to_le_bytes(b));
    extend_bytes(&mut buf, &u64_to_le_bytes(c));
    proof {
        let f = seq![a, b, c];
        assert(buf@.subrange(1, 9) =~= spec_u64_to_le_bytes(f[0]));
        assert(buf@.subrange(9, 17) =~= spec_u64_to_le_bytes(f[1]));
        assert(buf@.subrange(17, 25) =~= spec_u64_to_le_bytes(f[2]));
        lemma_tagged(tag, f, buf@);
    }
    buf
}

/// A swap: the amount put in and the least accepted out.
#[derive(Debug, Clone, Copy, PartialEq, Eq)]
pub struct SwapData {
    /// Discriminant of the venue's swap operation.
    pub tag: u8,
    /// Source amount to transfer; the output follows the exchange rate.
    pub amount_in: u64,
    /// Least destination amount accepted, against slippage.
    pub minimum_amount_out: u64,
}

impl SwapData {
    /// A swap payload for `venue`.
    pub fn new(venue: Swap, amount_in: u64, minimum_amount_out: u64) -> (r: SwapData)
        ensures
            r == (SwapData { tag: spec_swap_tag(venue), amount_in, minimum_amount_out }),
    {
        SwapData { tag: venue.swap_tag(), amount_in, minimum_amount_out }
    }
}

impl Data for SwapData {
    open spec fn spec_to_vec(&self) -> Seq<u8> {
        tagged_u64s(self.tag, seq![self.amount_in, self.minimum_amount_out])
    }

    fn to_vec(self) -> (r: Vec<u8>) {
        let mut buf: Vec<u8> = Vec::new();
        buf.push(self.tag);
        extend_bytes(&mut buf, &u64_to_le_bytes(self.amount_in));
        extend_bytes(&mut buf, &u64_to_le_bytes(self.minimum_amount_out));
        proof {
            let f = seq![self.amount_in, self.minimum_amount_out];
            assert(buf@.subrange(1, 9) =~= spec_u64_to_le_bytes(f[0]));
            assert(buf@.subrange(9, 17) =~= spec_u64_to_le_bytes(f[1]));
            lemma_tagged(self.tag, f, buf@);
        }
        buf
    }
}

/// A deposit on the token-swap program.
#[derive(Debug, Clone, Copy, PartialEq, Eq)]
pub struct OfficialDepositData {
    /// Pool tokens to mint; the token amounts follow the pool's rate.
    pub pool_token_amount: u64,
    /// Most token A to deposit, against slippage.
    pub maximum_token_a_amount: u64,
    /// Most token B to deposit, against slippage.
    pub maximum_token_b_amount: u64,
}

impl Data for OfficialDepositData {
    open spec fn spec_to_vec(&self) -> Seq<u8> {
        tagged_u64s(
            OFFICIAL_DEPOSIT_TAG,
            seq![self.pool_token_amount, self.maximum_token_a_amount, self.maximum_token_b_amount],
        )
    }

    fn to_vec(self) -> (r: Vec<u8>) {
        tagged3(OFFICIAL_DEPOSIT_TAG, self.pool_token_amount, self.maximum_token_a_amount, self.maximum_token_b_amount)
    }
}

/// A deposit on the stable-swap venue.
#[derive(Debug, Clone, Copy, PartialEq, Eq)]
pub struct SaberDepositData {
    /// Token A to deposit.
    pub token_a_amount: u64,
    /// Token B to deposit.
    pub token_b_amount: u64,
    /// Least pool tokens to mint, against slippage.
    pub min_mint_amount: u64,
}

impl Data for SaberDepositData {
    open spec fn spec_to_vec(&self) -> Seq<u8> {
        tagged_u64s(OFFICIAL_DEPOSIT_TAG, seq![self.token_a_amount, self.token_b_amount, self.min_mint_amount])
    }

    fn to_vec(self) -> (r: Vec<u8>) {
        tagged3(OFFICIAL_DEPOSIT_TAG, self.token_a_amount, self.token_b_amount, self.min_mint_amount)
    }
}

/// A deposit on the AMM venue.
#[derive(Debug, Clone, Copy, Default, PartialEq, Eq)]
pub struct RaydiumDepositData {
    pub max_coin_amount: u64,
    pub max_pc_amount: u64,
    pub base_side: u64,
}

impl Data for RaydiumDepositData {
    open spec fn spec_to_vec(&self) -> Seq<u8> {
        tagged_u64s(RAYDIUM_DEPOSIT_TAG, seq![self.max_coin_amount, self.max_pc_amount, self.base_side])
    }

    fn to_vec(self) -> (r: Vec<u8>) {
        tagged3(RAYDIUM_DEPOSIT_TAG, self.max_coin_amount, self.max_pc_amount, self.base_side)
    }
}

/// A withdrawal on the token-swap program or the stable-swap venue.
#[derive(Debug, Clone, Copy, PartialEq, Eq)]
pub struct OfficialWithdrawData {
    /// Pool tokens to burn; the tokens returned follow the pool's share.
    pub pool_token_amount: u64,
    /// Least token A to receive, against slippage.
    pub minimum_token_a_amount: u64,
    /// Least token B to receive, against slippage.
    pub minimum_token_b_amount: u64,
}

/// A withdrawal on the stable-swap venue has the token-swap program's layout.
pub type SaberWithdrawData = OfficialWithdrawData;

impl Data for OfficialWithdrawData {
    open spec fn spec_to_vec(&self) -> Seq<u8> {
        tagged_u64s(
            OFFICIAL_WITHDRAW_TAG,
            seq![self.pool_token_amount, self.minimum_token_a_amount, self.minimum_token_b_amount],
        )
    }

    fn to_vec(self) -> (r: Vec<u8>) {
        tagged3(OFFICIAL_WITHDRAW_TAG, self.pool_token_amount, self.minimum_token_a_amount, self.minimum_token_b_amount)
    }
}

/// A withdrawal on the AMM venue.
#[derive(Debug, Clone, Copy, Default, PartialEq, Eq)]
pub struct RaydiumWithdrawData {
    /// Pool tokens to burn.
    pub amount: u64,
}

impl Data for RaydiumWithdrawData {
    open spec fn spec_to_vec(&self) -> Seq<u8> {
        tagged_u64s(RAYDIUM_WITHDRAW_TAG, seq![self.amount])
    }

    fn to_vec(self) -> (r: Vec<u8>) {
        let mut buf: Vec<u8> = Vec::new();
        buf.push(RAYDIUM_WITHDRAW_TAG);
        extend_bytes(&mut buf, &u64_to_le_bytes(self.amount));
        proof {
            let f = seq![self.amount];
            assert(buf@.subrange(1, 9) =~= spec_u64_to_le_bytes(f[0]));
            lemma_tagged(RAYDIUM_WITHDRAW_TAG, f, buf@);
        }
        buf
    }
}

} // verus!
