use sol_sil::error::SilError;
use sol_sil::instruction::{QueueType, SilInstruction};
use sol_sil::swap::{
    Data, OfficialDepositData, OfficialWithdrawData, RaydiumDepositData, RaydiumWithdrawData,
    SaberDepositData, SaberWithdrawData, Swap, SwapData,
};

#[test]
fn instruction_round_trips() {
    let all = [
        SilInstruction::InitAdmin,
        SilInstruction::InitQueue0(QueueType::LP),
        SilInstruction::InitQueue1(QueueType::Pending),
        SilInstruction::InitMatchPair(5, u64::MAX),
        SilInstruction::InitUserIndex0,
        SilInstruction::InitUserIndex1,
        SilInstruction::Stake(true, 77),
        SilInstruction::Stake(false, 0),
        SilInstruction::Untake(3, 1 << 40),
    ];
    for ins in all.iter() {
        assert_eq!(SilInstruction::unpack(&ins.pack()), Ok(*ins));
    }
}

#[test]
fn instruction_exact_bytes() {
    assert_eq!(SilInstruction::InitAdmin.pack(), vec![0]);
    assert_eq!(SilInstruction::InitQueue1(QueueType::Priority).pack(), vec![2, 1]);
    assert_eq!(
        SilInstruction::Stake(true, 0x0102).pack(),
        vec![6, 1, 2, 1, 0, 0, 0, 0, 0, 0]
    );
    assert_eq!(
        SilInstruction::unpack(&[3, 1, 0, 0, 0, 0, 0, 0, 0, 2, 0, 0, 0, 0, 0, 0, 0]),
        Ok(SilInstruction::InitMatchPair(1, 2))
    );
    assert_eq!(SilInstruction::unpack(&[4, 9, 9]), Ok(SilInstruction::InitUserIndex0));
    assert_eq!(u8::from(QueueType::Pending), 2);
    assert_eq!(QueueType::from_u8(1), Some(QueueType::Priority));
    assert_eq!(QueueType::from_u8(3), None);
}

#[test]
fn instruction_errors() {
    let e = Err(SilError::InstructionUnpackError);
    assert_eq!(SilInstruction::unpack(&[]), e);
    assert_eq!(SilInstruction::unpack(&[8]), e);
    assert_eq!(SilInstruction::unpack(&[1]), e);
    assert_eq!(SilInstruction::unpack(&[1, 3]), e);
    assert_eq!(SilInstruction::unpack(&[3, 1, 0, 0, 0, 0, 0, 0, 0, 2]), e);
    assert_eq!(SilInstruction::unpack(&[6, 2, 0, 0, 0, 0, 0, 0, 0, 0]), e);
    assert_eq!(SilInstruction::unpack(&[6, 1, 0, 0]), e);
    assert_eq!(SilInstruction::unpack(&[7, 0, 0, 0, 0, 0, 0, 0, 0]), e);
}

#[test]
fn swap_payloads() {
    let s = SwapData::new(Swap::Raydium, 0x10, 0x20);
    assert_eq!(
        s.to_vec(),
        vec![9, 0x10, 0, 0, 0, 0, 0, 0, 0, 0x20, 0, 0, 0, 0, 0, 0, 0]
    );
    assert_eq!(SwapData::new(Swap::Saber, 1, 2).to_vec()[0], 1);
    assert_eq!(SwapData::new(Swap::Solana, 1, 2).to_vec()[0], 1);
    let d = OfficialDepositData {
        pool_token_amount: 1,
        maximum_token_a_amount: 2,
        maximum_token_b_amount: 3,
    };
    let v = d.to_vec();
    assert_eq!(v.len(), 25);
    assert_eq!((v[0], v[1], v[9], v[17]), (2, 1, 2, 3));
    let sd = SaberDepositData { token_a_amount: 4, token_b_amount: 5, min_mint_amount: 6 };
    let v = sd.to_vec();
    assert_eq!((v[0], v[1], v[9], v[17]), (2, 4, 5, 6));
    let rd = RaydiumDepositData { max_coin_amount: 7, max_pc_amount: 8, base_side: 0 };
    let v = rd.to_vec();
    assert_eq!((v[0], v[1], v[9], v[17]), (3, 7, 8, 0));
    let w: SaberWithdrawData = OfficialWithdrawData {
        pool_token_amount: 9,
        minimum_token_a_amount: 10,
        minimum_token_b_amount: 11,
    };
    let v = w.to_vec();
    assert_eq!((v[0], v[1], v[9], v[17]), (3, 9, 10, 11));
    assert_eq!(
        RaydiumWithdrawData { amount: 0x1234 }.to_vec(),
        vec![4, 0x34, 0x12, 0, 0, 0, 0, 0, 0]
    );
}
