use senswap::error::{AppError, ProcessError};
use senswap::instruction::AppInstruction;
use senswap::mint::Mint;
use senswap::pool::{Pool, PoolState, POOL_LEN};
use senswap::pubkey::Pubkey;

fn key(n: u8) -> Pubkey {
    Pubkey::new_from_array([n; 32])
}

fn sample_pool() -> Pool {
    Pool {
        owner: key(1),
        state: PoolState::Initialized,
        mint_lpt: key(2),
        vault: key(3),
        mint_s: key(4),
        treasury_s: key(5),
        reserve_s: 1_000_000_000,
        mint_a: key(6),
        treasury_a: key(7),
        reserve_a: 0x0102_0304_0506_0708,
        mint_b: key(8),
        treasury_b: key(9),
        reserve_b: u64::MAX,
    }
}

#[test]
fn pool_pack_round_trip() {
    let pool = sample_pool();
    let bytes = pool.pack();
    assert_eq!(bytes.len(), POOL_LEN);
    assert_eq!(bytes.len(), 313);
    assert_eq!(Pool::unpack_unchecked(&bytes), Ok(pool));
    assert_eq!(Pool::unpack(&bytes), Ok(pool));
}

#[test]
fn pool_layout_offsets() {
    let bytes = sample_pool().pack();
    assert_eq!(bytes[0], 1);
    assert_eq!(bytes[32], 1);
    assert_eq!(bytes[33], 2);
    assert_eq!(&bytes[161..169], &1_000_000_000u64.to_le_bytes());
    assert_eq!(&bytes[233..241], &[8, 7, 6, 5, 4, 3, 2, 1]);
    assert_eq!(bytes[312], 0xff);
}

#[test]
fn pool_bad_state_byte() {
    let mut bytes = sample_pool().pack();
    bytes[32] = 7;
    assert_eq!(Pool::unpack_unchecked(&bytes), Err(ProcessError::InvalidAccountData));
}

#[test]
fn pool_bad_length() {
    let bytes = sample_pool().pack();
    assert_eq!(Pool::unpack_unchecked(&bytes[..312]), Err(ProcessError::InvalidAccountData));
}

#[test]
fn pool_uninitialized() {
    let bytes = vec![0u8; 313];
    let pool = Pool::unpack_unchecked(&bytes).unwrap();
    assert!(!pool.is_initialized());
    assert_eq!(Pool::unpack(&bytes), Err(ProcessError::UninitializedAccount));
}

#[test]
fn pool_state_flags() {
    let mut pool = sample_pool();
    assert!(pool.is_initialized());
    assert!(!pool.is_frozen());
    pool.state = PoolState::Frozen;
    assert!(pool.is_frozen());
    assert_eq!(PoolState::default(), PoolState::Uninitialized);
}

#[test]
fn pool_get_reserve() {
    let pool = sample_pool();
    assert_eq!(pool.get_reserve(&key(5)), Some((0, 1_000_000_000)));
    assert_eq!(pool.get_reserve(&key(7)), Some((1, 0x0102_0304_0506_0708)));
    assert_eq!(pool.get_reserve(&key(9)), Some((2, u64::MAX)));
    assert_eq!(pool.get_reserve(&key(4)), None);
}

#[test]
fn unpack_every_instruction() {
    let mut data = vec![0u8];
    data.extend_from_slice(&1u64.to_le_bytes());
    data.extend_from_slice(&2u64.to_le_bytes());
    data.extend_from_slice(&3u64.to_le_bytes());
    assert_eq!(
        AppInstruction::unpack(&data),
        Ok(AppInstruction::InitializePool { reserve_s: 1, reserve_a: 2, reserve_b: 3 })
    );
    data[0] = 1;
    assert_eq!(
        AppInstruction::unpack(&data),
        Ok(AppInstruction::AddLiquidity { delta_s: 1, delta_a: 2, delta_b: 3 })
    );
    let mut data = vec![2u8];
    data.extend_from_slice(&9u64.to_le_bytes());
    assert_eq!(AppInstruction::unpack(&data), Ok(AppInstruction::RemoveLiquidity { lpt: 9 }));
    data[0] = 6;
    assert_eq!(AppInstruction::unpack(&data), Ok(AppInstruction::Earn { amount: 9 }));
    let mut data = vec![3u8];
    data.extend_from_slice(&100u64.to_le_bytes());
    data.extend_from_slice(&7u64.to_le_bytes());
    assert_eq!(AppInstruction::unpack(&data), Ok(AppInstruction::Swap { amount: 100, limit: 7 }));
    assert_eq!(AppInstruction::unpack(&[4]), Ok(AppInstruction::FreezePool));
    assert_eq!(AppInstruction::unpack(&[5]), Ok(AppInstruction::ThawPool));
    assert_eq!(AppInstruction::unpack(&[7]), Ok(AppInstruction::TransferPoolOwnership));
}

#[test]
fn unpack_rejects_bad_payloads() {
    assert_eq!(AppInstruction::unpack(&[]), Err(AppError::InvalidInstruction));
    assert_eq!(AppInstruction::unpack(&[8]), Err(AppError::InvalidInstruction));
    assert_eq!(AppInstruction::unpack(&[2, 1, 2, 3]), Err(AppError::InvalidInstruction));
    assert_eq!(AppInstruction::unpack(&[4, 0]), Err(AppError::InvalidInstruction));
    let mut long = vec![2u8];
    long.extend_from_slice(&[0u8; 9]);
    assert_eq!(AppInstruction::unpack(&long), Err(AppError::InvalidInstruction));
}

#[test]
fn error_codes_are_stable() {
    assert_eq!(AppError::InvalidInstruction.code(), 0);
    assert_eq!(AppError::InvalidOwner.code(), 1);
    assert_eq!(AppError::Overflow.code(), 4);
    assert_eq!(AppError::FrozenPool.code(), 6);
    assert_eq!(AppError::ExceedLimit.code(), 10);
    assert_eq!(AppError::from_code(9), Some(AppError::InvalidMint));
    assert_eq!(AppError::from_code(11), None);
    assert_eq!(AppError::ZeroValue.message(), "Zero value");
}

#[test]
fn mint_unpack() {
    let mut data = vec![1u8, 0, 0, 0];
    data.extend_from_slice(&[7u8; 32]);
    data.extend_from_slice(&500u64.to_le_bytes());
    data.push(9);
    data.push(1);
    data.extend_from_slice(&[0u8; 36]);
    let m = Mint::unpack(&data).unwrap();
    assert_eq!(m.supply, 500);
    assert_eq!(m.decimals, 9);
    assert_eq!(m.mint_authority, Some(key(7)));
    assert_eq!(m.freeze_authority, None);
    data[45] = 0;
    assert_eq!(Mint::unpack(&data), Err(ProcessError::UninitializedAccount));
    data[45] = 2;
    assert_eq!(Mint::unpack_unchecked(&data), Err(ProcessError::InvalidAccountData));
}

#[test]
fn pubkey_xor() {
    let a = Pubkey::new_from_array([0b1100; 32]);
    let b = Pubkey::new_from_array([0b1010; 32]);
    assert_eq!(a.xor(&b), Pubkey::new_from_array([0b0110; 32]));
    assert_eq!(a.xor(&a), Pubkey::new_from_array([0; 32]));
}
