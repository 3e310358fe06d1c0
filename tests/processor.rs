use senswap::error::{AppError, ProcessError};
use senswap::pool::{Pool, PoolState};
use senswap::processor::{derive_authority, AccountInfo, Effects, Processor};
use senswap::pubkey::Pubkey;
use senswap::token::ISPLT;

fn key(n: u8) -> Pubkey {
    Pubkey::new_from_array([n; 32])
}

const PROGRAM: u8 = 100;
const POOL: u8 = 1;
const OWNER: u8 = 2;
const LPT_MINT: u8 = 3;
const VAULT: u8 = 4;
const TREASURY_S: u8 = 20;
const TREASURY_A: u8 = 21;
const TREASURY_B: u8 = 22;
const TREASURER: u8 = 9;
const TOKEN_PROGRAM: u8 = 99;

fn account(k: u8, owner: u8, is_signer: bool, data: Vec<u8>) -> AccountInfo {
    AccountInfo { key: key(k), owner: key(owner), is_signer, data }
}

fn mint_data(supply: u64, decimals: u8, initialized: bool) -> Vec<u8> {
    let mut data = vec![1u8, 0, 0, 0];
    data.extend_from_slice(&[TREASURER; 32]);
    data.extend_from_slice(&supply.to_le_bytes());
    data.push(decimals);
    data.push(initialized as u8);
    data.extend_from_slice(&[0u8; 36]);
    data
}

fn live_pool() -> Pool {
    Pool {
        owner: key(OWNER),
        state: PoolState::Initialized,
        mint_lpt: key(LPT_MINT),
        vault: key(VAULT),
        mint_s: key(30),
        treasury_s: key(TREASURY_S),
        reserve_s: 1_000_000_000,
        mint_a: key(31),
        treasury_a: key(TREASURY_A),
        reserve_a: 2_000_000_000,
        mint_b: key(32),
        treasury_b: key(TREASURY_B),
        reserve_b: 4_000_000_000,
    }
}

fn swap_accounts(pool: &Pool, bid: u8, ask: u8, payer_signs: bool) -> Vec<AccountInfo> {
    vec![
        account(10, 0, payer_signs, vec![]),
        account(POOL, PROGRAM, false, pool.pack()),
        account(VAULT, 0, false, vec![]),
        account(11, 0, false, vec![]),
        account(bid, 0, false, vec![]),
        account(12, 0, false, vec![]),
        account(ask, 0, false, vec![]),
        account(TREASURY_S, 0, false, vec![]),
        account(TREASURER, 0, false, vec![]),
        account(TOKEN_PROGRAM, 0, false, vec![]),
    ]
}

fn liquidity_accounts(pool: &Pool, supply: u64) -> Vec<AccountInfo> {
    vec![
        account(OWNER, 0, true, vec![]),
        account(POOL, PROGRAM, false, pool.pack()),
        account(13, 0, false, vec![]),
        account(LPT_MINT, 0, false, mint_data(supply, 9, true)),
        account(14, 0, false, vec![]),
        account(TREASURY_S, 0, false, vec![]),
        account(15, 0, false, vec![]),
        account(TREASURY_A, 0, false, vec![]),
        account(16, 0, false, vec![]),
        account(TREASURY_B, 0, false, vec![]),
        account(TREASURER, 0, false, vec![]),
        account(TOKEN_PROGRAM, 0, false, vec![]),
    ]
}

fn written_pool(e: &Effects) -> Pool {
    Pool::unpack(e.pool_data.as_ref().unwrap()).unwrap()
}

fn transfer_amounts(e: &Effects) -> Vec<u64> {
    e.calls
        .iter()
        .filter(|c| c.instruction.data.first() == Some(&3))
        .map(|c| u64::from_le_bytes(c.instruction.data[1..9].try_into().unwrap()))
        .collect()
}

#[test]
fn initialize_then_first_swap() {
    let pool = live_pool();
    let accounts = swap_accounts(&pool, TREASURY_A, TREASURY_B, true);
    let e = Processor::swap(100_000_000, 0, &key(PROGRAM), &accounts, &Some(key(TREASURER))).unwrap();
    let after = written_pool(&e);
    assert_eq!(after.reserve_a, 2_100_000_000);
    assert_eq!(after.reserve_b, 3_809_999_999 + 95_238);
    assert_eq!(after.reserve_s, 999_975_065);
    assert_eq!(transfer_amounts(&e), vec![100_000_000, 189_904_763, 24_935]);
    assert_eq!(
        e.calls[0].instruction,
        ISPLT::transfer(100_000_000, key(11), key(TREASURY_A), key(10), key(TOKEN_PROGRAM))
    );
    assert!(!e.calls[0].signed);
    assert!(e.calls[1].signed && e.calls[2].signed);
    assert_eq!(e.calls[2].instruction.accounts[1].pubkey, key(VAULT));
}

#[test]
fn exempt_swap_keeps_fee_in_s() {
    let pool = live_pool();
    let accounts = swap_accounts(&pool, TREASURY_A, TREASURY_S, true);
    let e = Processor::swap(100_000_000, 0, &key(PROGRAM), &accounts, &Some(key(TREASURER))).unwrap();
    let after = written_pool(&e);
    assert_eq!(after.reserve_a, 2_100_000_000);
    assert_eq!(after.reserve_s, 952_499_999);
    assert_eq!(after.reserve_b, 4_000_000_000);
    assert_eq!(transfer_amounts(&e), vec![100_000_000, 47_500_001]);
}

#[test]
fn swap_exceeding_limit_fails() {
    let pool = live_pool();
    let accounts = swap_accounts(&pool, TREASURY_A, TREASURY_B, true);
    let r = Processor::swap(100_000_000, 200_000_000, &key(PROGRAM), &accounts, &Some(key(TREASURER)));
    assert_eq!(r.unwrap_err(), ProcessError::App(AppError::ExceedLimit));
}

#[test]
fn swap_same_treasury_is_no_op() {
    let pool = live_pool();
    let accounts = swap_accounts(&pool, TREASURY_A, TREASURY_A, true);
    let e = Processor::swap(5, 0, &key(PROGRAM), &accounts, &Some(key(TREASURER))).unwrap();
    assert!(e.pool_data.is_none());
    assert!(e.calls.is_empty());
}

#[test]
fn swap_checks() {
    let pool = live_pool();
    let accounts = swap_accounts(&pool, TREASURY_A, TREASURY_B, false);
    let r = Processor::swap(5, 0, &key(PROGRAM), &accounts, &Some(key(TREASURER)));
    assert_eq!(r.unwrap_err(), ProcessError::App(AppError::InvalidOwner));
    let accounts = swap_accounts(&pool, TREASURY_A, TREASURY_B, true);
    let r = Processor::swap(0, 0, &key(PROGRAM), &accounts, &Some(key(TREASURER)));
    assert_eq!(r.unwrap_err(), ProcessError::App(AppError::ZeroValue));
    let r = Processor::swap(5, 0, &key(PROGRAM), &accounts, &Some(key(77)));
    assert_eq!(r.unwrap_err(), ProcessError::InvalidSeeds);
    let r = Processor::swap(5, 0, &key(PROGRAM), &accounts, &None);
    assert_eq!(r.unwrap_err(), ProcessError::InvalidSeeds);
    let r = Processor::swap(5, 0, &key(55), &accounts, &Some(key(TREASURER)));
    assert_eq!(r.unwrap_err(), ProcessError::App(AppError::IncorrectProgramId));
    let r = Processor::swap(5, 0, &key(PROGRAM), &accounts[..9], &Some(key(TREASURER)));
    assert_eq!(r.unwrap_err(), ProcessError::NotEnoughAccountKeys);
    let accounts = swap_accounts(&pool, 44, TREASURY_B, true);
    let r = Processor::swap(5, 0, &key(PROGRAM), &accounts, &Some(key(TREASURER)));
    assert_eq!(r.unwrap_err(), ProcessError::App(AppError::UnmatchedPool));
}

#[test]
fn add_then_remove() {
    let pool = live_pool();
    let accounts = liquidity_accounts(&pool, 1_000_000_000);
    let e = Processor::add_liquidity(
        100_000_000,
        200_000_000,
        400_000_000,
        &key(PROGRAM),
        &accounts,
        &Some(key(TREASURER)),
    )
    .unwrap();
    let after = written_pool(&e);
    assert_eq!((after.reserve_s, after.reserve_a, after.reserve_b), (1_100_000_000, 2_200_000_000, 4_400_000_000));
    assert_eq!(transfer_amounts(&e), vec![100_000_000, 200_000_000, 400_000_000]);
    let mint = e.calls.last().unwrap();
    assert_eq!(mint.instruction.data[0], 7);
    let lpt = u64::from_le_bytes(mint.instruction.data[1..9].try_into().unwrap());
    assert_eq!(lpt, 99_999_998);

    let accounts = liquidity_accounts(&after, 1_000_000_000 + lpt);
    let e = Processor::remove_liquidity(lpt, &key(PROGRAM), &accounts, &Some(key(TREASURER))).unwrap();
    let out = transfer_amounts(&e);
    assert_eq!(out, vec![99_999_998, 199_999_996, 399_999_992]);
    assert!(out[0] <= 100_000_000 && out[1] <= 200_000_000 && out[2] <= 400_000_000);
    let end = written_pool(&e);
    assert_eq!(end.reserve_s, 1_100_000_000 - 99_999_998);
    assert_eq!(end.state, PoolState::Initialized);
}

#[test]
fn remove_is_pro_rata() {
    let pool = live_pool();
    let accounts = liquidity_accounts(&pool, 3_000_000_000);
    let e = Processor::remove_liquidity(1_000_000_000, &key(PROGRAM), &accounts, &Some(key(TREASURER))).unwrap();
    assert_eq!(transfer_amounts(&e), vec![333_333_333, 666_666_666, 1_333_333_333]);
    assert_eq!(e.calls[0].instruction.data[0], 8);
}

#[test]
fn remove_everything_freezes() {
    let pool = live_pool();
    let accounts = liquidity_accounts(&pool, 1_000_000_000);
    let e = Processor::remove_liquidity(1_000_000_000, &key(PROGRAM), &accounts, &Some(key(TREASURER))).unwrap();
    let end = written_pool(&e);
    assert_eq!((end.reserve_s, end.reserve_a, end.reserve_b), (0, 0, 0));
    assert_eq!(end.state, PoolState::Frozen);
}

#[test]
fn liquidity_errors() {
    let pool = live_pool();
    let accounts = liquidity_accounts(&pool, 1_000_000_000);
    let r = Processor::add_liquidity(0, 0, 0, &key(PROGRAM), &accounts, &Some(key(TREASURER)));
    assert_eq!(r.unwrap_err(), ProcessError::App(AppError::ZeroValue));
    let r = Processor::remove_liquidity(0, &key(PROGRAM), &accounts, &Some(key(TREASURER)));
    assert_eq!(r.unwrap_err(), ProcessError::App(AppError::ZeroValue));
    let r = Processor::remove_liquidity(2_000_000_000, &key(PROGRAM), &accounts, &Some(key(TREASURER)));
    assert_eq!(r.unwrap_err(), ProcessError::App(AppError::Overflow));
    let mut other = live_pool();
    other.treasury_b = key(60);
    let accounts = liquidity_accounts(&other, 1_000_000_000);
    let r = Processor::add_liquidity(1, 0, 0, &key(PROGRAM), &accounts, &Some(key(TREASURER)));
    assert_eq!(r.unwrap_err(), ProcessError::App(AppError::InvalidOwner));
    let r = Processor::remove_liquidity(1, &key(PROGRAM), &accounts, &Some(key(TREASURER)));
    assert_eq!(r.unwrap_err(), ProcessError::App(AppError::UnmatchedPool));
}

#[test]
fn frozen_guards() {
    let pool = live_pool();
    let owner_accounts = vec![account(OWNER, 0, true, vec![]), account(POOL, PROGRAM, false, pool.pack())];
    let e = Processor::freeze_pool(&key(PROGRAM), &owner_accounts).unwrap();
    let frozen = written_pool(&e);
    assert_eq!(frozen.state, PoolState::Frozen);

    let accounts = swap_accounts(&frozen, TREASURY_A, TREASURY_B, true);
    let r = Processor::swap(100_000_000, 0, &key(PROGRAM), &accounts, &Some(key(TREASURER)));
    assert_eq!(r.unwrap_err(), ProcessError::App(AppError::FrozenPool));

    let accounts = liquidity_accounts(&frozen, 1_000_000_000);
    let r = Processor::remove_liquidity(5, &key(PROGRAM), &accounts, &Some(key(TREASURER)));
    assert_eq!(r.unwrap_err(), ProcessError::App(AppError::FrozenPool));
    let added = Processor::add_liquidity(5, 0, 0, &key(PROGRAM), &accounts, &Some(key(TREASURER)));
    assert!(added.is_ok());

    let earn_accounts = vec![
        account(OWNER, 0, true, vec![]),
        account(POOL, PROGRAM, false, frozen.pack()),
        account(VAULT, 0, false, vec![]),
        account(17, 0, false, vec![]),
        account(TREASURER, 0, false, vec![]),
        account(TOKEN_PROGRAM, 0, false, vec![]),
    ];
    let e = Processor::earn(10, &key(PROGRAM), &earn_accounts, &Some(key(TREASURER))).unwrap();
    assert!(e.pool_data.is_none());
    assert_eq!(transfer_amounts(&e), vec![10]);

    let owner_accounts = vec![account(OWNER, 0, true, vec![]), account(POOL, PROGRAM, false, frozen.pack())];
    let e = Processor::thaw_pool(&key(PROGRAM), &owner_accounts).unwrap();
    assert_eq!(written_pool(&e).state, PoolState::Initialized);
}

#[test]
fn owner_only_instructions() {
    let pool = live_pool();
    let stranger = vec![account(50, 0, true, vec![]), account(POOL, PROGRAM, false, pool.pack())];
    let r = Processor::freeze_pool(&key(PROGRAM), &stranger);
    assert_eq!(r.unwrap_err(), ProcessError::App(AppError::InvalidOwner));
    let unsigned = vec![account(OWNER, 0, false, vec![]), account(POOL, PROGRAM, false, pool.pack())];
    let r = Processor::thaw_pool(&key(PROGRAM), &unsigned);
    assert_eq!(r.unwrap_err(), ProcessError::App(AppError::InvalidOwner));
    let handover = vec![
        account(OWNER, 0, true, vec![]),
        account(POOL, PROGRAM, false, pool.pack()),
        account(51, 0, false, vec![]),
    ];
    let e = Processor::transfer_pool_ownership(&key(PROGRAM), &handover).unwrap();
    assert_eq!(written_pool(&e).owner, key(51));
}

#[test]
fn earn_errors() {
    let pool = live_pool();
    let mut accounts = vec![
        account(OWNER, 0, true, vec![]),
        account(POOL, PROGRAM, false, pool.pack()),
        account(VAULT, 0, false, vec![]),
        account(17, 0, false, vec![]),
        account(TREASURER, 0, false, vec![]),
        account(TOKEN_PROGRAM, 0, false, vec![]),
    ];
    let r = Processor::earn(0, &key(PROGRAM), &accounts, &Some(key(TREASURER)));
    assert_eq!(r.unwrap_err(), ProcessError::App(AppError::ZeroValue));
    accounts[2] = account(61, 0, false, vec![]);
    let r = Processor::earn(1, &key(PROGRAM), &accounts, &Some(key(TREASURER)));
    assert_eq!(r.unwrap_err(), ProcessError::App(AppError::InvalidOwner));
}

fn init_accounts(program: Pubkey, pool_key: Pubkey, treasurer: Pubkey, payer_signs: bool) -> Vec<AccountInfo> {
    let proof = program.xor(&pool_key.xor(&treasurer));
    let plain = |k: u8| account(k, 0, false, vec![]);
    vec![
        account(10, 0, payer_signs, vec![]),
        account(OWNER, 0, true, vec![]),
        AccountInfo { key: pool_key, owner: program, is_signer: true, data: vec![0u8; 313] },
        plain(13),
        account(LPT_MINT, 0, false, vec![0u8; 82]),
        account(VAULT, 0, true, vec![]),
        AccountInfo { key: proof, owner: key(0), is_signer: false, data: vec![] },
        plain(14),
        account(30, 0, false, mint_data(5, 6, true)),
        plain(TREASURY_S),
        plain(15),
        plain(31),
        plain(TREASURY_A),
        plain(16),
        plain(32),
        plain(TREASURY_B),
        AccountInfo { key: treasurer, owner: key(0), is_signer: false, data: vec![] },
        plain(40),
        plain(TOKEN_PROGRAM),
        plain(41),
        plain(42),
    ]
}

#[test]
fn initialize_pool_writes_record_and_calls() {
    let program = key(PROGRAM);
    let accounts = init_accounts(program, key(POOL), key(TREASURER), true);
    let e = Processor::initialize_pool(
        1_000_000_000,
        2_000_000_000,
        4_000_000_000,
        &program,
        &accounts,
        &Some(key(TREASURER)),
    )
    .unwrap();
    let mut expected = live_pool();
    expected.owner = key(OWNER);
    assert_eq!(written_pool(&e), expected);
    assert_eq!(e.calls.len(), 10);
    assert_eq!(transfer_amounts(&e), vec![1_000_000_000, 2_000_000_000, 4_000_000_000]);
    assert_eq!(e.calls[6].instruction, ISPLT::initialize_mint(6, key(LPT_MINT), key(TREASURER), key(41), key(TOKEN_PROGRAM)));
    assert_eq!(e.calls[8].instruction, ISPLT::mint_to(1_000_000_000, key(LPT_MINT), key(13), key(TREASURER), key(TOKEN_PROGRAM)));
}

#[test]
fn initialize_pool_errors() {
    let program = key(PROGRAM);
    let accounts = init_accounts(program, key(POOL), key(TREASURER), true);
    let r = Processor::initialize_pool(0, 1, 1, &program, &accounts, &Some(key(TREASURER)));
    assert_eq!(r.unwrap_err(), ProcessError::App(AppError::ZeroValue));
    let mut bad_proof = accounts.clone();
    bad_proof[6].key = key(66);
    let r = Processor::initialize_pool(1, 1, 1, &program, &bad_proof, &Some(key(TREASURER)));
    assert_eq!(r.unwrap_err(), ProcessError::App(AppError::InvalidMint));
    let mut same_mints = accounts.clone();
    same_mints[14].key = key(31);
    let r = Processor::initialize_pool(1, 1, 1, &program, &same_mints, &Some(key(TREASURER)));
    assert_eq!(r.unwrap_err(), ProcessError::App(AppError::InvalidMint));
    let mut again = accounts.clone();
    again[2].data = live_pool().pack();
    let r = Processor::initialize_pool(1, 1, 1, &program, &again, &Some(key(TREASURER)));
    assert_eq!(r.unwrap_err(), ProcessError::App(AppError::ConstructorOnce));
    let unsigned = init_accounts(program, key(POOL), key(TREASURER), false);
    let r = Processor::initialize_pool(1, 1, 1, &program, &unsigned, &Some(key(TREASURER)));
    assert_eq!(r.unwrap_err(), ProcessError::App(AppError::InvalidOwner));
    let mut owner_unsigned = accounts.clone();
    owner_unsigned[1].is_signer = false;
    let r = Processor::initialize_pool(1, 1, 1, &program, &owner_unsigned, &Some(key(TREASURER)));
    assert_eq!(r.unwrap_err(), ProcessError::App(AppError::InvalidOwner));
}

#[test]
fn derived_authority_differs_from_pool() {
    let program = key(PROGRAM);
    let found = (1u8..=50).find_map(|n| derive_authority(&key(n), &program).map(|t| (key(n), t)));
    let (pool_key, treasurer) = found.unwrap();
    assert_ne!(treasurer, pool_key);
    assert_ne!(treasurer, program);
    assert_eq!(derive_authority(&pool_key, &program), Some(treasurer));
}

#[test]
fn process_runs_derivation_and_dispatch() {
    let program = key(PROGRAM);
    let found = (1u8..=50).find_map(|n| derive_authority(&key(n), &program).map(|t| (key(n), t)));
    let (pool_key, treasurer) = found.unwrap();
    let mut data = vec![0u8];
    for v in [1_000u64, 2_000, 4_000] {
        data.extend_from_slice(&v.to_le_bytes());
    }
    let accounts = init_accounts(program, pool_key, treasurer, true);
    let e = Processor::process(&program, &accounts, &data).unwrap();
    let pool = written_pool(&e);
    assert_eq!((pool.reserve_s, pool.reserve_a, pool.reserve_b), (1_000, 2_000, 4_000));
    let wrong = init_accounts(program, pool_key, key(TREASURER), true);
    assert_eq!(Processor::process(&program, &wrong, &data).unwrap_err(), ProcessError::InvalidSeeds);
    assert_eq!(
        Processor::process(&program, &accounts, &[9]).unwrap_err(),
        ProcessError::App(AppError::InvalidInstruction)
    );
}

#[test]
fn unsigned_first_account_is_refused() {
    let pool = live_pool();
    let program = key(PROGRAM);
    let accounts = swap_accounts(&pool, TREASURY_A, TREASURY_B, false);
    let mut data = vec![3u8];
    data.extend_from_slice(&5u64.to_le_bytes());
    data.extend_from_slice(&0u64.to_le_bytes());
    assert_eq!(Processor::process(&program, &accounts, &data).unwrap_err(), ProcessError::App(AppError::InvalidOwner));
    let unsigned = vec![account(OWNER, 0, false, vec![]), account(POOL, PROGRAM, false, pool.pack())];
    assert_eq!(Processor::process(&program, &unsigned, &[4]).unwrap_err(), ProcessError::App(AppError::InvalidOwner));
}
