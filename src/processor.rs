//! The instruction processor: authorization and consistency checks, then
//! the new pool record and the token calls that carry out the instruction.
//!
//! Nothing here moves tokens. A successful instruction yields `Effects`: the
//! pool record to write back, if any, and the token-program calls to invoke
//! in order. The host runs all of them or, when one fails, none.
use crate::error::{AppError, ProcessError};
use crate::instruction::{instruction_of, AppInstruction};
use crate::mint::{unpack_mint, unpack_mint_unchecked, Mint};
use crate::oracle::{curve_in_fee_spec, fits_u64, rake_spec, Oracle};
use crate::pool::{pool_bytes, unpack_pool, unpack_pool_unchecked, Pool, PoolState};
use crate::pubkey::{create_program_address, program_address, xor_bytes, Pubkey};
use crate::token::{
    create_associated_account_view, initialize_account_view, initialize_mint_view, mint_to_view,
    burn_view, transfer_view, Instruction, InstructionView, ISPLATA, ISPLT,
};
use vstd::prelude::*;

verus! {

/// What the processor sees of an account: its address, the program that owns
/// it, whether it signed, and its data.
#[derive(Clone, Debug)]
pub struct AccountInfo {
    pub key: Pubkey,
    pub owner: Pubkey,
    pub is_signer: bool,
    pub data: Vec<u8>,
}

/// A token-program call; `signed` calls are made with the pool's seed, so
/// that the derived authority signs.
#[derive(Clone, Debug)]
pub struct TokenCall {
    pub instruction: Instruction,
    pub signed: bool,
}

pub type CallView = (InstructionView, bool);

impl View for TokenCall {
    type V = CallView;

    open spec fn view(&self) -> CallView {
        (self.instruction@, self.signed)
    }
}

/// What a successful instruction does: the pool record to write back, if
/// any, and the token calls to make, in order.
#[derive(Clone, Debug)]
pub struct Effects {
    pub pool_data: Option<Vec<u8>>,
    pub calls: Vec<TokenCall>,
}

pub type EffectsView = (Option<Seq<u8>>, Seq<CallView>);

impl View for Effects {
    type V = EffectsView;

    open spec fn view(&self) -> EffectsView {
        (
            match self.pool_data {
                Some(d) => Some(d@),
                None => None,
            },
            self.calls@.map_values(|c: TokenCall| c@),
        )
    }
}

pub open spec fn outcome_view(r: Result<Effects, ProcessError>) -> Result<EffectsView, ProcessError> {
    match r {
        Ok(e) => Ok(e@),
        Err(e) => Err(e),
    }
}

pub open spec fn app_err(e: AppError) -> Result<EffectsView, ProcessError> {
    Err(ProcessError::App(e))
}

/// The bytes of an optional key.
pub open spec fn key_view(k: Option<Pubkey>) -> Option<Seq<u8>> {
    match k {
        Some(k) => Some(k@),
        None => None,
    }
}

/// The derived authority was computed and is the given treasurer account.
pub open spec fn seed_ok(derived: Option<Seq<u8>>, treasurer: Pubkey) -> bool {
    derived == Some(treasurer@)
}

/// `p` with the reserve of asset `code` (0 = S, 1 = A, 2 = B) set to `v`.
pub open spec fn with_reserve(p: Pool, code: u8, v: u64) -> Pool {
    if code == 0 {
        Pool { reserve_s: v, ..p }
    } else if code == 1 {
        Pool { reserve_a: v, ..p }
    } else {
        Pool { reserve_b: v, ..p }
    }
}

/// The checks that open every instruction: enough accounts, the pool
/// account owned by this program, and the given accounts signed.
pub open spec fn preamble(
    program_id: Pubkey,
    accounts: Seq<AccountInfo>,
    n: int,
    pool_at: int,
    signers: Seq<int>,
) -> Option<ProcessError> {
    if accounts.len() < n {
        Some(ProcessError::NotEnoughAccountKeys)
    } else if accounts[pool_at].owner@ != program_id@ {
        Some(ProcessError::App(AppError::IncorrectProgramId))
    } else if exists|i: int| 0 <= i < signers.len() && !accounts[signers[i]].is_signer {
        Some(ProcessError::App(AppError::InvalidOwner))
    } else {
        None
    }
}

pub open spec fn initialize_pool_outcome(
    reserve_s: u64,
    reserve_a: u64,
    reserve_b: u64,
    program_id: Pubkey,
    accounts: Seq<AccountInfo>,
    derived: Option<Seq<u8>>,
) -> Result<EffectsView, ProcessError> {
    match preamble(program_id, accounts, 21, 2, seq![0int, 1, 2, 5]) {
        Some(e) => Err(e),
        None => {
            let (payer, owner, pool_acc, lpt_acc, mint_lpt_acc, vault_acc, proof_acc) = (
                accounts[0],
                accounts[1],
                accounts[2],
                accounts[3],
                accounts[4],
                accounts[5],
                accounts[6],
            );
            let (src_s, mint_s, treasury_s, src_a, mint_a, treasury_a) = (
                accounts[7],
                accounts[8],
                accounts[9],
                accounts[10],
                accounts[11],
                accounts[12],
            );
            let (src_b, mint_b, treasury_b, treasurer, system, splt, rent, splata) = (
                accounts[13],
                accounts[14],
                accounts[15],
                accounts[16],
                accounts[17],
                accounts[18],
                accounts[19],
                accounts[20],
            );
            match (unpack_pool_unchecked(pool_acc.data@), unpack_mint_unchecked(
                mint_lpt_acc.data@,
            )) {
                (Err(e), _) => Err(e),
                (_, Err(e)) => Err(e),
                (Ok(p), Ok(m)) => {
                    if !seed_ok(derived, treasurer.key) {
                        Err(ProcessError::InvalidSeeds)
                    } else if p.spec_is_initialized() || m.is_initialized {
                        app_err(AppError::ConstructorOnce)
                    } else if proof_acc.key@ != xor_bytes(
                        program_id@,
                        xor_bytes(pool_acc.key@, treasurer.key@),
                    ) || mint_s.key@ == mint_a.key@ || mint_s.key@ == mint_b.key@ || mint_a.key@
                        == mint_b.key@ {
                        app_err(AppError::InvalidMint)
                    } else if reserve_s == 0 || reserve_a == 0 || reserve_b == 0 {
                        app_err(AppError::ZeroValue)
                    } else {
                        match unpack_mint_unchecked(mint_s.data@) {
                            Err(e) => Err(e),
                            Ok(ms) => {
                                let t = treasurer.key;
                                let new_pool = Pool {
                                    owner: owner.key,
                                    state: PoolState::Initialized,
                                    mint_lpt: mint_lpt_acc.key,
                                    vault: vault_acc.key,
                                    mint_s: mint_s.key,
                                    treasury_s: treasury_s.key,
                                    reserve_s,
                                    mint_a: mint_a.key,
                                    treasury_a: treasury_a.key,
                                    reserve_a,
                                    mint_b: mint_b.key,
                                    treasury_b: treasury_b.key,
                                    reserve_b,
                                };
                                let ata = |target: Pubkey, own: Pubkey, mint: Pubkey|
                                    create_associated_account_view(
                                        payer.key,
                                        target,
                                        own,
                                        mint,
                                        system.key,
                                        splt.key,
                                        rent.key,
                                        splata.key,
                                    );
                                Ok(
                                    (
                                        Some(pool_bytes(new_pool)),
                                        seq![
                                            (ata(treasury_s.key, t, mint_s.key), true),
                                            (transfer_view(reserve_s, src_s.key, treasury_s.key, payer.key, splt.key), false),
                                            (ata(treasury_a.key, t, mint_a.key), true),
                                            (transfer_view(reserve_a, src_a.key, treasury_a.key, payer.key, splt.key), false),
                                            (ata(treasury_b.key, t, mint_b.key), true),
                                            (transfer_view(reserve_b, src_b.key, treasury_b.key, payer.key, splt.key), false),
                                            (initialize_mint_view(ms.decimals, mint_lpt_acc.key, t, rent.key, splt.key), true),
                                            (ata(lpt_acc.key, payer.key, mint_lpt_acc.key), true),
                                            (mint_to_view(reserve_s, mint_lpt_acc.key, lpt_acc.key, t, splt.key), true),
                                            (initialize_account_view(vault_acc.key, mint_s.key, t, rent.key, splt.key), true),
                                        ],
                                    ),
                                )
                            },
                        }
                    }
                },
            }
        },
    }
}

/// A transfer of `amount`, made only when `amount` is positive.
pub open spec fn deposit_calls(amount: u64, src: Pubkey, dst: Pubkey, owner: Pubkey, splt: Pubkey) -> Seq<
    CallView,
> {
    if amount > 0 {
        seq![(transfer_view(amount, src, dst, owner, splt), false)]
    } else {
        Seq::empty()
    }
}

pub open spec fn add_liquidity_outcome(
    delta_s: u64,
    delta_a: u64,
    delta_b: u64,
    program_id: Pubkey,
    accounts: Seq<AccountInfo>,
    derived: Option<Seq<u8>>,
) -> Result<EffectsView, ProcessError> {
    match preamble(program_id, accounts, 12, 1, seq![0int]) {
        Some(e) => Err(e),
        None => {
            let (owner, pool_acc, lpt_acc, mint_lpt_acc, src_s, treasury_s) = (
                accounts[0],
                accounts[1],
                accounts[2],
                accounts[3],
                accounts[4],
                accounts[5],
            );
            let (src_a, treasury_a, src_b, treasury_b, treasurer, splt) = (
                accounts[6],
                accounts[7],
                accounts[8],
                accounts[9],
                accounts[10],
                accounts[11],
            );
            match unpack_mint(mint_lpt_acc.data@) {
                Err(e) => Err(e),
                Ok(m) => match unpack_pool(pool_acc.data@) {
                    Err(e) => Err(e),
                    Ok(p) => {
                        if !seed_ok(derived, treasurer.key) {
                            Err(ProcessError::InvalidSeeds)
                        } else if p.mint_lpt@ != mint_lpt_acc.key@ || p.treasury_s@
                            != treasury_s.key@ || p.treasury_a@ != treasury_a.key@
                            || p.treasury_b@ != treasury_b.key@ {
                            app_err(AppError::InvalidOwner)
                        } else if delta_s == 0 && delta_a == 0 && delta_b == 0 {
                            app_err(AppError::ZeroValue)
                        } else {
                            match rake_spec(
                                delta_s,
                                delta_a,
                                delta_b,
                                p.reserve_s,
                                p.reserve_a,
                                p.reserve_b,
                                m.supply,
                            ) {
                                None => app_err(AppError::Overflow),
                                Some((lpt, rs, ra, rb)) => Ok(
                                    (
                                        Some(
                                            pool_bytes(
                                                Pool {
                                                    reserve_s: rs,
                                                    reserve_a: ra,
                                                    reserve_b: rb,
                                                    ..p
                                                },
                                            ),
                                        ),
                                        deposit_calls(
                                            delta_s,
                                            src_s.key,
                                            treasury_s.key,
                                            owner.key,
                                            splt.key,
                                        ) + deposit_calls(
                                            delta_a,
                                            src_a.key,
                                            treasury_a.key,
                                            owner.key,
                                            splt.key,
                                        ) + deposit_calls(
                                            delta_b,
                                            src_b.key,
                                            treasury_b.key,
                                            owner.key,
                                            splt.key,
                                        ) + seq![
                                            (mint_to_view(lpt, mint_lpt_acc.key, lpt_acc.key, treasurer.key, splt.key), true),
                                        ],
                                    ),
                                ),
                            }
                        }
                    },
                },
            }
        },
    }
}

/// The pro-rata share of `reserve` that `lpt` of `supply` LP is worth.
pub open spec fn share_of(lpt: u64, reserve: u64, supply: u64) -> int {
    lpt * reserve / (supply as int)
}

pub open spec fn remove_liquidity_outcome(
    lpt: u64,
    program_id: Pubkey,
    accounts: Seq<AccountInfo>,
    derived: Option<Seq<u8>>,
) -> Result<EffectsView, ProcessError> {
    match preamble(program_id, accounts, 12, 1, seq![0int]) {
        Some(e) => Err(e),
        None => {
            let (owner, pool_acc, lpt_acc, mint_lpt_acc, dst_s, treasury_s) = (
                accounts[0],
                accounts[1],
                accounts[2],
                accounts[3],
                accounts[4],
                accounts[5],
            );
            let (dst_a, treasury_a, dst_b, treasury_b, treasurer, splt) = (
                accounts[6],
                accounts[7],
                accounts[8],
                accounts[9],
                accounts[10],
                accounts[11],
            );
            if !seed_ok(derived, treasurer.key) {
                Err(ProcessError::InvalidSeeds)
            } else {
                match unpack_mint(mint_lpt_acc.data@) {
                    Err(e) => Err(e),
                    Ok(m) => match unpack_pool(pool_acc.data@) {
                        Err(e) => Err(e),
                        Ok(p) => {
                            let ds = share_of(lpt, p.reserve_s, m.supply);
                            let da = share_of(lpt, p.reserve_a, m.supply);
                            let db = share_of(lpt, p.reserve_b, m.supply);
                            if p.mint_lpt@ != mint_lpt_acc.key@ || p.treasury_s@ != treasury_s.key@
                                || p.treasury_a@ != treasury_a.key@ || p.treasury_b@
                                != treasury_b.key@ {
                                app_err(AppError::UnmatchedPool)
                            } else if p.spec_is_frozen() {
                                app_err(AppError::FrozenPool)
                            } else if lpt == 0 {
                                app_err(AppError::ZeroValue)
                            } else if m.supply == 0 || ds > p.reserve_s || da > p.reserve_a || db
                                > p.reserve_b {
                                app_err(AppError::Overflow)
                            } else {
                                let rs = (p.reserve_s - ds) as u64;
                                let new_pool = Pool {
                                    reserve_s: rs,
                                    reserve_a: (p.reserve_a - da) as u64,
                                    reserve_b: (p.reserve_b - db) as u64,
                                    state: if rs == 0 {
                                        PoolState::Frozen
                                    } else {
                                        p.state
                                    },
                                    ..p
                                };
                                Ok(
                                    (
                                        Some(pool_bytes(new_pool)),
                                        seq![
                                            (burn_view(lpt, lpt_acc.key, mint_lpt_acc.key, owner.key, splt.key), true),
                                            (transfer_view(ds as u64, treasury_s.key, dst_s.key, treasurer.key, splt.key), true),
                                            (transfer_view(da as u64, treasury_a.key, dst_a.key, treasurer.key, splt.key), true),
                                            (transfer_view(db as u64, treasury_b.key, dst_b.key, treasurer.key, splt.key), true),
                                        ],
                                    ),
                                )
                            }
                        },
                    },
                }
            }
        },
    }
}

/// The effects of a swap once every check has passed: `bid` and `ask` are
/// the code and reserve of each side.
pub open spec fn swap_effects(
    p: Pool,
    bid: (u8, u64),
    ask: (u8, u64),
    amount: u64,
    limit: u64,
    accounts: Seq<AccountInfo>,
) -> Result<EffectsView, ProcessError> {
    let (payer, vault, src, treasury_bid, dst, treasury_ask, treasury_sen, treasurer, splt) = (
        accounts[0].key,
        accounts[2].key,
        accounts[3].key,
        accounts[4].key,
        accounts[5].key,
        accounts[6].key,
        accounts[7].key,
        accounts[8].key,
        accounts[9].key,
    );
    let new_bid = bid.1 + amount;
    if !fits_u64(new_bid) {
        app_err(AppError::Overflow)
    } else {
        match curve_in_fee_spec(new_bid as u64, bid.1, ask.1, ask.0 == 0) {
            None => app_err(AppError::Overflow),
            Some((new_ask, paid, earning)) => {
                if paid < limit {
                    app_err(AppError::ExceedLimit)
                } else {
                    let p1 = with_reserve(with_reserve(p, bid.0, new_bid as u64), ask.0, new_ask);
                    let calls = seq![
                        (transfer_view(amount, src, treasury_bid, payer, splt), false),
                        (transfer_view(paid, treasury_ask, dst, treasurer, splt), true),
                    ];
                    if earning == 0 {
                        Ok((Some(pool_bytes(p1)), calls))
                    } else if !fits_u64(new_ask + earning) {
                        app_err(AppError::Overflow)
                    } else {
                        let plus = (new_ask + earning) as u64;
                        match curve_in_fee_spec(plus, new_ask, p1.reserve_s, true) {
                            None => app_err(AppError::Overflow),
                            Some((new_sen, earning_in_sen, _)) => {
                                let p2 = Pool { reserve_s: new_sen, ..with_reserve(p1, ask.0, plus) };
                                Ok(
                                    (
                                        Some(pool_bytes(p2)),
                                        calls.push(
                                            (
                                                transfer_view(
                                                    earning_in_sen,
                                                    treasury_sen,
                                                    vault,
                                                    treasurer,
                                                    splt,
                                                ),
                                                true,
                                            ),
                                        ),
                                    ),
                                )
                            },
                        }
                    }
                }
            },
        }
    }
}

pub open spec fn swap_outcome(
    amount: u64,
    limit: u64,
    program_id: Pubkey,
    accounts: Seq<AccountInfo>,
    derived: Option<Seq<u8>>,
) -> Result<EffectsView, ProcessError> {
    match preamble(program_id, accounts, 10, 1, seq![0int]) {
        Some(e) => Err(e),
        None => match unpack_pool(accounts[1].data@) {
            Err(e) => Err(e),
            Ok(p) => {
                if !seed_ok(derived, accounts[8].key) {
                    Err(ProcessError::InvalidSeeds)
                } else {
                    match (
                        p.spec_get_reserve(accounts[4].key@),
                        p.spec_get_reserve(accounts[6].key@),
                        p.spec_get_reserve(accounts[7].key@),
                    ) {
                        (Some(bid), Some(ask), Some(sen)) => {
                            if sen.0 != 0 {
                                app_err(AppError::UnmatchedPool)
                            } else if p.spec_is_frozen() {
                                app_err(AppError::FrozenPool)
                            } else if amount == 0 {
                                app_err(AppError::ZeroValue)
                            } else if accounts[4].key@ == accounts[6].key@ {
                                Ok((None, Seq::empty()))
                            } else {
                                swap_effects(p, bid, ask, amount, limit, accounts)
                            }
                        },
                        _ => app_err(AppError::UnmatchedPool),
                    }
                }
            },
        },
    }
}

/// The owner-only instructions: enough accounts, the pool owned by this
/// program, the owner signed, and the pool's owner is that account.
pub open spec fn owner_check(program_id: Pubkey, accounts: Seq<AccountInfo>, n: int) -> Result<
    Pool,
    ProcessError,
> {
    match preamble(program_id, accounts, n, 1, seq![0int]) {
        Some(e) => Err(e),
        None => match unpack_pool(accounts[1].data@) {
            Err(e) => Err(e),
            Ok(p) => if p.owner@ == accounts[0].key@ {
                Ok(p)
            } else {
                Err(ProcessError::App(AppError::InvalidOwner))
            },
        },
    }
}

pub open spec fn set_state_outcome(
    state: PoolState,
    program_id: Pubkey,
    accounts: Seq<AccountInfo>,
) -> Result<EffectsView, ProcessError> {
    match owner_check(program_id, accounts, 2) {
        Err(e) => Err(e),
        Ok(p) => Ok((Some(pool_bytes(Pool { state, ..p })), Seq::empty())),
    }
}

pub open spec fn earn_outcome(
    amount: u64,
    program_id: Pubkey,
    accounts: Seq<AccountInfo>,
    derived: Option<Seq<u8>>,
) -> Result<EffectsView, ProcessError> {
    match owner_check(program_id, accounts, 6) {
        Err(e) => Err(e),
        Ok(p) => {
            let (vault, dst, treasurer, splt) = (
                accounts[2].key,
                accounts[3].key,
                accounts[4].key,
                accounts[5].key,
            );
            if !seed_ok(derived, treasurer) {
                Err(ProcessError::InvalidSeeds)
            } else if p.vault@ != vault@ {
                app_err(AppError::InvalidOwner)
            } else if amount == 0 {
                app_err(AppError::ZeroValue)
            } else {
                Ok((None, seq![(transfer_view(amount, vault, dst, treasurer, splt), true)]))
            }
        },
    }
}

pub open spec fn transfer_pool_ownership_outcome(
    program_id: Pubkey,
    accounts: Seq<AccountInfo>,
) -> Result<EffectsView, ProcessError> {
    match owner_check(program_id, accounts, 3) {
        Err(e) => Err(e),
        Ok(p) => Ok((Some(pool_bytes(Pool { owner: accounts[2].key, ..p })), Seq::empty())),
    }
}

/// The address derived from the account at `i`, when there is one.
pub open spec fn authority_at(program_id: Pubkey, accounts: Seq<AccountInfo>, i: int) -> Option<
    Seq<u8>,
> {
    if i < accounts.len() {
        program_address(accounts[i].key@, program_id@)
    } else {
        None
    }
}

/// What `process` does with an instruction and its accounts.
pub open spec fn process_outcome(
    program_id: Pubkey,
    accounts: Seq<AccountInfo>,
    data: Seq<u8>,
) -> Result<EffectsView, ProcessError> {
    match instruction_of(data) {
        None => app_err(AppError::InvalidInstruction),
        Some(ix) => match ix {
            AppInstruction::InitializePool { reserve_s, reserve_a, reserve_b } =>
                initialize_pool_outcome(
                reserve_s,
                reserve_a,
                reserve_b,
                program_id,
                accounts,
                authority_at(program_id, accounts, 2),
            ),
            AppInstruction::AddLiquidity { delta_s, delta_a, delta_b } => add_liquidity_outcome(
                delta_s,
                delta_a,
                delta_b,
                program_id,
                accounts,
                authority_at(program_id, accounts, 1),
            ),
            AppInstruction::RemoveLiquidity { lpt } => remove_liquidity_outcome(
                lpt,
                program_id,
                accounts,
                authority_at(program_id, accounts, 1),
            ),
            AppInstruction::Swap { amount, limit } => swap_outcome(
                amount,
                limit,
                program_id,
                accounts,
                authority_at(program_id, accounts, 1),
            ),
            AppInstruction::FreezePool => set_state_outcome(
                PoolState::Frozen,
                program_id,
                accounts,
            ),
            AppInstruction::ThawPool => set_state_outcome(
                PoolState::Initialized,
                program_id,
                accounts,
            ),
            AppInstruction::Earn { amount } => earn_outcome(
                amount,
                program_id,
                accounts,
                authority_at(program_id, accounts, 1),
            ),
            AppInstruction::TransferPoolOwnership => transfer_pool_ownership_outcome(
                program_id,
                accounts,
            ),
        },
    }
}

/// How many accounts each instruction reads.
pub open spec fn account_count(ix: AppInstruction) -> int {
    match ix {
        AppInstruction::InitializePool { .. } => 21,
        AppInstruction::AddLiquidity { .. } => 12,
        AppInstruction::RemoveLiquidity { .. } => 12,
        AppInstruction::Swap { .. } => 10,
        AppInstruction::FreezePool => 2,
        AppInstruction::ThawPool => 2,
        AppInstruction::Earn { .. } => 6,
        AppInstruction::TransferPoolOwnership => 3,
    }
}

/// Where each instruction expects the pool account.
pub open spec fn pool_position(ix: AppInstruction) -> int {
    match ix {
        AppInstruction::InitializePool { .. } => 2,
        _ => 1,
    }
}

/// Where each instruction expects its owner: position 1 for
/// InitializePool (after the payer), 0 for the others (for Swap, the payer).
pub open spec fn owner_position(ix: AppInstruction) -> int {
    match ix {
        AppInstruction::InitializePool { .. } => 1,
        _ => 0,
    }
}

/// Every instruction wants a signature from the account in the owner
/// position (the payer for Swap): without it the instruction fails with
/// `InvalidOwner`, once enough accounts are given and the pool account
/// belongs to this program. InitializePool also wants its payer to sign.
pub proof fn lemma_owner_must_sign(
    program_id: Pubkey,
    accounts: Seq<AccountInfo>,
    data: Seq<u8>,
)
    requires
        instruction_of(data) is Some,
        accounts.len() >= account_count(instruction_of(data).unwrap()),
        accounts[pool_position(instruction_of(data).unwrap())].owner@ == program_id@,
        !accounts[owner_position(instruction_of(data).unwrap())].is_signer
            || !accounts[0].is_signer,
    ensures
        process_outcome(program_id, accounts, data) == app_err(AppError::InvalidOwner),
{
    let ix = instruction_of(data).unwrap();
    match ix {
        AppInstruction::InitializePool { .. } => {
            let signers = seq![0int, 1, 2, 5];
            if !accounts[0].is_signer {
                assert(!accounts[signers[0]].is_signer);
            } else {
                assert(!accounts[signers[1]].is_signer);
            }
        },
        _ => {
            assert(!accounts[seq![0int][0]].is_signer);
        },
    }
}

/// A frozen pool refuses swaps with `FrozenPool`, and so writes nothing,
/// once the accounts, the authority and the treasuries check out.
pub proof fn lemma_frozen_refuses_swap(
    amount: u64,
    limit: u64,
    program_id: Pubkey,
    accounts: Seq<AccountInfo>,
    derived: Option<Seq<u8>>,
)
    requires
        preamble(program_id, accounts, 10, 1, seq![0int]) is None,
        unpack_pool(accounts[1].data@) is Ok,
        unpack_pool(accounts[1].data@)->Ok_0.spec_is_frozen(),
        seed_ok(derived, accounts[8].key),
        unpack_pool(accounts[1].data@)->Ok_0.spec_get_reserve(accounts[4].key@) is Some,
        unpack_pool(accounts[1].data@)->Ok_0.spec_get_reserve(accounts[6].key@) is Some,
        unpack_pool(accounts[1].data@)->Ok_0.spec_get_reserve(accounts[7].key@) == Some(
            (0u8, unpack_pool(accounts[1].data@)->Ok_0.reserve_s),
        ),
    ensures
        swap_outcome(amount, limit, program_id, accounts, derived) == app_err(AppError::FrozenPool),
{
}

/// A frozen pool refuses withdrawals with `FrozenPool`, and so writes
/// nothing, once the accounts, the authority, the LP mint and the
/// treasuries check out.
pub proof fn lemma_frozen_refuses_remove(
    lpt: u64,
    program_id: Pubkey,
    accounts: Seq<AccountInfo>,
    derived: Option<Seq<u8>>,
)
    requires
        preamble(program_id, accounts, 12, 1, seq![0int]) is None,
        seed_ok(derived, accounts[10].key),
        unpack_mint(accounts[3].data@) is Ok,
        unpack_pool(accounts[1].data@) is Ok,
        ({
            let p = unpack_pool(accounts[1].data@)->Ok_0;
            &&& p.spec_is_frozen()
            &&& p.mint_lpt@ == accounts[3].key@
            &&& p.treasury_s@ == accounts[5].key@
            &&& p.treasury_a@ == accounts[7].key@
            &&& p.treasury_b@ == accounts[9].key@
        }),
    ensures
        remove_liquidity_outcome(lpt, program_id, accounts, derived) == app_err(
            AppError::FrozenPool,
        ),
{
}

/// A withdrawal of `lpt` LP out of a supply `S` pays exactly
/// `lpt * R / S` (rounded down) of each reserve `R`, and takes that much
/// out of the cached reserves.
pub proof fn lemma_pro_rata_withdrawal(
    lpt: u64,
    program_id: Pubkey,
    accounts: Seq<AccountInfo>,
    derived: Option<Seq<u8>>,
)
    requires
        remove_liquidity_outcome(lpt, program_id, accounts, derived) is Ok,
    ensures
        ({
            let p = unpack_pool(accounts[1].data@)->Ok_0;
            let supply = unpack_mint(accounts[3].data@)->Ok_0.supply;
            let (data, calls) = remove_liquidity_outcome(lpt, program_id, accounts, derived)->Ok_0;
            let (ds, da, db) = (
                share_of(lpt, p.reserve_s, supply),
                share_of(lpt, p.reserve_a, supply),
                share_of(lpt, p.reserve_b, supply),
            );
            let (treasurer, splt) = (accounts[10].key, accounts[11].key);
            &&& calls.len() == 4
            &&& calls[1] == (
                transfer_view(ds as u64, accounts[5].key, accounts[4].key, treasurer, splt),
                true,
            )
            &&& calls[2] == (
                transfer_view(da as u64, accounts[7].key, accounts[6].key, treasurer, splt),
                true,
            )
            &&& calls[3] == (
                transfer_view(db as u64, accounts[9].key, accounts[8].key, treasurer, splt),
                true,
            )
            &&& data matches Some(bytes) && pool_bytes(
                Pool {
                    reserve_s: (p.reserve_s - ds) as u64,
                    reserve_a: (p.reserve_a - da) as u64,
                    reserve_b: (p.reserve_b - db) as u64,
                    state: if p.reserve_s == ds {
                        PoolState::Frozen
                    } else {
                        p.state
                    },
                    ..p
                },
            ) == bytes
        }),
{
}

/// Appends a call to `calls`.
fn push_call(calls: &mut Vec<TokenCall>, instruction: Instruction, signed: bool)
    ensures
        final(calls)@.map_values(|c: TokenCall| c@) == old(calls)@.map_values(|c: TokenCall| c@).push(
            (instruction@, signed),
        ),
{
    calls.push(TokenCall { instruction, signed });
    assert(calls@.map_values(|c: TokenCall| c@) =~= old(calls)@.map_values(|c: TokenCall| c@).push(
        (instruction@, signed),
    ));
}

/// The address that custodies the pool's funds: derived from the pool's
/// address under this program; none when the derivation fails.
pub fn derive_authority(pool_id: &Pubkey, program_id: &Pubkey) -> (r: Option<Pubkey>)
    ensures
        key_view(r) == program_address(pool_id@, program_id@),
{
    create_program_address(pool_id, program_id)
}

fn authority_of(program_id: &Pubkey, accounts: &[AccountInfo], i: usize) -> (r: Option<Pubkey>)
    ensures
        key_view(r) == authority_at(*program_id, accounts@, i as int),
{
    if i < accounts.len() {
        derive_authority(&accounts[i].key, program_id)
    } else {
        None
    }
}

/// Sets the reserve of asset `code` (0 = S, 1 = A, otherwise B).
fn set_reserve(p: &mut Pool, code: u8, v: u64)
    ensures
        *final(p) == with_reserve(*old(p), code, v),
{
    if code == 0 {
        p.reserve_s = v;
    } else if code == 1 {
        p.reserve_a = v;
    } else {
        p.reserve_b = v;
    }
}

pub struct Processor {}

impl Processor {
    /// The opening checks with the signer at position 0 and the pool at 1.
    fn check_accounts(program_id: &Pubkey, accounts: &[AccountInfo], n: usize) -> (r: Result<
        (),
        ProcessError,
    >)
        requires
            n >= 2,
        ensures
            match preamble(*program_id, accounts@, n as int, 1, seq![0int]) {
                Some(e) => r == Err::<(), ProcessError>(e),
                None => r is Ok,
            },
    {
        let ghost signers: Seq<int> = seq![0int];
        if accounts.len() < n {
            return Err(ProcessError::NotEnoughAccountKeys);
        }
        Self::is_program(program_id, &accounts[1])?;
        if !accounts[0].is_signer {
            assert(!accounts@[signers[0]].is_signer);
            return Err(ProcessError::App(AppError::InvalidOwner));
        }
        assert(!exists|i: int| 0 <= i < signers.len() && !accounts@[signers[i]].is_signer);
        Ok(())
    }

    /// Fails with `IncorrectProgramId` unless this program owns `acc`.
    pub fn is_program(program_id: &Pubkey, acc: &AccountInfo) -> (r: Result<(), ProcessError>)
        ensures
            r is Ok <==> acc.owner@ == program_id@,
            r is Err ==> r == Err::<(), ProcessError>(
                ProcessError::App(AppError::IncorrectProgramId),
            ),
    {
        if acc.owner != *program_id {
            return Err(ProcessError::App(AppError::IncorrectProgramId));
        }
        Ok(())
    }

    /// Fails with `InvalidOwner` unless `acc` signed.
    pub fn is_signer(acc: &AccountInfo) -> (r: Result<(), ProcessError>)
        ensures
            r is Ok <==> acc.is_signer,
            r is Err ==> r == Err::<(), ProcessError>(ProcessError::App(AppError::InvalidOwner)),
    {
        if !acc.is_signer {
            return Err(ProcessError::App(AppError::InvalidOwner));
        }
        Ok(())
    }

    /// Fails with `InvalidSeeds` unless the derived authority exists and is
    /// `expected_acc`.
    pub fn safe_seed(derived: &Option<Pubkey>, expected_acc: &AccountInfo) -> (r: Result<
        (),
        ProcessError,
    >)
        ensures
            r is Ok <==> seed_ok(key_view(*derived), expected_acc.key),
            r is Err ==> r == Err::<(), ProcessError>(ProcessError::InvalidSeeds),
    {
        match derived {
            Some(d) => if *d == expected_acc.key {
                Ok(())
            } else {
                Err(ProcessError::InvalidSeeds)
            },
            None => Err(ProcessError::InvalidSeeds),
        }
    }

    /// Fails unless `pool_acc` holds an initialized pool owned by `owner`.
    pub fn is_pool_owner(owner: &AccountInfo, pool_acc: &AccountInfo) -> (r: Result<
        (),
        ProcessError,
    >)
        ensures
            r == match unpack_pool(pool_acc.data@) {
                Err(e) => Err(e),
                Ok(p) => if p.owner@ == owner.key@ {
                    Ok(())
                } else {
                    Err(ProcessError::App(AppError::InvalidOwner))
                },
            },
    {
        let pool_data = Pool::unpack(pool_acc.data.as_slice())?;
        if pool_data.owner != owner.key {
            return Err(ProcessError::App(AppError::InvalidOwner));
        }
        Ok(())
    }

    /// Creates the treasuries, takes the initial reserves, creates the LP
    /// mint and mints `reserve_s` LP to the caller, creates the vault, and
    /// writes the initialized pool.
    pub fn initialize_pool(
        reserve_s: u64,
        reserve_a: u64,
        reserve_b: u64,
        program_id: &Pubkey,
        accounts: &[AccountInfo],
        derived: &Option<Pubkey>,
    ) -> (r: Result<Effects, ProcessError>)
        ensures
            outcome_view(r) == initialize_pool_outcome(
                reserve_s,
                reserve_a,
                reserve_b,
                *program_id,
                accounts@,
                key_view(*derived),
            ),
    {
        if accounts.len() < 21 {
            return Err(ProcessError::NotEnoughAccountKeys);
        }
        let payer = &accounts[0];
        let owner = &accounts[1];
        let pool_acc = &accounts[2];
        let lpt_acc = &accounts[3];
        let mint_lpt_acc = &accounts[4];
        let vault_acc = &accounts[5];
        let proof_acc = &accounts[6];
        let src_s_acc = &accounts[7];
        let mint_s_acc = &accounts[8];
        let treasury_s_acc = &accounts[9];
        let src_a_acc = &accounts[10];
        let mint_a_acc = &accounts[11];
        let treasury_a_acc = &accounts[12];
        let src_b_acc = &accounts[13];
        let mint_b_acc = &accounts[14];
        let treasury_b_acc = &accounts[15];
        let treasurer = &accounts[16];
        let system_program = &accounts[17];
        let splt_program = &accounts[18];
        let sysvar_rent_acc = &accounts[19];
        let splata_program = &accounts[20];

        Self::is_program(program_id, pool_acc)?;
        let ghost signers: Seq<int> = seq![0int, 1, 2, 5];
        if !payer.is_signer || !owner.is_signer || !pool_acc.is_signer || !vault_acc.is_signer {
            assert(!accounts@[signers[0]].is_signer || !accounts@[signers[1]].is_signer
                || !accounts@[signers[2]].is_signer || !accounts@[signers[3]].is_signer);
            return Err(ProcessError::App(AppError::InvalidOwner));
        }
        assert(!exists|i: int|
            0 <= i < signers.len() && !accounts@[signers[i]].is_signer);

        let pool_data = Pool::unpack_unchecked(pool_acc.data.as_slice())?;
        let mint_lpt_data = Mint::unpack_unchecked(mint_lpt_acc.data.as_slice())?;
        Self::safe_seed(derived, treasurer)?;
        if pool_data.is_initialized() || mint_lpt_data.is_initialized {
            return Err(ProcessError::App(AppError::ConstructorOnce));
        }
        let proof_key = program_id.xor(&pool_acc.key.xor(&treasurer.key));
        if proof_acc.key != proof_key || mint_s_acc.key == mint_a_acc.key || mint_s_acc.key
            == mint_b_acc.key || mint_a_acc.key == mint_b_acc.key {
            return Err(ProcessError::App(AppError::InvalidMint));
        }
        if reserve_s == 0 || reserve_a == 0 || reserve_b == 0 {
            return Err(ProcessError::App(AppError::ZeroValue));
        }
        let mint_s_data = Mint::unpack_unchecked(mint_s_acc.data.as_slice())?;

        let t = treasurer.key;
        let splt = splt_program.key;
        let mut calls: Vec<TokenCall> = Vec::new();
        let ata_s = ISPLATA::initialize_account(
            payer.key,
            treasury_s_acc.key,
            t,
            mint_s_acc.key,
            system_program.key,
            splt,
            sysvar_rent_acc.key,
            splata_program.key,
        );
        push_call(&mut calls, ata_s, true);
        push_call(
            &mut calls,
            ISPLT::transfer(reserve_s, src_s_acc.key, treasury_s_acc.key, payer.key, splt),
            false,
        );
        let ata_a = ISPLATA::initialize_account(
            payer.key,
            treasury_a_acc.key,
            t,
            mint_a_acc.key,
            system_program.key,
            splt,
            sysvar_rent_acc.key,
            splata_program.key,
        );
        push_call(&mut calls, ata_a, true);
        push_call(
            &mut calls,
            ISPLT::transfer(reserve_a, src_a_acc.key, treasury_a_acc.key, payer.key, splt),
            false,
        );
        let ata_b = ISPLATA::initialize_account(
            payer.key,
            treasury_b_acc.key,
            t,
            mint_b_acc.key,
            system_program.key,
            splt,
            sysvar_rent_acc.key,
            splata_program.key,
        );
        push_call(&mut calls, ata_b, true);
        push_call(
            &mut calls,
            ISPLT::transfer(reserve_b, src_b_acc.key, treasury_b_acc.key, payer.key, splt),
            false,
        );
        push_call(
            &mut calls,
            ISPLT::initialize_mint(
                mint_s_data.decimals,
                mint_lpt_acc.key,
                t,
                sysvar_rent_acc.key,
                splt,
            ),
            true,
        );
        let ata_lpt = ISPLATA::initialize_account(
            payer.key,
            lpt_acc.key,
            payer.key,
            mint_lpt_acc.key,
            system_program.key,
            splt,
            sysvar_rent_acc.key,
            splata_program.key,
        );
        push_call(&mut calls, ata_lpt, true);
        push_call(
            &mut calls,
            ISPLT::mint_to(reserve_s, mint_lpt_acc.key, lpt_acc.key, t, splt),
            true,
        );
        push_call(
            &mut calls,
            ISPLT::initialize_account(vault_acc.key, mint_s_acc.key, t, sysvar_rent_acc.key, splt),
            true,
        );

        let new_pool = Pool {
            owner: owner.key,
            state: PoolState::Initialized,
            mint_lpt: mint_lpt_acc.key,
            vault: vault_acc.key,
            mint_s: mint_s_acc.key,
            treasury_s: treasury_s_acc.key,
            reserve_s,
            mint_a: mint_a_acc.key,
            treasury_a: treasury_a_acc.key,
            reserve_a,
            mint_b: mint_b_acc.key,
            treasury_b: treasury_b_acc.key,
            reserve_b,
        };
        let e = Effects { pool_data: Some(new_pool.pack()), calls };
        assert(e@.1 =~= initialize_pool_outcome(
            reserve_s,
            reserve_a,
            reserve_b,
            *program_id,
            accounts@,
            key_view(*derived),
        )->Ok_0.1);
        Ok(e)
    }

    /// Takes a deposit of any mix of the three assets and mints LP for it
    /// through the rake.
    pub fn add_liquidity(
        delta_s: u64,
        delta_a: u64,
        delta_b: u64,
        program_id: &Pubkey,
        accounts: &[AccountInfo],
        derived: &Option<Pubkey>,
    ) -> (r: Result<Effects, ProcessError>)
        ensures
            outcome_view(r) == add_liquidity_outcome(
                delta_s,
                delta_a,
                delta_b,
                *program_id,
                accounts@,
                key_view(*derived),
            ),
    {
        Self::check_accounts(program_id, accounts, 12)?;
        let owner = &accounts[0];
        let pool_acc = &accounts[1];
        let lpt_acc = &accounts[2];
        let mint_lpt_acc = &accounts[3];
        let src_s_acc = &accounts[4];
        let treasury_s_acc = &accounts[5];
        let src_a_acc = &accounts[6];
        let treasury_a_acc = &accounts[7];
        let src_b_acc = &accounts[8];
        let treasury_b_acc = &accounts[9];
        let treasurer = &accounts[10];
        let splt = accounts[11].key;

        let mint_lpt_data = Mint::unpack(mint_lpt_acc.data.as_slice())?;
        let pool_data = Pool::unpack(pool_acc.data.as_slice())?;
        Self::safe_seed(derived, treasurer)?;
        if pool_data.mint_lpt != mint_lpt_acc.key || pool_data.treasury_s != treasury_s_acc.key
            || pool_data.treasury_a != treasury_a_acc.key || pool_data.treasury_b
            != treasury_b_acc.key {
            return Err(ProcessError::App(AppError::InvalidOwner));
        }
        if delta_s == 0 && delta_a == 0 && delta_b == 0 {
            return Err(ProcessError::App(AppError::ZeroValue));
        }
        let (lpt, reserve_s, reserve_a, reserve_b) = match Oracle::rake(
            delta_s,
            delta_a,
            delta_b,
            pool_data.reserve_s,
            pool_data.reserve_a,
            pool_data.reserve_b,
            mint_lpt_data.supply,
        ) {
            Some(t) => t,
            None => return Err(ProcessError::App(AppError::Overflow)),
        };
        let mut calls: Vec<TokenCall> = Vec::new();
        if delta_s > 0 {
            push_call(
                &mut calls,
                ISPLT::transfer(delta_s, src_s_acc.key, treasury_s_acc.key, owner.key, splt),
                false,
            );
        }
        if delta_a > 0 {
            push_call(
                &mut calls,
                ISPLT::transfer(delta_a, src_a_acc.key, treasury_a_acc.key, owner.key, splt),
                false,
            );
        }
        if delta_b > 0 {
            push_call(
                &mut calls,
                ISPLT::transfer(delta_b, src_b_acc.key, treasury_b_acc.key, owner.key, splt),
                false,
            );
        }
        push_call(
            &mut calls,
            ISPLT::mint_to(lpt, mint_lpt_acc.key, lpt_acc.key, treasurer.key, splt),
            true,
        );
        let mut new_pool = pool_data;
        new_pool.reserve_s = reserve_s;
        new_pool.reserve_a = reserve_a;
        new_pool.reserve_b = reserve_b;
        let e = Effects { pool_data: Some(new_pool.pack()), calls };
        assert(e@.1 =~= add_liquidity_outcome(
            delta_s,
            delta_a,
            delta_b,
            *program_id,
            accounts@,
            key_view(*derived),
        )->Ok_0.1);
        Ok(e)
    }

    /// Burns `lpt` LP and pays out the pro-rata share of each reserve;
    /// freezes the pool when its S reserve runs out.
    pub fn remove_liquidity(
        lpt: u64,
        program_id: &Pubkey,
        accounts: &[AccountInfo],
        derived: &Option<Pubkey>,
    ) -> (r: Result<Effects, ProcessError>)
        ensures
            outcome_view(r) == remove_liquidity_outcome(
                lpt,
                *program_id,
                accounts@,
                key_view(*derived),
            ),
    {
        Self::check_accounts(program_id, accounts, 12)?;
        let owner = &accounts[0];
        let pool_acc = &accounts[1];
        let lpt_acc = &accounts[2];
        let mint_lpt_acc = &accounts[3];
        let dst_s_acc = &accounts[4];
        let treasury_s_acc = &accounts[5];
        let dst_a_acc = &accounts[6];
        let treasury_a_acc = &accounts[7];
        let dst_b_acc = &accounts[8];
        let treasury_b_acc = &accounts[9];
        let treasurer = &accounts[10];
        let splt = accounts[11].key;

        Self::safe_seed(derived, treasurer)?;
        let mint_lpt_data = Mint::unpack(mint_lpt_acc.data.as_slice())?;
        let pool_data = Pool::unpack(pool_acc.data.as_slice())?;
        if pool_data.mint_lpt != mint_lpt_acc.key || pool_data.treasury_s != treasury_s_acc.key
            || pool_data.treasury_a != treasury_a_acc.key || pool_data.treasury_b
            != treasury_b_acc.key {
            return Err(ProcessError::App(AppError::UnmatchedPool));
        }
        if pool_data.is_frozen() {
            return Err(ProcessError::App(AppError::FrozenPool));
        }
        if lpt == 0 {
            return Err(ProcessError::App(AppError::ZeroValue));
        }
        let supply = mint_lpt_data.supply;
        if supply == 0 {
            return Err(ProcessError::App(AppError::Overflow));
        }
        let delta_s = Self::share(lpt, pool_data.reserve_s, supply);
        let delta_a = Self::share(lpt, pool_data.reserve_a, supply);
        let delta_b = Self::share(lpt, pool_data.reserve_b, supply);
        if delta_s > pool_data.reserve_s as u128 || delta_a > pool_data.reserve_a as u128 || delta_b
            > pool_data.reserve_b as u128 {
            return Err(ProcessError::App(AppError::Overflow));
        }
        let delta_s = delta_s as u64;
        let delta_a = delta_a as u64;
        let delta_b = delta_b as u64;
        let mut new_pool = pool_data;
        new_pool.reserve_s = pool_data.reserve_s - delta_s;
        new_pool.reserve_a = pool_data.reserve_a - delta_a;
        new_pool.reserve_b = pool_data.reserve_b - delta_b;
        if new_pool.reserve_s == 0 {
            new_pool.state = PoolState::Frozen;
        }
        let mut calls: Vec<TokenCall> = Vec::new();
        push_call(
            &mut calls,
            ISPLT::burn(lpt, lpt_acc.key, mint_lpt_acc.key, owner.key, splt),
            true,
        );
        push_call(
            &mut calls,
            ISPLT::transfer(delta_s, treasury_s_acc.key, dst_s_acc.key, treasurer.key, splt),
            true,
        );
        push_call(
            &mut calls,
            ISPLT::transfer(delta_a, treasury_a_acc.key, dst_a_acc.key, treasurer.key, splt),
            true,
        );
        push_call(
            &mut calls,
            ISPLT::transfer(delta_b, treasury_b_acc.key, dst_b_acc.key, treasurer.key, splt),
            true,
        );
        let e = Effects { pool_data: Some(new_pool.pack()), calls };
        assert(e@.1 =~= remove_liquidity_outcome(
            lpt,
            *program_id,
            accounts@,
            key_view(*derived),
        )->Ok_0.1);
        Ok(e)
    }

    /// `lpt * reserve / supply`, in 128 bits.
    fn share(lpt: u64, reserve: u64, supply: u64) -> (r: u128)
        requires
            supply > 0,
        ensures
            r == share_of(lpt, reserve, supply),
    {
        assert(lpt * reserve <= u128::MAX) by (nonlinear_arith)
            requires
                lpt <= u64::MAX,
                reserve <= u64::MAX,
        ;
        (lpt as u128) * (reserve as u128) / (supply as u128)
    }

    /// Swaps `amount` of the bid asset for the ask asset, paying at least
    /// `limit`; the earning is converted to S and sent to the vault.
    pub fn swap(
        amount: u64,
        limit: u64,
        program_id: &Pubkey,
        accounts: &[AccountInfo],
        derived: &Option<Pubkey>,
    ) -> (r: Result<Effects, ProcessError>)
        ensures
            outcome_view(r) == swap_outcome(amount, limit, *program_id, accounts@, key_view(*derived)),
    {
        Self::check_accounts(program_id, accounts, 10)?;
        let payer = &accounts[0];
        let pool_acc = &accounts[1];
        let vault_acc = &accounts[2];
        let src_acc = &accounts[3];
        let treasury_bid_acc = &accounts[4];
        let dst_acc = &accounts[5];
        let treasury_ask_acc = &accounts[6];
        let treasury_sen_acc = &accounts[7];
        let treasurer = &accounts[8];
        let splt = accounts[9].key;

        let pool_data = Pool::unpack(pool_acc.data.as_slice())?;
        Self::safe_seed(derived, treasurer)?;
        let (bid_code, bid_reserve) = match pool_data.get_reserve(&treasury_bid_acc.key) {
            Some(t) => t,
            None => return Err(ProcessError::App(AppError::UnmatchedPool)),
        };
        let (ask_code, ask_reserve) = match pool_data.get_reserve(&treasury_ask_acc.key) {
            Some(t) => t,
            None => return Err(ProcessError::App(AppError::UnmatchedPool)),
        };
        let (sen_code, _) = match pool_data.get_reserve(&treasury_sen_acc.key) {
            Some(t) => t,
            None => return Err(ProcessError::App(AppError::UnmatchedPool)),
        };
        if sen_code != 0 {
            return Err(ProcessError::App(AppError::UnmatchedPool));
        }
        if pool_data.is_frozen() {
            return Err(ProcessError::App(AppError::FrozenPool));
        }
        if amount == 0 {
            return Err(ProcessError::App(AppError::ZeroValue));
        }
        if treasury_bid_acc.key == treasury_ask_acc.key {
            let e = Effects { pool_data: None, calls: Vec::new() };
            assert(e@.1 =~= Seq::<CallView>::empty());
            return Ok(e);
        }
        let new_bid_reserve = match bid_reserve.checked_add(amount) {
            Some(v) => v,
            None => return Err(ProcessError::App(AppError::Overflow)),
        };
        let (new_ask_reserve, paid_amount, earning) = match Oracle::curve_in_fee(
            new_bid_reserve,
            bid_reserve,
            ask_reserve,
            ask_code == 0,
        ) {
            Some(t) => t,
            None => return Err(ProcessError::App(AppError::Overflow)),
        };
        if paid_amount < limit {
            return Err(ProcessError::App(AppError::ExceedLimit));
        }
        let mut new_pool = pool_data;
        set_reserve(&mut new_pool, bid_code, new_bid_reserve);
        set_reserve(&mut new_pool, ask_code, new_ask_reserve);
        let mut calls: Vec<TokenCall> = Vec::new();
        push_call(
            &mut calls,
            ISPLT::transfer(amount, src_acc.key, treasury_bid_acc.key, payer.key, splt),
            false,
        );
        push_call(
            &mut calls,
            ISPLT::transfer(paid_amount, treasury_ask_acc.key, dst_acc.key, treasurer.key, splt),
            true,
        );
        if earning != 0 {
            let with_earning = match new_ask_reserve.checked_add(earning) {
                Some(v) => v,
                None => return Err(ProcessError::App(AppError::Overflow)),
            };
            let (new_sen_reserve, earning_in_sen, _) = match Oracle::curve_in_fee(
                with_earning,
                new_ask_reserve,
                new_pool.reserve_s,
                true,
            ) {
                Some(t) => t,
                None => return Err(ProcessError::App(AppError::Overflow)),
            };
            set_reserve(&mut new_pool, ask_code, with_earning);
            new_pool.reserve_s = new_sen_reserve;
            push_call(
                &mut calls,
                ISPLT::transfer(
                    earning_in_sen,
                    treasury_sen_acc.key,
                    vault_acc.key,
                    treasurer.key,
                    splt,
                ),
                true,
            );
        }
        let e = Effects { pool_data: Some(new_pool.pack()), calls };
        assert(e@.1 =~= swap_outcome(
            amount,
            limit,
            *program_id,
            accounts@,
            key_view(*derived),
        )->Ok_0.1);
        Ok(e)
    }

    fn set_state(state: PoolState, program_id: &Pubkey, accounts: &[AccountInfo]) -> (r: Result<
        Effects,
        ProcessError,
    >)
        ensures
            outcome_view(r) == set_state_outcome(state, *program_id, accounts@),
    {
        Self::check_accounts(program_id, accounts, 2)?;
        Self::is_pool_owner(&accounts[0], &accounts[1])?;
        let mut pool_data = Pool::unpack(accounts[1].data.as_slice())?;
        pool_data.state = state;
        let e = Effects { pool_data: Some(pool_data.pack()), calls: Vec::new() };
        assert(e@.1 =~= Seq::<CallView>::empty());
        Ok(e)
    }

    /// Freezes the pool; only its owner may.
    pub fn freeze_pool(program_id: &Pubkey, accounts: &[AccountInfo]) -> (r: Result<
        Effects,
        ProcessError,
    >)
        ensures
            outcome_view(r) == set_state_outcome(PoolState::Frozen, *program_id, accounts@),
    {
        Self::set_state(PoolState::Frozen, program_id, accounts)
    }

    /// Thaws the pool; only its owner may.
    pub fn thaw_pool(program_id: &Pubkey, accounts: &[AccountInfo]) -> (r: Result<
        Effects,
        ProcessError,
    >)
        ensures
            outcome_view(r) == set_state_outcome(PoolState::Initialized, *program_id, accounts@),
    {
        Self::set_state(PoolState::Initialized, program_id, accounts)
    }

    /// Sends `amount` from the vault to any account; only the owner may.
    pub fn earn(
        amount: u64,
        program_id: &Pubkey,
        accounts: &[AccountInfo],
        derived: &Option<Pubkey>,
    ) -> (r: Result<Effects, ProcessError>)
        ensures
            outcome_view(r) == earn_outcome(amount, *program_id, accounts@, key_view(*derived)),
    {
        Self::check_accounts(program_id, accounts, 6)?;
        Self::is_pool_owner(&accounts[0], &accounts[1])?;
        let pool_data = Pool::unpack(accounts[1].data.as_slice())?;
        let vault_acc = &accounts[2];
        let treasurer = &accounts[4];
        Self::safe_seed(derived, treasurer)?;
        if pool_data.vault != vault_acc.key {
            return Err(ProcessError::App(AppError::InvalidOwner));
        }
        if amount == 0 {
            return Err(ProcessError::App(AppError::ZeroValue));
        }
        let mut calls: Vec<TokenCall> = Vec::new();
        push_call(
            &mut calls,
            ISPLT::transfer(amount, vault_acc.key, accounts[3].key, treasurer.key, accounts[5].key),
            true,
        );
        let e = Effects { pool_data: None, calls };
        assert(e@.1 =~= earn_outcome(
            amount,
            *program_id,
            accounts@,
            key_view(*derived),
        )->Ok_0.1);
        Ok(e)
    }

    /// Hands the pool to the account at position 2; only the owner may.
    pub fn transfer_pool_ownership(program_id: &Pubkey, accounts: &[AccountInfo]) -> (r: Result<
        Effects,
        ProcessError,
    >)
        ensures
            outcome_view(r) == transfer_pool_ownership_outcome(*program_id, accounts@),
    {
        Self::check_accounts(program_id, accounts, 3)?;
        Self::is_pool_owner(&accounts[0], &accounts[1])?;
        let mut pool_data = Pool::unpack(accounts[1].data.as_slice())?;
        pool_data.owner = accounts[2].key;
        let e = Effects { pool_data: Some(pool_data.pack()), calls: Vec::new() };
        assert(e@.1 =~= Seq::<CallView>::empty());
        Ok(e)
    }

    /// Decodes an instruction and carries it out against the accounts.
    pub fn process(program_id: &Pubkey, accounts: &[AccountInfo], instruction_data: &[u8]) -> (r:
        Result<Effects, ProcessError>)
        ensures
            outcome_view(r) == process_outcome(*program_id, accounts@, instruction_data@),
    {
        let instruction = match AppInstruction::unpack(instruction_data) {
            Ok(ix) => ix,
            Err(e) => return Err(ProcessError::App(e)),
        };
        match instruction {
            AppInstruction::InitializePool { reserve_s, reserve_a, reserve_b } => {
                let derived = authority_of(program_id, accounts, 2);
                Self::initialize_pool(reserve_s, reserve_a, reserve_b, program_id, accounts, &derived)
            },
            AppInstruction::AddLiquidity { delta_s, delta_a, delta_b } => {
                let derived = authority_of(program_id, accounts, 1);
                Self::add_liquidity(delta_s, delta_a, delta_b, program_id, accounts, &derived)
            },
            AppInstruction::RemoveLiquidity { lpt } => {
                let derived = authority_of(program_id, accounts, 1);
                Self::remove_liquidity(lpt, program_id, accounts, &derived)
            },
            AppInstruction::Swap { amount, limit } => {
                let derived = authority_of(program_id, accounts, 1);
                Self::swap(amount, limit, program_id, accounts, &derived)
            },
            AppInstruction::FreezePool => Self::freeze_pool(program_id, accounts),
            AppInstruction::ThawPool => Self::thaw_pool(program_id, accounts),
            AppInstruction::Earn { amount } => {
                let derived = authority_of(program_id, accounts, 1);
                Self::earn(amount, program_id, accounts, &derived)
            },
            AppInstruction::TransferPoolOwnership => Self::transfer_pool_ownership(
                program_id,
                accounts,
            ),
        }
    }
}

} // verus!
