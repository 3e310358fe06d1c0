//! The token programs as the pool sees them: instructions to be invoked, built
//! from keys.
use crate::pubkey::Pubkey;
use vstd::bytes::{spec_u64_to_le_bytes, u64_to_le_bytes};
use vstd::prelude::*;

verus! {

/// One account that an instruction reads or writes.
#[derive(Clone, Copy, Debug, PartialEq, Eq)]
pub struct AccountMeta {
    pub pubkey: Pubkey,
    pub is_signer: bool,
    pub is_writable: bool,
}

impl AccountMeta {
    pub open spec fn spec_new(pubkey: Pubkey, is_signer: bool) -> AccountMeta {
        AccountMeta { pubkey, is_signer, is_writable: true }
    }

    pub open spec fn spec_new_readonly(pubkey: Pubkey, is_signer: bool) -> AccountMeta {
        AccountMeta { pubkey, is_signer, is_writable: false }
    }

    /// A writable account.
    pub fn new(pubkey: Pubkey, is_signer: bool) -> (r: AccountMeta)
        ensures
            r == Self::spec_new(pubkey, is_signer),
    {
        AccountMeta { pubkey, is_signer, is_writable: true }
    }

    /// A read-only account.
    pub fn new_readonly(pubkey: Pubkey, is_signer: bool) -> (r: AccountMeta)
        ensures
            r == Self::spec_new_readonly(pubkey, is_signer),
    {
        AccountMeta { pubkey, is_signer, is_writable: false }
    }
}

/// A call into another program: its id, its accounts in order, its data.
#[derive(Clone, Debug, PartialEq, Eq)]
pub struct Instruction {
    pub program_id: Pubkey,
    pub accounts: Vec<AccountMeta>,
    pub data: Vec<u8>,
}

/// An instruction as values: program id, accounts, data.
pub type InstructionView = (Pubkey, Seq<AccountMeta>, Seq<u8>);

impl View for Instruction {
    type V = InstructionView;

    open spec fn view(&self) -> InstructionView {
        (self.program_id, self.accounts@, self.data@)
    }
}

pub open spec fn initialize_mint_view(
    decimals: u8,
    mint_acc: Pubkey,
    owner: Pubkey,
    sysvar_rent_acc: Pubkey,
    program_id: Pubkey,
) -> InstructionView {
    (
        program_id,
        seq![
            AccountMeta::spec_new(mint_acc, false),
            AccountMeta::spec_new_readonly(sysvar_rent_acc, false),
        ],
        seq![0u8, decimals] + owner@ + seq![0u8],
    )
}

pub open spec fn initialize_account_view(
    target_acc: Pubkey,
    mint_acc: Pubkey,
    owner: Pubkey,
    sysvar_rent_acc: Pubkey,
    program_id: Pubkey,
) -> InstructionView {
    (
        program_id,
        seq![
            AccountMeta::spec_new(target_acc, false),
            AccountMeta::spec_new_readonly(mint_acc, false),
            AccountMeta::spec_new_readonly(owner, false),
            AccountMeta::spec_new_readonly(sysvar_rent_acc, false),
        ],
        seq![1u8],
    )
}

/// An instruction whose data is a tag and an amount, and whose accounts are
/// two writable ones and a signing authority.
pub open spec fn amount_view(
    tag: u8,
    amount: u64,
    first: Pubkey,
    second: Pubkey,
    owner: Pubkey,
    program_id: Pubkey,
) -> InstructionView {
    (
        program_id,
        seq![
            AccountMeta::spec_new(first, false),
            AccountMeta::spec_new(second, false),
            AccountMeta::spec_new_readonly(owner, true),
        ],
        seq![tag] + spec_u64_to_le_bytes(amount),
    )
}

pub open spec fn transfer_view(
    amount: u64,
    src_acc: Pubkey,
    dst_acc: Pubkey,
    owner: Pubkey,
    program_id: Pubkey,
) -> InstructionView {
    amount_view(3, amount, src_acc, dst_acc, owner, program_id)
}

pub open spec fn mint_to_view(
    amount: u64,
    mint_acc: Pubkey,
    dst_acc: Pubkey,
    owner: Pubkey,
    program_id: Pubkey,
) -> InstructionView {
    amount_view(7, amount, mint_acc, dst_acc, owner, program_id)
}

pub open spec fn burn_view(
    amount: u64,
    src_acc: Pubkey,
    mint_acc: Pubkey,
    owner: Pubkey,
    program_id: Pubkey,
) -> InstructionView {
    amount_view(8, amount, src_acc, mint_acc, owner, program_id)
}

pub open spec fn close_account_view(
    src_acc: Pubkey,
    dst_acc: Pubkey,
    owner: Pubkey,
    program_id: Pubkey,
) -> InstructionView {
    (
        program_id,
        seq![
            AccountMeta::spec_new(src_acc, false),
            AccountMeta::spec_new(dst_acc, false),
            AccountMeta::spec_new_readonly(owner, true),
        ],
        seq![9u8],
    )
}

pub open spec fn create_associated_account_view(
    funding_acc: Pubkey,
    target_acc: Pubkey,
    owner: Pubkey,
    mint_acc: Pubkey,
    system_program: Pubkey,
    splt_program: Pubkey,
    sysvar_rent_acc: Pubkey,
    program_id: Pubkey,
) -> InstructionView {
    (
        program_id,
        seq![
            AccountMeta::spec_new(funding_acc, true),
            AccountMeta::spec_new(target_acc, false),
            AccountMeta::spec_new_readonly(owner, false),
            AccountMeta::spec_new_readonly(mint_acc, false),
            AccountMeta::spec_new_readonly(system_program, false),
            AccountMeta::spec_new_readonly(splt_program, false),
            AccountMeta::spec_new_readonly(sysvar_rent_acc, false),
        ],
        Seq::empty(),
    )
}

fn amount_instruction(
    tag: u8,
    amount: u64,
    first: Pubkey,
    second: Pubkey,
    owner: Pubkey,
    program_id: Pubkey,
) -> (r: Instruction)
    ensures
        r@ == amount_view(tag, amount, first, second, owner, program_id),
{
    let mut data: Vec<u8> = Vec::new();
    data.push(tag);
    let mut bytes = u64_to_le_bytes(amount);
    data.append(&mut bytes);
    let mut accounts: Vec<AccountMeta> = Vec::new();
    accounts.push(AccountMeta::new(first, false));
    accounts.push(AccountMeta::new(second, false));
    accounts.push(AccountMeta::new_readonly(owner, true));
    let r = Instruction { program_id, accounts, data };
    assert(r.data@ =~= seq![tag] + spec_u64_to_le_bytes(amount));
    assert(r.accounts@ =~= amount_view(tag, amount, first, second, owner, program_id).1);
    r
}

/// Instructions of the fungible-token program.
pub struct ISPLT {}

impl ISPLT {
    /// Creates a mint whose mint authority is `owner`, with no freeze authority.
    pub fn initialize_mint(
        decimals: u8,
        mint_acc: Pubkey,
        owner: Pubkey,
        sysvar_rent_acc: Pubkey,
        program_id: Pubkey,
    ) -> (r: Instruction)
        ensures
            r@ == initialize_mint_view(decimals, mint_acc, owner, sysvar_rent_acc, program_id),
    {
        let mut data: Vec<u8> = Vec::new();
        data.push(0);
        data.push(decimals);
        owner.write_to(&mut data);
        data.push(0);
        let mut accounts: Vec<AccountMeta> = Vec::new();
        accounts.push(AccountMeta::new(mint_acc, false));
        accounts.push(AccountMeta::new_readonly(sysvar_rent_acc, false));
        let r = Instruction { program_id, accounts, data };
        assert(r.data@ =~= seq![0u8, decimals] + owner@ + seq![0u8]);
        assert(r.accounts@ =~= initialize_mint_view(
            decimals,
            mint_acc,
            owner,
            sysvar_rent_acc,
            program_id,
        ).1);
        r
    }

    /// Initializes a token account of `mint_acc` owned by `owner`.
    pub fn initialize_account(
        target_acc: Pubkey,
        mint_acc: Pubkey,
        owner: Pubkey,
        sysvar_rent_acc: Pubkey,
        program_id: Pubkey,
    ) -> (r: Instruction)
        ensures
            r@ == initialize_account_view(target_acc, mint_acc, owner, sysvar_rent_acc, program_id),
    {
        let mut data: Vec<u8> = Vec::new();
        data.push(1);
        let mut accounts: Vec<AccountMeta> = Vec::new();
        accounts.push(AccountMeta::new(target_acc, false));
        accounts.push(AccountMeta::new_readonly(mint_acc, false));
        accounts.push(AccountMeta::new_readonly(owner, false));
        accounts.push(AccountMeta::new_readonly(sysvar_rent_acc, false));
        let r = Instruction { program_id, accounts, data };
        assert(r.data@ =~= seq![1u8]);
        assert(r.accounts@ =~= initialize_account_view(
            target_acc,
            mint_acc,
            owner,
            sysvar_rent_acc,
            program_id,
        ).1);
        r
    }

    /// Moves `amount` from `src_acc` to `dst_acc` under `owner`.
    pub fn transfer(
        amount: u64,
        src_acc: Pubkey,
        dst_acc: Pubkey,
        owner: Pubkey,
        program_id: Pubkey,
    ) -> (r: Instruction)
        ensures
            r@ == transfer_view(amount, src_acc, dst_acc, owner, program_id),
    {
        amount_instruction(3, amount, src_acc, dst_acc, owner, program_id)
    }

    /// Mints `amount` of `mint_acc` into `dst_acc` under `owner`.
    pub fn mint_to(
        amount: u64,
        mint_acc: Pubkey,
        dst_acc: Pubkey,
        owner: Pubkey,
        program_id: Pubkey,
    ) -> (r: Instruction)
        ensures
            r@ == mint_to_view(amount, mint_acc, dst_acc, owner, program_id),
    {
        amount_instruction(7, amount, mint_acc, dst_acc, owner, program_id)
    }

    /// Burns `amount` of `mint_acc` from `src_acc` under `owner`.
    pub fn burn(
        amount: u64,
        src_acc: Pubkey,
        mint_acc: Pubkey,
        owner: Pubkey,
        program_id: Pubkey,
    ) -> (r: Instruction)
        ensures
            r@ == burn_view(amount, src_acc, mint_acc, owner, program_id),
    {
        amount_instruction(8, amount, src_acc, mint_acc, owner, program_id)
    }

    /// Closes `src_acc`, sending its rent to `dst_acc`.
    pub fn close_account(src_acc: Pubkey, dst_acc: Pubkey, owner: Pubkey, program_id: Pubkey) -> (r:
        Instruction)
        ensures
            r@ == close_account_view(src_acc, dst_acc, owner, program_id),
    {
        let mut data: Vec<u8> = Vec::new();
        data.push(9);
        let mut accounts: Vec<AccountMeta> = Vec::new();
        accounts.push(AccountMeta::new(src_acc, false));
        accounts.push(AccountMeta::new(dst_acc, false));
        accounts.push(AccountMeta::new_readonly(owner, true));
        let r = Instruction { program_id, accounts, data };
        assert(r.data@ =~= seq![9u8]);
        assert(r.accounts@ =~= close_account_view(src_acc, dst_acc, owner, program_id).1);
        r
    }
}

/// Instructions of the associated-token-account program.
pub struct ISPLATA {}

impl ISPLATA {
    /// Creates the token account `target_acc` of `mint_acc` for `owner`,
    /// paid by `funding_acc`.
    pub fn initialize_account(
        funding_acc: Pubkey,
        target_acc: Pubkey,
        owner: Pubkey,
        mint_acc: Pubkey,
        system_program: Pubkey,
        splt_program: Pubkey,
        sysvar_rent_acc: Pubkey,
        program_id: Pubkey,
    ) -> (r: Instruction)
        ensures
            r@ == create_associated_account_view(
                funding_acc,
                target_acc,
                owner,
                mint_acc,
                system_program,
                splt_program,
                sysvar_rent_acc,
                program_id,
            ),
    {
        let data: Vec<u8> = Vec::new();
        let mut accounts: Vec<AccountMeta> = Vec::new();
        accounts.push(AccountMeta::new(funding_acc, true));
        accounts.push(AccountMeta::new(target_acc, false));
        accounts.push(AccountMeta::new_readonly(owner, false));
        accounts.push(AccountMeta::new_readonly(mint_acc, false));
        accounts.push(AccountMeta::new_readonly(system_program, false));
        accounts.push(AccountMeta::new_readonly(splt_program, false));
        accounts.push(AccountMeta::new_readonly(sysvar_rent_acc, false));
        let r = Instruction { program_id, accounts, data };
        assert(r.data@ =~= Seq::<u8>::empty());
        assert(r.accounts@ =~= create_associated_account_view(
            funding_acc,
            target_acc,
            owner,
            mint_acc,
            system_program,
            splt_program,
            sysvar_rent_acc,
            program_id,
        ).1);
        r
    }
}

} // verus!
