//! The token mint record (82 bytes), as far as the pool reads it.
use crate::error::ProcessError;
use crate::pubkey::Pubkey;
use vstd::bytes::{spec_u64_from_le_bytes, u64_from_le_bytes};
use vstd::prelude::*;

verus! {

/// Length of a packed mint record.
pub const MINT_LEN: usize = 82;

#[derive(Clone, Copy, Debug, PartialEq, Eq)]
pub struct Mint {
    pub mint_authority: Option<Pubkey>,
    pub supply: u64,
    pub decimals: u8,
    pub is_initialized: bool,
    pub freeze_authority: Option<Pubkey>,
}

/// The optional key in a 36-byte field: a 4-byte tag (0 or 1, little
/// endian) and the key.
pub open spec fn optional_key_decodes(s: Seq<u8>, k: Option<Pubkey>) -> bool {
    &&& s.len() == 36
    &&& s[1] == 0 && s[2] == 0 && s[3] == 0
    &&& match k {
        None => s[0] == 0,
        Some(key) => s[0] == 1 && key@ == s.subrange(4, 36),
    }
}

/// The 82 bytes `s` hold the mint `m`.
pub open spec fn mint_decodes(s: Seq<u8>, m: Mint) -> bool {
    &&& s.len() == 82
    &&& optional_key_decodes(s.subrange(0, 36), m.mint_authority)
    &&& m.supply == spec_u64_from_le_bytes(s.subrange(36, 44))
    &&& m.decimals == s[44]
    &&& (s[45] == 0 || s[45] == 1)
    &&& m.is_initialized == (s[45] == 1)
    &&& optional_key_decodes(s.subrange(46, 82), m.freeze_authority)
}

/// Whether `s` holds a well-formed mint record.
pub open spec fn mint_well_formed(s: Seq<u8>) -> bool {
    exists|m: Mint| mint_decodes(s, m)
}

/// The mint that `s` holds, if it holds a well-formed record.
pub open spec fn mint_of(s: Seq<u8>) -> Option<Mint> {
    if mint_well_formed(s) {
        Some(choose|m: Mint| mint_decodes(s, m))
    } else {
        None
    }
}

/// What `Mint::unpack_unchecked` returns on `s`.
pub open spec fn unpack_mint_unchecked(s: Seq<u8>) -> Result<Mint, ProcessError> {
    match mint_of(s) {
        Some(m) => Ok(m),
        None => Err(ProcessError::InvalidAccountData),
    }
}

/// What `Mint::unpack` returns on `s`.
pub open spec fn unpack_mint(s: Seq<u8>) -> Result<Mint, ProcessError> {
    match mint_of(s) {
        Some(m) => if m.is_initialized {
            Ok(m)
        } else {
            Err(ProcessError::UninitializedAccount)
        },
        None => Err(ProcessError::InvalidAccountData),
    }
}

proof fn lemma_optional_key_unique(s: Seq<u8>, a: Option<Pubkey>, b: Option<Pubkey>)
    requires
        optional_key_decodes(s, a),
        optional_key_decodes(s, b),
    ensures
        a == b,
{
    if a is Some && b is Some {
        crate::pubkey::lemma_view_injective(a.unwrap(), b.unwrap());
    }
}

/// A byte string decodes to at most one mint.
pub proof fn lemma_mint_decode_unique(s: Seq<u8>, a: Mint, b: Mint)
    requires
        mint_decodes(s, a),
        mint_decodes(s, b),
    ensures
        a == b,
{
    lemma_optional_key_unique(s.subrange(0, 36), a.mint_authority, b.mint_authority);
    lemma_optional_key_unique(s.subrange(46, 82), a.freeze_authority, b.freeze_authority);
}

fn unpack_optional_key(src: &[u8]) -> (r: Result<Option<Pubkey>, ProcessError>)
    requires
        src@.len() == 36,
    ensures
        r matches Ok(k) ==> optional_key_decodes(src@, k),
        r is Err ==> forall|k: Option<Pubkey>| !optional_key_decodes(src@, k),
        r is Err ==> r == Err::<Option<Pubkey>, ProcessError>(ProcessError::InvalidAccountData),
{
    if src[1] != 0 || src[2] != 0 || src[3] != 0 {
        return Err(ProcessError::InvalidAccountData);
    }
    if src[0] == 0 {
        Ok(None)
    } else if src[0] == 1 {
        let k = Pubkey::from_slice(&src[4..36]);
        assert(src@.subrange(4, 36).subrange(0, 32) =~= src@.subrange(4, 36));
        Ok(Some(k))
    } else {
        Err(ProcessError::InvalidAccountData)
    }
}

impl Mint {
    /// Reads a mint record, initialized or not.
    pub fn unpack_unchecked(src: &[u8]) -> (r: Result<Mint, ProcessError>)
        ensures
            r == unpack_mint_unchecked(src@),
    {
        if src.len() != MINT_LEN {
            return Err(ProcessError::InvalidAccountData);
        }
        let s = Ghost(src@);
        assert(src@.subrange(0, 36) =~= src@.subrange(0, 36));
        let mint_authority = match unpack_optional_key(&src[0..36]) {
            Ok(k) => k,
            Err(e) => {
                return Err(e);
            },
        };
        let supply = u64_from_le_bytes(&src[36..44]);
        let decimals = src[44];
        let is_initialized = if src[45] == 0 {
            false
        } else if src[45] == 1 {
            true
        } else {
            return Err(ProcessError::InvalidAccountData);
        };
        let freeze_authority = match unpack_optional_key(&src[46..82]) {
            Ok(k) => k,
            Err(e) => {
                return Err(e);
            },
        };
        let m = Mint { mint_authority, supply, decimals, is_initialized, freeze_authority };
        assert(mint_decodes(src@, m));
        proof {
            let c = choose|c: Mint| mint_decodes(src@, c);
            lemma_mint_decode_unique(src@, m, c);
        }
        Ok(m)
    }

    /// Reads a mint record that must be initialized.
    pub fn unpack(src: &[u8]) -> (r: Result<Mint, ProcessError>)
        ensures
            r == unpack_mint(src@),
    {
        let m = Self::unpack_unchecked(src)?;
        if !m.is_initialized {
            return Err(ProcessError::UninitializedAccount);
        }
        Ok(m)
    }
}

} // verus!
