//! The pool record and its fixed 313-byte little-endian layout.
use crate::error::ProcessError;
use crate::pubkey::{lemma_view_injective, Pubkey};
use vstd::bytes::{
    lemma_auto_spec_u64_to_from_le_bytes, spec_u64_from_le_bytes, spec_u64_to_le_bytes,
    u64_from_le_bytes, u64_to_le_bytes,
};
use vstd::prelude::*;

verus! {

/// Length of a packed pool record.
pub const POOL_LEN: usize = 313;

#[derive(Clone, Copy, Debug, PartialEq, Eq, Structural)]
pub enum PoolState {
    Uninitialized,
    Initialized,
    Frozen,
}

impl PoolState {
    pub open spec fn spec_to_byte(&self) -> u8 {
        match self {
            PoolState::Uninitialized => 0,
            PoolState::Initialized => 1,
            PoolState::Frozen => 2,
        }
    }

    pub fn to_byte(&self) -> (r: u8)
        ensures
            r == self.spec_to_byte(),
    {
        match self {
            PoolState::Uninitialized => 0,
            PoolState::Initialized => 1,
            PoolState::Frozen => 2,
        }
    }

    /// The state a byte encodes; bytes above 2 encode none.
    pub fn from_byte(b: u8) -> (r: Option<PoolState>)
        ensures
            r is None <==> b > 2,
            r matches Some(s) ==> s.spec_to_byte() == b,
    {
        match b {
            0 => Some(PoolState::Uninitialized),
            1 => Some(PoolState::Initialized),
            2 => Some(PoolState::Frozen),
            _ => None,
        }
    }
}

impl Default for PoolState {
    fn default() -> (r: PoolState)
        ensures
            r == PoolState::Uninitialized,
    {
        PoolState::Uninitialized
    }
}

/// One trading venue: its owner, state, LP mint, vault, and for each asset
/// S, A, B its mint, treasury and cached reserve.
#[derive(Clone, Copy, Debug, PartialEq, Eq)]
pub struct Pool {
    pub owner: Pubkey,
    pub state: PoolState,
    pub mint_lpt: Pubkey,
    pub vault: Pubkey,
    pub mint_s: Pubkey,
    pub treasury_s: Pubkey,
    pub reserve_s: u64,
    pub mint_a: Pubkey,
    pub treasury_a: Pubkey,
    pub reserve_a: u64,
    pub mint_b: Pubkey,
    pub treasury_b: Pubkey,
    pub reserve_b: u64,
}

/// The packed record of `p`.
pub open spec fn pool_bytes(p: Pool) -> Seq<u8> {
    p.owner@ + seq![p.state.spec_to_byte()] + p.mint_lpt@ + p.vault@ + p.mint_s@ + p.treasury_s@
        + spec_u64_to_le_bytes(p.reserve_s) + p.mint_a@ + p.treasury_a@ + spec_u64_to_le_bytes(
        p.reserve_a,
    ) + p.mint_b@ + p.treasury_b@ + spec_u64_to_le_bytes(p.reserve_b)
}

/// `p` is what the 313 bytes `s` hold.
pub open spec fn pool_decodes(s: Seq<u8>, p: Pool) -> bool {
    &&& s.len() == 313
    &&& p.owner@ == s.subrange(0, 32)
    &&& p.state.spec_to_byte() == s[32]
    &&& p.mint_lpt@ == s.subrange(33, 65)
    &&& p.vault@ == s.subrange(65, 97)
    &&& p.mint_s@ == s.subrange(97, 129)
    &&& p.treasury_s@ == s.subrange(129, 161)
    &&& p.reserve_s == spec_u64_from_le_bytes(s.subrange(161, 169))
    &&& p.mint_a@ == s.subrange(169, 201)
    &&& p.treasury_a@ == s.subrange(201, 233)
    &&& p.reserve_a == spec_u64_from_le_bytes(s.subrange(233, 241))
    &&& p.mint_b@ == s.subrange(241, 273)
    &&& p.treasury_b@ == s.subrange(273, 305)
    &&& p.reserve_b == spec_u64_from_le_bytes(s.subrange(305, 313))
}

/// The pool that `s` holds, if it holds one: 313 bytes with a known state byte.
pub open spec fn pool_of(s: Seq<u8>) -> Option<Pool> {
    if s.len() == 313 && s[32] <= 2 {
        Some(choose|p: Pool| pool_decodes(s, p))
    } else {
        None
    }
}

/// What `Pool::unpack_unchecked` returns on `s`.
pub open spec fn unpack_pool_unchecked(s: Seq<u8>) -> Result<Pool, ProcessError> {
    match pool_of(s) {
        Some(p) => Ok(p),
        None => Err(ProcessError::InvalidAccountData),
    }
}

/// What `Pool::unpack` returns on `s`.
pub open spec fn unpack_pool(s: Seq<u8>) -> Result<Pool, ProcessError> {
    match pool_of(s) {
        Some(p) => if p.spec_is_initialized() {
            Ok(p)
        } else {
            Err(ProcessError::UninitializedAccount)
        },
        None => Err(ProcessError::InvalidAccountData),
    }
}

proof fn lemma_state_byte_injective(a: PoolState, b: PoolState)
    requires
        a.spec_to_byte() == b.spec_to_byte(),
    ensures
        a == b,
{
}

/// A byte string decodes to at most one pool.
pub proof fn lemma_decode_unique(s: Seq<u8>, p: Pool, q: Pool)
    requires
        pool_decodes(s, p),
        pool_decodes(s, q),
    ensures
        p == q,
{
    lemma_view_injective(p.owner, q.owner);
    lemma_view_injective(p.mint_lpt, q.mint_lpt);
    lemma_view_injective(p.vault, q.vault);
    lemma_view_injective(p.mint_s, q.mint_s);
    lemma_view_injective(p.treasury_s, q.treasury_s);
    lemma_view_injective(p.mint_a, q.mint_a);
    lemma_view_injective(p.treasury_a, q.treasury_a);
    lemma_view_injective(p.mint_b, q.mint_b);
    lemma_view_injective(p.treasury_b, q.treasury_b);
    lemma_state_byte_injective(p.state, q.state);
}

/// Packing yields exactly 313 bytes, and unpacking them gives the pool back.
pub proof fn lemma_pack_round_trip(p: Pool)
    ensures
        pool_bytes(p).len() == 313,
        pool_of(pool_bytes(p)) == Some(p),
{
    lemma_auto_spec_u64_to_from_le_bytes();
    let s = pool_bytes(p);
    assert(s.len() == 313);
    assert(s.subrange(0, 32) =~= p.owner@);
    assert(s.subrange(33, 65) =~= p.mint_lpt@);
    assert(s.subrange(65, 97) =~= p.vault@);
    assert(s.subrange(97, 129) =~= p.mint_s@);
    assert(s.subrange(129, 161) =~= p.treasury_s@);
    assert(s.subrange(161, 169) =~= spec_u64_to_le_bytes(p.reserve_s));
    assert(s.subrange(169, 201) =~= p.mint_a@);
    assert(s.subrange(201, 233) =~= p.treasury_a@);
    assert(s.subrange(233, 241) =~= spec_u64_to_le_bytes(p.reserve_a));
    assert(s.subrange(241, 273) =~= p.mint_b@);
    assert(s.subrange(273, 305) =~= p.treasury_b@);
    assert(s.subrange(305, 313) =~= spec_u64_to_le_bytes(p.reserve_b));
    assert(pool_decodes(s, p));
    let q = choose|q: Pool| pool_decodes(s, q);
    lemma_decode_unique(s, p, q);
}

impl Pool {
    pub open spec fn spec_is_frozen(&self) -> bool {
        self.state == PoolState::Frozen
    }

    pub open spec fn spec_is_initialized(&self) -> bool {
        self.state != PoolState::Uninitialized
    }

    /// What `get_reserve` finds for `treasury`: its code and cached reserve.
    pub open spec fn spec_get_reserve(&self, treasury: Seq<u8>) -> Option<(u8, u64)> {
        if self.treasury_s@ == treasury {
            Some((0, self.reserve_s))
        } else if self.treasury_a@ == treasury {
            Some((1, self.reserve_a))
        } else if self.treasury_b@ == treasury {
            Some((2, self.reserve_b))
        } else {
            None
        }
    }

    pub fn is_frozen(&self) -> (r: bool)
        ensures
            r == self.spec_is_frozen(),
    {
        self.state == PoolState::Frozen
    }

    pub fn is_initialized(&self) -> (r: bool)
        ensures
            r == self.spec_is_initialized(),
    {
        self.state != PoolState::Uninitialized
    }

    /// The code (0 for S, 1 for A, 2 for B) and reserve of the asset whose
    /// treasury is `treasury`.
    pub fn get_reserve(&self, treasury: &Pubkey) -> (r: Option<(u8, u64)>)
        ensures
            r == self.spec_get_reserve(treasury@),
    {
        if self.treasury_s == *treasury {
            return Some((0, self.reserve_s));
        }
        if self.treasury_a == *treasury {
            return Some((1, self.reserve_a));
        }
        if self.treasury_b == *treasury {
            return Some((2, self.reserve_b));
        }
        None
    }

    /// The packed record.
    pub fn pack(&self) -> (r: Vec<u8>)
        ensures
            r@ == pool_bytes(*self),
            r@.len() == POOL_LEN,
    {
        let mut out: Vec<u8> = Vec::new();
        self.owner.write_to(&mut out);
        out.push(self.state.to_byte());
        self.mint_lpt.write_to(&mut out);
        self.vault.write_to(&mut out);
        self.mint_s.write_to(&mut out);
        self.treasury_s.write_to(&mut out);
        let mut r = u64_to_le_bytes(self.reserve_s);
        out.append(&mut r);
        self.mint_a.write_to(&mut out);
        self.treasury_a.write_to(&mut out);
        let mut r = u64_to_le_bytes(self.reserve_a);
        out.append(&mut r);
        self.mint_b.write_to(&mut out);
        self.treasury_b.write_to(&mut out);
        let mut r = u64_to_le_bytes(self.reserve_b);
        out.append(&mut r);
        proof {
            lemma_pack_round_trip(*self);
        }
        assert(out@ =~= pool_bytes(*self));
        out
    }

    /// Reads a pool record without asking that it be initialized.
    pub fn unpack_unchecked(src: &[u8]) -> (r: Result<Pool, ProcessError>)
        ensures
            r == unpack_pool_unchecked(src@),
    {
        if src.len() != POOL_LEN {
            return Err(ProcessError::InvalidAccountData);
        }
        let state = match PoolState::from_byte(src[32]) {
            Some(s) => s,
            None => return Err(ProcessError::InvalidAccountData),
        };
        let p = Pool {
            owner: Pubkey::from_slice(&src[0..32]),
            state,
            mint_lpt: Pubkey::from_slice(&src[33..65]),
            vault: Pubkey::from_slice(&src[65..97]),
            mint_s: Pubkey::from_slice(&src[97..129]),
            treasury_s: Pubkey::from_slice(&src[129..161]),
            reserve_s: u64_from_le_bytes(&src[161..169]),
            mint_a: Pubkey::from_slice(&src[169..201]),
            treasury_a: Pubkey::from_slice(&src[201..233]),
            reserve_a: u64_from_le_bytes(&src[233..241]),
            mint_b: Pubkey::from_slice(&src[241..273]),
            treasury_b: Pubkey::from_slice(&src[273..305]),
            reserve_b: u64_from_le_bytes(&src[305..313]),
        };
        proof {
            let s = src@;
            assert(s.subrange(0, 32).subrange(0, 32) =~= s.subrange(0, 32));
            assert(s.subrange(33, 65).subrange(0, 32) =~= s.subrange(33, 65));
            assert(s.subrange(65, 97).subrange(0, 32) =~= s.subrange(65, 97));
            assert(s.subrange(97, 129).subrange(0, 32) =~= s.subrange(97, 129));
            assert(s.subrange(129, 161).subrange(0, 32) =~= s.subrange(129, 161));
            assert(s.subrange(169, 201).subrange(0, 32) =~= s.subrange(169, 201));
            assert(s.subrange(201, 233).subrange(0, 32) =~= s.subrange(201, 233));
            assert(s.subrange(241, 273).subrange(0, 32) =~= s.subrange(241, 273));
            assert(s.subrange(273, 305).subrange(0, 32) =~= s.subrange(273, 305));
            assert(pool_decodes(s, p));
            let q = choose|q: Pool| pool_decodes(s, q);
            lemma_decode_unique(s, p, q);
        }
        Ok(p)
    }

    /// Reads a pool record that must be initialized.
    pub fn unpack(src: &[u8]) -> (r: Result<Pool, ProcessError>)
        ensures
            r == unpack_pool(src@),
    {
        let p = Self::unpack_unchecked(src)?;
        if !p.is_initialized() {
            return Err(ProcessError::UninitializedAccount);
        }
        Ok(p)
    }
}

} // verus!
