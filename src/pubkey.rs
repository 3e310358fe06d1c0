//! 32-byte account addresses.
use vstd::prelude::*;

verus! {

broadcast use vstd::array::group_array_axioms;

/// An account address: 32 raw bytes.
#[derive(Clone, Copy, Debug)]
pub struct Pubkey(pub [u8; 32]);

impl View for Pubkey {
    type V = Seq<u8>;

    open spec fn view(&self) -> Seq<u8> {
        self.0@
    }
}

/// Bytewise exclusive or of two byte strings of equal length.
pub open spec fn xor_bytes(a: Seq<u8>, b: Seq<u8>) -> Seq<u8> {
    Seq::new(a.len(), |i: int| a[i] ^ b[i])
}

/// Two keys with the same bytes are the same key.
pub proof fn lemma_view_injective(a: Pubkey, b: Pubkey)
    requires
        a@ == b@,
    ensures
        a == b,
{
    assert(a.0 =~= b.0);
}

impl Pubkey {
    pub fn new_from_array(bytes: [u8; 32]) -> (r: Pubkey)
        ensures
            r.0 == bytes,
    {
        Pubkey(bytes)
    }

    pub fn to_bytes(&self) -> (r: [u8; 32])
        ensures
            r == self.0,
    {
        self.0
    }

    /// The key held in the first 32 bytes of `src`.
    pub fn from_slice(src: &[u8]) -> (r: Pubkey)
        requires
            src@.len() >= 32,
        ensures
            r@ == src@.subrange(0, 32),
    {
        let mut bytes = [0u8; 32];
        let mut i: usize = 0;
        while i < 32
            invariant
                src@.len() >= 32,
                i <= 32,
                forall|j: int| 0 <= j < i ==> bytes@[j] == src@[j],
            decreases 32 - i,
        {
            bytes[i] = src[i];
            i = i + 1;
        }
        let r = Pubkey(bytes);
        assert(r@ =~= src@.subrange(0, 32));
        r
    }

    /// Appends the key's bytes to `out`.
    pub fn write_to(&self, out: &mut Vec<u8>)
        ensures
            final(out)@ == old(out)@ + self@,
    {
        let mut i: usize = 0;
        while i < 32
            invariant
                i <= 32,
                out@ == old(out)@ + self@.subrange(0, i as int),
            decreases 32 - i,
        {
            out.push(self.0[i]);
            i = i + 1;
            assert(out@ =~= old(out)@ + self@.subrange(0, i as int));
        }
        assert(self@.subrange(0, 32) =~= self@);
    }

    /// Bytewise exclusive or.
    pub fn xor(&self, pk: &Pubkey) -> (r: Pubkey)
        ensures
            r@ == xor_bytes(self@, pk@),
    {
        let mut bytes = [0u8; 32];
        let mut i: usize = 0;
        while i < 32
            invariant
                i <= 32,
                forall|j: int| 0 <= j < i ==> bytes@[j] == self@[j] ^ pk@[j],
            decreases 32 - i,
        {
            bytes[i] = self.0[i] ^ pk.0[i];
            i = i + 1;
        }
        let r = Pubkey(bytes);
        assert(r@ =~= xor_bytes(self@, pk@));
        r
    }
}

/// The address derived from `seed` under `program_id`; none when the
/// derivation lands on the curve.
pub uninterp spec fn program_address(seed: Seq<u8>, program_id: Seq<u8>) -> Option<Seq<u8>>;

/// Relies on `solana_program::pubkey::Pubkey::create_program_address`: with a
/// single 32-byte seed it hashes the seed with the program id and fails only
/// when the hash is a curve point, so the result depends on the bytes alone.
#[verifier::external_body]
pub(crate) fn create_program_address(seed: &Pubkey, program_id: &Pubkey) -> (r: Option<Pubkey>)
    ensures
        r is None <==> program_address(seed@, program_id@) is None,
        r matches Some(k) ==> program_address(seed@, program_id@) == Some(k@),
{
    let program = solana_program::pubkey::Pubkey::new_from_array(program_id.0);
    match solana_program::pubkey::Pubkey::create_program_address(&[&seed.0], &program) {
        Ok(k) => Some(Pubkey(k.to_bytes())),
        Err(_) => None,
    }
}

impl PartialEq for Pubkey {
    fn eq(&self, other: &Pubkey) -> (r: bool) {
        let mut i: usize = 0;
        while i < 32
            invariant
                i <= 32,
                forall|j: int| 0 <= j < i ==> self@[j] == other@[j],
            decreases 32 - i,
        {
            if self.0[i] != other.0[i] {
                return false;
            }
            i = i + 1;
        }
        assert(self@ =~= other@);
        true
    }
}

impl vstd::std_specs::cmp::PartialEqSpecImpl for Pubkey {
    open spec fn obeys_eq_spec() -> bool {
        true
    }

    open spec fn eq_spec(&self, other: &Pubkey) -> bool {
        self@ == other@
    }
}

impl Eq for Pubkey {}

} // verus!
