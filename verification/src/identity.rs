//! Deterministic identity generation: a reproducible sequence of signing
//! keys derived from a base seed, so repeated runs of a scenario produce
//! byte-identical network topologies. For index `i` the 32-byte secret
//! scalar is the first block of the per-index deterministic bit stream
//! (seeded by `seed + i`) that is a valid scalar of the signing curve.
use vstd::prelude::*;
use rand::{Rng, SeedableRng};

verus! {

/// The 32-byte block that the deterministic bit generator yields on its
/// `draw`-th fill after being seeded from `seed`: the xorshift stream of
/// the `rand_xorshift` crate, seeded through `SeedableRng::seed_from_u64`.
/// A pure function of `seed` and `draw`; the exact algorithm is an
/// external compatibility contract (published seeds are precomputed
/// against it), so it is named, not restated.
pub uninterp spec fn rng_block(seed: u64, draw: nat) -> Seq<u8>;

/// Declares `rand_xorshift::XorShiftRng` (the deterministic bit
/// generator) as an opaque outside type, so it can stand in a field.
#[verifier::external_type_specification]
#[verifier::external_body]
pub struct ExXorShiftRng(rand_xorshift::XorShiftRng);

/// A deterministic bit generator together with the seed that created it
/// and how many 32-byte blocks it has yielded so far.
pub struct BlockSource {
    rng: rand_xorshift::XorShiftRng,
    seed: Ghost<u64>,
    draws: Ghost<nat>,
}

impl BlockSource {
    /// The seed this generator was created from.
    pub closed spec fn seed(self) -> u64 {
        self.seed@
    }

    /// How many blocks have been drawn so far.
    pub closed spec fn draws(self) -> nat {
        self.draws@
    }

    /// Relies on `rand_xorshift::XorShiftRng::seed_from_u64`: seeding is a
    /// pure function of the seed value.
    #[verifier::external_body]
    pub fn new(seed: u64) -> (r: BlockSource)
        ensures
            r.seed() == seed,
            r.draws() == 0,
    {
        BlockSource {
            rng: rand_xorshift::XorShiftRng::seed_from_u64(seed),
            seed: Ghost(seed),
            draws: Ghost(0),
        }
    }

    /// Relies on `Rng::fill_bytes` for `rand_xorshift::XorShiftRng`: each
    /// fill of a 32-byte buffer yields the next 32 bytes of the
    /// generator's deterministic stream, a function of the seed and of how
    /// many fills came before.
    #[verifier::external_body]
    pub fn next_block(&mut self) -> (b: Vec<u8>)
        ensures
            final(self).seed() == old(self).seed(),
            final(self).draws() == old(self).draws() + 1,
            b@ == rng_block(old(self).seed(), old(self).draws()),
            b@.len() == 32,
    {
        let mut b = [0u8; 32];
        self.rng.fill_bytes(&mut b);
        b.to_vec()
    }
}

/// The group order of the signing curve (secp256k1): valid secret scalars
/// are exactly the nonzero integers below it.
pub open spec fn curve_order() -> nat {
    0xFFFFFFFF_FFFFFFFF_FFFFFFFF_FFFFFFFE_BAAEDCE6_AF48A03B_BFD25E8C_D0364141nat
}

/// A byte sequence read as a big-endian unsigned integer.
pub open spec fn be_int(s: Seq<u8>) -> nat
    decreases s.len(),
{
    if s.len() == 0 {
        0
    } else {
        (be_int(s.drop_last()) * 256 + s.last()) as nat
    }
}

/// A candidate is a valid signing-curve scalar when it is 32 bytes long
/// and, read as a big-endian integer, nonzero and below the curve order.
pub open spec fn valid_scalar(s: Seq<u8>) -> bool {
    s.len() == 32 && 1 <= be_int(s) < curve_order()
}

/// Relies on `k256::ecdsa::SigningKey::from_slice` (reached through the
/// `enr` crate's re-export): on a 32-byte slice it succeeds exactly when
/// the bytes, as a big-endian integer, are nonzero and below the
/// secp256k1 group order.
#[verifier::external_body]
fn scalar_accepted(b: &Vec<u8>) -> (r: bool)
    requires
        b@.len() == 32,
    ensures
        r == valid_scalar(b@),
{
    enr::k256::ecdsa::SigningKey::from_slice(b.as_slice()).is_ok()
}

/// How many redraws a derivation will attempt before giving up. A draw is
/// a valid scalar with overwhelming probability (invalid candidates are a
/// vanishing fraction of 2^256), so the bound exists only to state
/// termination; it is never reached in practice.
pub const DRAW_LIMIT: u64 = 0xFFFF_FFFF;

/// Some draw within the attempt bound is a valid scalar — the condition
/// under which derivation for this per-index seed succeeds.
pub open spec fn derivable(seed: u64) -> bool {
    exists|d: nat| d < DRAW_LIMIT && valid_scalar(#[trigger] rng_block(seed, d))
}

/// `d` is the first draw of `seed`'s stream that yields a valid scalar.
pub open spec fn is_first_valid_draw(seed: u64, d: nat) -> bool {
    valid_scalar(rng_block(seed, d)) && (forall|j: nat| j < d ==> !valid_scalar(rng_block(seed, j)))
}

/// The index of the first valid draw of `seed`'s stream (meaningful only
/// where some draw is valid; derivation returns only in that case).
pub open spec fn first_valid_draw(seed: u64) -> nat {
    choose|d: nat| is_first_valid_draw(seed, d)
}

/// The secret scalar derived from one per-index seed: the first drawn
/// block that is a valid scalar.
pub open spec fn scalar_for_seed(seed: u64) -> Seq<u8> {
    rng_block(seed, first_valid_draw(seed))
}

/// The derived key sequence is a pure function of count and seed.
pub open spec fn spec_generate(n: nat, seed: u64) -> Seq<Seq<u8>> {
    Seq::new(n, |i: int| scalar_for_seed((seed + i) as u64))
}

proof fn lemma_first_valid_unique(seed: u64, d: nat)
    requires
        is_first_valid_draw(seed, d),
    ensures
        first_valid_draw(seed) == d,
{
    let c = first_valid_draw(seed);
    assert(is_first_valid_draw(seed, c));
    if c < d {
        assert(!valid_scalar(rng_block(seed, c)));
        assert(false);
    }
    if d < c {
        assert(!valid_scalar(rng_block(seed, d)));
        assert(false);
    }
}

/// Identity secret-key material: a 32-byte scalar of the signing curve.
pub struct IdentityKey {
    bytes: Vec<u8>,
}

impl View for IdentityKey {
    type V = Seq<u8>;

    closed spec fn view(&self) -> Seq<u8> {
        self.bytes@
    }
}

impl IdentityKey {
    /// Validity: the bytes form a secret scalar of the signing curve.
    pub open spec fn wf(self) -> bool {
        valid_scalar(self@)
    }

    /// The raw 32 secret-scalar bytes, big-endian — the encoding the
    /// identity is published under and rebuilt from.
    pub fn bytes(&self) -> (r: &Vec<u8>)
        ensures
            r@ == self@,
    {
        &self.bytes
    }

    /// Rebuild an identity from its published encoding.
    pub fn from_bytes(bytes: Vec<u8>) -> (r: Result<IdentityKey, ()>)
        ensures
            match r {
                Ok(k) => k@ == bytes@ && k.wf(),
                Err(()) => !valid_scalar(bytes@),
            },
    {
        if bytes.len() == 32 && scalar_accepted(&bytes) {
            Ok(IdentityKey { bytes })
        } else {
            Err(())
        }
    }
}

/// Draw 32-byte blocks from the stream seeded by `seed` until one is a
/// valid scalar; the result is the first such block.
fn derive_one(seed: u64) -> (r: Option<Vec<u8>>)
    ensures
        match r {
            Some(b) => b@ == scalar_for_seed(seed) && valid_scalar(b@) && derivable(seed),
            None => !derivable(seed),
        },
{
    let mut src = BlockSource::new(seed);
    let mut attempts: u64 = 0;
    while attempts < DRAW_LIMIT
        invariant
            src.seed() == seed,
            src.draws() == attempts,
            attempts <= DRAW_LIMIT,
            forall|j: nat| j < src.draws() ==> !valid_scalar(rng_block(seed, j)),
        decreases DRAW_LIMIT - attempts,
    {
        let b = src.next_block();
        attempts = attempts + 1;
        if scalar_accepted(&b) {
            proof {
                let d = (src.draws() - 1) as nat;
                assert(b@ == rng_block(seed, d));
                assert(is_first_valid_draw(seed, d));
                lemma_first_valid_unique(seed, d);
                assert(d < DRAW_LIMIT && valid_scalar(rng_block(seed, d)));
            }
            return Some(b);
        }
        proof {
            assert forall|j: nat| j < src.draws() implies !valid_scalar(rng_block(seed, j)) by {
                if j == src.draws() - 1 {
                    assert(rng_block(seed, j) == b@);
                }
            }
        }
    }
    None
}

/// Generation gives up only when some per-index stream yields no valid
/// scalar within the attempt bound (never observed in practice).
#[derive(PartialEq, Eq, Structural, Clone, Copy, Debug)]
pub enum IdentityError {
    DrawsExhausted,
}

/// Derive the reproducible sequence of `n` identity keys from a base
/// seed: index `i` uses the per-index seed `seed + i`. Deterministic: the
/// result is a function of `n` and `seed` alone.
pub fn generate_deterministic_keypair(n: usize, seed: u64) -> (r: Result<
    Vec<IdentityKey>,
    IdentityError,
>)
    requires
        seed + n <= u64::MAX,
    ensures
        match r {
            Ok(keys) => keys@.len() == n && (forall|i: int|
                0 <= i < n ==> (#[trigger] keys@[i])@ == spec_generate(n as nat, seed)[i]
                    && keys@[i].wf()),
            Err(e) => e == IdentityError::DrawsExhausted && (exists|i: int|
                0 <= i < n && !#[trigger] derivable((seed + i) as u64)),
        },
{
    let mut keys: Vec<IdentityKey> = Vec::new();
    let mut i: usize = 0;
    while i < n
        invariant
            i <= n,
            seed + n <= u64::MAX,
            keys@.len() == i,
            forall|j: int|
                0 <= j < i ==> (#[trigger] keys@[j])@ == scalar_for_seed((seed + j) as u64)
                    && keys@[j].wf(),
        decreases n - i,
    {
        match derive_one(seed + i as u64) {
            Some(b) => {
                keys.push(IdentityKey { bytes: b });
            },
            None => {
                return Err(IdentityError::DrawsExhausted);
            },
        }
        i = i + 1;
    }
    Ok(keys)
}

/// Determinism law: any two key sequences that meet the generator's
/// contract for the same count and seed agree byte for byte — two
/// invocations with identical arguments yield identical sequences.
pub proof fn lemma_generate_deterministic(ka: Seq<Seq<u8>>, kb: Seq<Seq<u8>>, n: nat, seed: u64)
    requires
        ka.len() == n,
        kb.len() == n,
        forall|i: int| 0 <= i < n ==> #[trigger] ka[i] == spec_generate(n, seed)[i],
        forall|i: int| 0 <= i < n ==> #[trigger] kb[i] == spec_generate(n, seed)[i],
    ensures
        ka == kb,
{
    assert(ka =~= kb);
}

} // verus!
