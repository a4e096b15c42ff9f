//! Issuer keys, claim requests and primary credentials of CL signatures.
use crate::bignat::{
    bit_len, bn_add, bn_cmp, bn_from_u32, bn_generate_prime, bn_is_prime, bn_mod_exp,
    bn_mod_mul, bn_mod_sqr, bn_mul, bn_num_bits, bn_rand, bn_rand_range, bn_sub, byte_len,
    is_prime, BigNat,
};
use core::cmp::Ordering;
use openssl::error::ErrorStack;
use vstd::arithmetic::power::pow;
use vstd::arithmetic::power2::{lemma2_to64, lemma_pow2_adds, lemma_pow2_strictly_increases, pow2};
use vstd::arithmetic::div_mod::lemma_fundamental_div_mod;
use vstd::arithmetic::mul::{lemma_mul_inequality, lemma_mul_is_commutative, lemma_mul_is_distributive_add_other_way};
use vstd::prelude::*;

verus! {

/// Bits of a holder's master secret.
pub const LARGE_MASTER_SECRET: u32 = 256;

/// Bits of each of the primes `p'`, `q'` behind an issuer key.
pub const LARGE_PRIME: u32 = 1024;

/// Bits of the holder's blinding exponent `v'`.
pub const LARGE_VPRIME: u32 = 2128;

/// Bits of the issuer's signature randomizer `v''`.
pub const LARGE_VPRIME_PRIME: u32 = 2724;

/// The signature exponent `e` is drawn from `[2^LARGE_E_START, 2^LARGE_E_START + 2^LARGE_E_END_RANGE)`.
pub const LARGE_E_START: u32 = 596;

pub const LARGE_E_END_RANGE: u32 = 119;

/// Candidates tried when searching a window for a prime.
pub const PRIME_SEARCH_ITERATIONS: u64 = 100000;

/// Candidates `p'` tried before key generation gives up on finding a safe prime.
pub const SAFE_PRIME_ATTEMPTS: u64 = 100000;

#[derive(Clone, Copy, Debug, PartialEq, Eq, Structural)]
pub enum AnoncredsError {
    /// A bounded prime search used up its iterations.
    PrimeNotFound,
    /// Safe-prime generation did not converge, or given primes are not safe primes.
    KeyGenerationFailed,
    /// An attribute value does not fit its schema entry.
    InvalidAttributeEncoding,
    /// The integer library reported a fault.
    ArithmeticFailure,
}

/// Maps a fault of the integer library to `ArithmeticFailure`.
pub(crate) fn lift<T>(r: Result<T, ErrorStack>) -> (o: Result<T, AnoncredsError>)
    ensures
        match r {
            Ok(v) => o == Ok::<T, AnoncredsError>(v),
            Err(_) => o == Err::<T, AnoncredsError>(AnoncredsError::ArithmeticFailure),
        },
{
    match r {
        Ok(v) => Ok(v),
        Err(_) => Err(AnoncredsError::ArithmeticFailure),
    }
}

/// `q` is the square of some number modulo `n`.
pub open spec fn is_quadratic_residue(q: nat, n: nat) -> bool {
    exists|t: nat| t < n && #[trigger] ((t * t) % n) == q
}

/// Miller-Rabin rounds for a candidate of `bits` bits, after the table of
/// the Handbook of Applied Cryptography (error below 2^-80).
pub open spec fn rounds_for_bits(bits: nat) -> u32 {
    if bits >= 1300 {
        2
    } else if bits >= 850 {
        3
    } else if bits >= 650 {
        4
    } else if bits >= 550 {
        5
    } else if bits >= 450 {
        6
    } else if bits >= 400 {
        7
    } else if bits >= 350 {
        8
    } else if bits >= 300 {
        9
    } else if bits >= 250 {
        12
    } else if bits >= 200 {
        15
    } else if bits >= 150 {
        18
    } else {
        27
    }
}

pub struct AnoncredsService {
    pub dummy: String,
}

impl AnoncredsService {
    /// A uniformly random `x` with `start < x < end`.
    pub fn random_in_range(start: &BigNat, end: &BigNat) -> (r: Result<BigNat, AnoncredsError>)
        requires
            start.wf(),
            end.wf(),
            start.value() + 1 < end.value(),
        ensures
            r matches Ok(x) ==> x.wf() && start.value() < x.value() < end.value(),
            r matches Err(e) ==> e == AnoncredsError::ArithmeticFailure,
    {
        let one = lift(bn_from_u32(1))?;
        let sub = lift(bn_sub(end, start))?;
        let width = lift(bn_sub(&sub, &one))?;
        let offset = lift(bn_rand_range(&width))?;
        let low = lift(bn_add(start, &one))?;
        lift(bn_add(&low, &offset))
    }

    /// The square, modulo `n`, of a random number in `(0, n)`.
    pub fn random_qr(n: &BigNat) -> (r: Result<BigNat, AnoncredsError>)
        requires
            n.wf(),
            n.value() > 1,
        ensures
            r matches Ok(q) ==> q.wf() && q.value() < n.value() && is_quadratic_residue(
                q.value(),
                n.value(),
            ),
            r matches Err(e) ==> e == AnoncredsError::ArithmeticFailure,
    {
        let zero = lift(bn_from_u32(0))?;
        let root = Self::random_in_range(&zero, n)?;
        let q = lift(bn_mod_sqr(&root, n))?;
        assert(((root.value() * root.value()) % n.value()) == q.value());
        Ok(q)
    }

    /// Rounds of primality testing for `prime`, scaled to its length in bits.
    pub fn count_rounds_for_prime_check(prime: &BigNat) -> (r: Result<u32, AnoncredsError>)
        requires
            prime.wf(),
        ensures
            r matches Ok(n) ==> n == rounds_for_bits(bit_len(prime.value())),
            r matches Err(e) ==> e == AnoncredsError::ArithmeticFailure,
    {
        let bits = lift(bn_num_bits(prime))?;
        Ok(
            if bits >= 1300 {
                2
            } else if bits >= 850 {
                3
            } else if bits >= 650 {
                4
            } else if bits >= 550 {
                5
            } else if bits >= 450 {
                6
            } else if bits >= 400 {
                7
            } else if bits >= 350 {
                8
            } else if bits >= 300 {
                9
            } else if bits >= 250 {
                12
            } else if bits >= 200 {
                15
            } else if bits >= 150 {
                18
            } else {
                27
            },
        )
    }

    /// Draws candidates from `(start, end)` until one passes primality testing, at
    /// most `max_iterations` times; also returns how many candidates failed the test.
    /// `PrimeNotFound` comes exactly when all `max_iterations` candidates failed.
    pub fn search_prime_in_range(start: &BigNat, end: &BigNat, max_iterations: u64) -> (r: (
        Result<BigNat, AnoncredsError>,
        u64,
    ))
        requires
            start.wf(),
            end.wf(),
            start.value() + 1 < end.value(),
        ensures
            r.1 <= max_iterations,
            r.0 matches Ok(x) ==> x.wf() && start.value() < x.value() < end.value(),
            r.0 == Err::<BigNat, AnoncredsError>(AnoncredsError::PrimeNotFound) <==> r.1
                == max_iterations,
            r.0 matches Err(e) ==> e == AnoncredsError::PrimeNotFound || e
                == AnoncredsError::ArithmeticFailure,
            (forall|x: nat| start.value() < x < end.value() ==> is_prime(x)) ==> r.1 == 0,
    {
        let mut failed: u64 = 0;
        while failed < max_iterations
            invariant
                start.wf(),
                end.wf(),
                start.value() + 1 < end.value(),
                failed <= max_iterations,
                (forall|x: nat| start.value() < x < end.value() ==> is_prime(x)) ==> failed == 0,
            decreases max_iterations - failed,
        {
            let candidate = match Self::random_in_range(start, end) {
                Ok(c) => c,
                Err(e) => {
                    return (Err(e), failed);
                },
            };
            let passed = match Self::is_probable_prime(&candidate) {
                Ok(b) => b,
                Err(e) => {
                    return (Err(e), failed);
                },
            };
            if passed {
                return (Ok(candidate), failed);
            }
            failed = failed + 1;
        }
        (Err(AnoncredsError::PrimeNotFound), failed)
    }

    /// Draws up to `max_iterations` candidates from `(start, end)` and returns the
    /// first that passes primality testing.
    pub fn generate_prime_in_range(start: &BigNat, end: &BigNat, max_iterations: u64) -> (r: Result<
        BigNat,
        AnoncredsError,
    >)
        requires
            start.wf(),
            end.wf(),
            start.value() + 1 < end.value(),
        ensures
            r matches Ok(x) ==> x.wf() && start.value() < x.value() < end.value(),
            max_iterations == 0 ==> r == Err::<BigNat, AnoncredsError>(
                AnoncredsError::PrimeNotFound,
            ),
            max_iterations > 0 && (forall|x: nat| start.value() < x < end.value() ==> is_prime(x))
                ==> r != Err::<BigNat, AnoncredsError>(AnoncredsError::PrimeNotFound),
            r matches Err(e) ==> e == AnoncredsError::PrimeNotFound || e
                == AnoncredsError::ArithmeticFailure,
    {
        Self::search_prime_in_range(start, end, max_iterations).0
    }

    /// Whether `x` passes primality testing.
    pub fn is_probable_prime(x: &BigNat) -> (r: Result<bool, AnoncredsError>)
        requires
            x.wf(),
        ensures
            r matches Ok(b) ==> (is_prime(x.value()) ==> b),
            r matches Err(e) ==> e == AnoncredsError::ArithmeticFailure,
    {
        let checks = Self::count_rounds_for_prime_check(x)?;
        lift(bn_is_prime(x, checks))
    }
}

/// `byte_len` of a number with exactly `k` bytes.
proof fn lemma_byte_len_exact(v: nat, k: nat)
    requires
        k >= 1,
        pow2((8 * (k - 1)) as nat) <= v < pow2(8 * k),
    ensures
        byte_len(v) == k,
    decreases k,
{
    reveal(pow2);
    lemma_pow2_adds((8 * (k - 1)) as nat, 8);
    lemma2_to64();
    assert(8 * k == (8 * (k - 1)) as nat + 8);
    assert(v / 256 < pow2((8 * (k - 1)) as nat)) by {
        lemma_div_strict_upper(v, pow2((8 * (k - 1)) as nat), 256);
    }
    if k == 1 {

        assert(v / 256 == 0);
        assert(byte_len(0) == 0);
    } else {
        lemma_pow2_adds((8 * (k - 2)) as nat, 8);
        assert(8 * (k - 1) == (8 * (k - 2)) as nat + 8);
        assert(pow2((8 * (k - 2)) as nat) <= v / 256) by {
            lemma_div_lower(v, pow2((8 * (k - 2)) as nat), 256);
        }
        lemma_byte_len_exact(v / 256, (k - 1) as nat);
    }
}

/// `v / d < b` whenever `v < b * d`.
proof fn lemma_div_strict_upper(v: nat, b: nat, d: nat)
    requires
        d > 0,
        v < b * d,
    ensures
        v / d < b,
{
    lemma_fundamental_div_mod(v as int, d as int);
    if v / d >= b {
        lemma_mul_inequality(b as int, (v / d) as int, d as int);
        lemma_mul_is_commutative(d as int, (v / d) as int);
    }
}

/// `b <= v / d` whenever `b * d <= v`.
proof fn lemma_div_lower(v: nat, b: nat, d: nat)
    requires
        d > 0,
        b * d <= v,
    ensures
        b <= v / d,
{
    lemma_fundamental_div_mod(v as int, d as int);
    if v / d < b {
        lemma_mul_inequality((v / d + 1) as int, b as int, d as int);
        lemma_mul_is_distributive_add_other_way(d as int, (v / d) as int, 1);
        lemma_mul_is_commutative(d as int, (v / d) as int);
    }
}

impl AnoncredsService {
    pub fn new() -> (r: AnoncredsService)
        ensures
            r.dummy@ == "anoncreds_dummy"@,
    {
        AnoncredsService { dummy: "anoncreds_dummy".to_string() }
    }

    /// A uniformly random master secret of exactly `LARGE_MASTER_SECRET` bits.
    pub fn generate_master_secret() -> (r: Result<BigNat, AnoncredsError>)
        ensures
            r matches Ok(ms) ==> ms.wf() && pow2((LARGE_MASTER_SECRET - 1) as nat) <= ms.value()
                < pow2(LARGE_MASTER_SECRET as nat) && byte_len(ms.value()) == LARGE_MASTER_SECRET
                / 8,
            r matches Err(e) ==> e == AnoncredsError::ArithmeticFailure,
    {
        let ms = lift(bn_rand(LARGE_MASTER_SECRET, true))?;
        proof {
            assert(pow2(256) == pow2(8 * 32));
            assert(pow2(255) >= pow2(8 * 31)) by {
                lemma_pow2_strictly_increases(248, 255);
            }
            lemma_byte_len_exact(ms.value(), 32);
        }
        Ok(ms)
    }
}


/// An issuer's published signing parameters: modulus `n`, generator `s`, the
/// master-secret base `rms`, and the bases `z` and `r[i]` (one per attribute).
#[derive(Clone, Debug)]
pub struct PublicKey {
    pub n: BigNat,
    pub s: BigNat,
    pub rms: BigNat,
    pub z: BigNat,
    pub r: Vec<BigNat>,
}

/// An issuer's factorisation secret: `p = 2p' + 1` and `q = 2q' + 1`.
#[derive(Clone, Debug)]
pub struct PrivateKey {
    pub p_prime: BigNat,
    pub q_prime: BigNat,
    pub p: BigNat,
    pub q: BigNat,
}

impl PublicKey {
    pub open spec fn wf(&self) -> bool {
        &&& self.n.wf()
        &&& self.s.wf()
        &&& self.rms.wf()
        &&& self.z.wf()
        &&& forall|i: int| 0 <= i < self.r@.len() ==> (#[trigger] self.r@[i]).wf()
        &&& self.n.value() > 1
    }

    /// The values of the attribute bases.
    pub open spec fn r_values(&self) -> Seq<nat> {
        self.r@.map_values(|b: BigNat| b.value())
    }
}

impl PrivateKey {
    pub open spec fn wf(&self) -> bool {
        &&& self.p_prime.wf()
        &&& self.q_prime.wf()
        &&& self.p.wf()
        &&& self.q.wf()
        &&& self.p_prime.value() >= 2
        &&& self.q_prime.value() >= 2
        &&& self.p.value() == 2 * self.p_prime.value() + 1
        &&& self.q.value() == 2 * self.q_prime.value() + 1
    }
}

/// `b` is `s^x mod n` for an exponent `x` with `2 < x < bound - 1`.
pub open spec fn is_power_of(b: nat, s: nat, n: nat, bound: nat) -> bool {
    exists|x: nat| 2 < x && x + 1 < bound && #[trigger] (pow(s as int, x) % (n as int)) == b as int
}

/// `pk` and `sk` form an issuer key pair for `attribute_count` attributes.
pub open spec fn is_key_pair(pk: PublicKey, sk: PrivateKey, attribute_count: nat) -> bool {
    let n = pk.n.value();
    let bound = sk.p_prime.value() * sk.q_prime.value();
    &&& pk.wf()
    &&& sk.wf()
    &&& n == sk.p.value() * sk.q.value()
    &&& pk.s.value() < n
    &&& is_quadratic_residue(pk.s.value(), n)
    &&& is_power_of(pk.rms.value(), pk.s.value(), n, bound)
    &&& is_power_of(pk.z.value(), pk.s.value(), n, bound)
    &&& pk.r@.len() == attribute_count
    &&& forall|i: int|
        0 <= i < pk.r@.len() ==> is_power_of(#[trigger] pk.r@[i].value(), pk.s.value(), n, bound)
}

impl AnoncredsService {
    /// `2x + 1`.
    fn double_plus_one(x: &BigNat) -> (r: Result<BigNat, AnoncredsError>)
        requires
            x.wf(),
        ensures
            r matches Ok(y) ==> y.wf() && y.value() == 2 * x.value() + 1,
            r matches Err(e) ==> e == AnoncredsError::ArithmeticFailure,
    {
        let two = lift(bn_from_u32(2))?;
        let one = lift(bn_from_u32(1))?;
        let doubled = lift(bn_mul(x, &two))?;
        lift(bn_add(&doubled, &one))
    }

    /// A random exponent `x` with `2 < x < p * q - 1`.
    pub fn gen_x(p: &BigNat, q: &BigNat) -> (r: Result<BigNat, AnoncredsError>)
        requires
            p.wf(),
            q.wf(),
            p.value() * q.value() > 4,
        ensures
            r matches Ok(x) ==> x.wf() && 2 < x.value() && x.value() + 1 < p.value() * q.value(),
            r matches Err(e) ==> e == AnoncredsError::ArithmeticFailure,
    {
        let product = lift(bn_mul(p, q))?;
        let three = lift(bn_from_u32(3))?;
        let value = lift(bn_sub(&product, &three))?;
        let zero = lift(bn_from_u32(0))?;
        let x = Self::random_in_range(&zero, &value)?;
        let two = lift(bn_from_u32(2))?;
        lift(bn_add(&x, &two))
    }

    /// `s^x mod n` for a fresh exponent from `gen_x(p_prime, q_prime)`.
    fn random_power(s: &BigNat, n: &BigNat, p_prime: &BigNat, q_prime: &BigNat) -> (r: Result<
        BigNat,
        AnoncredsError,
    >)
        requires
            s.wf(),
            n.wf(),
            n.value() > 1,
            p_prime.wf(),
            q_prime.wf(),
            p_prime.value() * q_prime.value() > 4,
        ensures
            r matches Ok(b) ==> b.wf() && is_power_of(
                b.value(),
                s.value(),
                n.value(),
                p_prime.value() * q_prime.value(),
            ),
            r matches Err(e) ==> e == AnoncredsError::ArithmeticFailure,
    {
        let x = Self::gen_x(p_prime, q_prime)?;
        let b = lift(bn_mod_exp(s, &x, n))?;
        assert((pow(s.value() as int, x.value()) % (n.value() as int)) == b.value() as int);
        Ok(b)
    }

    /// Draws primes `p'` until one has exactly `LARGE_PRIME` bits and `2p' + 1`
    /// passes primality testing, at most `max_attempts` times; also returns how many
    /// draws were rejected. `KeyGenerationFailed` comes exactly when all
    /// `max_attempts` draws were rejected.
    pub fn search_safe_prime(max_attempts: u64) -> (r: (Result<BigNat, AnoncredsError>, u64))
        ensures
            r.1 <= max_attempts,
            r.0 matches Ok(x) ==> x.wf() && bit_len(x.value()) == LARGE_PRIME,
            r.0 == Err::<BigNat, AnoncredsError>(AnoncredsError::KeyGenerationFailed) <==> r.1
                == max_attempts,
            r.0 matches Err(e) ==> e == AnoncredsError::KeyGenerationFailed || e
                == AnoncredsError::ArithmeticFailure,
    {
        let mut rejected: u64 = 0;
        while rejected < max_attempts
            invariant
                rejected <= max_attempts,
            decreases max_attempts - rejected,
        {
            let prime = match lift(bn_generate_prime(LARGE_PRIME)) {
                Ok(p) => p,
                Err(e) => {
                    return (Err(e), rejected);
                },
            };
            let bits = match lift(bn_num_bits(&prime)) {
                Ok(b) => b,
                Err(e) => {
                    return (Err(e), rejected);
                },
            };
            if bits == LARGE_PRIME as usize {
                let safe = match Self::double_plus_one(&prime) {
                    Ok(s) => s,
                    Err(e) => {
                        return (Err(e), rejected);
                    },
                };
                match Self::is_probable_prime(&safe) {
                    Ok(true) => {
                        return (Ok(prime), rejected);
                    },
                    Ok(false) => {},
                    Err(e) => {
                        return (Err(e), rejected);
                    },
                }
            }
            rejected = rejected + 1;
        }
        (Err(AnoncredsError::KeyGenerationFailed), rejected)
    }

    /// A prime `p'` of exactly `LARGE_PRIME` bits whose `2p' + 1` passes primality
    /// testing, drawn at most `SAFE_PRIME_ATTEMPTS` times.
    pub fn generate_prime() -> (r: Result<BigNat, AnoncredsError>)
        ensures
            r matches Ok(x) ==> x.wf() && bit_len(x.value()) == LARGE_PRIME,
            r matches Err(e) ==> e == AnoncredsError::KeyGenerationFailed || e
                == AnoncredsError::ArithmeticFailure,
    {
        Self::search_safe_prime(SAFE_PRIME_ATTEMPTS).0
    }

    /// Builds an issuer key pair for `attribute_count` attributes from the primes
    /// `p_prime` and `q_prime`; fails with `KeyGenerationFailed` unless `p'`, `q'`,
    /// `2p' + 1` and `2q' + 1` all pass primality testing and `p' * q' > 4`.
    pub fn generate_public_key_from_primes(
        p_prime: &BigNat,
        q_prime: &BigNat,
        attribute_count: usize,
    ) -> (r: Result<(PublicKey, PrivateKey), AnoncredsError>)
        requires
            p_prime.wf(),
            q_prime.wf(),
        ensures
            r matches Ok((pk, sk)) ==> is_key_pair(pk, sk, attribute_count as nat)
                && sk.p_prime.value() == p_prime.value() && sk.q_prime.value() == q_prime.value(),
            p_prime.value() < 2 || q_prime.value() < 2 || p_prime.value() * q_prime.value() <= 4
                ==> r is Err,
            is_prime(p_prime.value()) && is_prime(q_prime.value()) && is_prime(
                2 * p_prime.value() + 1,
            ) && is_prime(2 * q_prime.value() + 1) && p_prime.value() * q_prime.value() > 4 ==> r
                != Err::<(PublicKey, PrivateKey), AnoncredsError>(
                AnoncredsError::KeyGenerationFailed,
            ),
            r matches Err(e) ==> e == AnoncredsError::KeyGenerationFailed || e
                == AnoncredsError::ArithmeticFailure,
    {
        let two = lift(bn_from_u32(2))?;
        let four = lift(bn_from_u32(4))?;
        let p_low = matches!(lift(bn_cmp(p_prime, &two))?, Ordering::Less);
        let q_low = matches!(lift(bn_cmp(q_prime, &two))?, Ordering::Less);
        if p_low || q_low {
            return Err(AnoncredsError::KeyGenerationFailed);
        }
        let bound = lift(bn_mul(p_prime, q_prime))?;
        if !matches!(lift(bn_cmp(&bound, &four))?, Ordering::Greater) {
            return Err(AnoncredsError::KeyGenerationFailed);
        }
        let p = Self::double_plus_one(p_prime)?;
        let q = Self::double_plus_one(q_prime)?;
        if !Self::is_probable_prime(p_prime)? || !Self::is_probable_prime(q_prime)?
            || !Self::is_probable_prime(&p)? || !Self::is_probable_prime(&q)? {
            return Err(AnoncredsError::KeyGenerationFailed);
        }
        let n = lift(bn_mul(&p, &q))?;
        assert(n.value() > 1) by (nonlinear_arith)
            requires
                n.value() == p.value() * q.value(),
                p.value() > 1,
                q.value() > 1,
        ;
        let s = Self::random_qr(&n)?;
        let rms = Self::random_power(&s, &n, p_prime, q_prime)?;
        let z = Self::random_power(&s, &n, p_prime, q_prime)?;
        let mut r: Vec<BigNat> = Vec::new();
        let mut i: usize = 0;
        while i < attribute_count
            invariant
                i <= attribute_count,
                r@.len() == i,
                s.wf(),
                n.wf(),
                n.value() > 1,
                p_prime.wf(),
                q_prime.wf(),
                p_prime.value() * q_prime.value() > 4,
                forall|j: int|
                    0 <= j < r@.len() ==> (#[trigger] r@[j]).wf() && is_power_of(
                        r@[j].value(),
                        s.value(),
                        n.value(),
                        p_prime.value() * q_prime.value(),
                    ),
            decreases attribute_count - i,
        {
            let base = Self::random_power(&s, &n, p_prime, q_prime)?;
            r.push(base);
            i = i + 1;
        }
        let pk = PublicKey { n, s, rms, z, r };
        let sk = PrivateKey { p_prime: p_prime.duplicate(), q_prime: q_prime.duplicate(), p, q };
        Ok((pk, sk))
    }
}


/// The holder's blinded commitment `u = s^v' * rms^ms mod n`.
#[derive(Clone, Debug)]
pub struct ClaimRequest {
    pub u: BigNat,
}

/// `(s^v mod n) * (rms^ms mod n) mod n`.
pub open spec fn blinded_secret(s: nat, rms: nat, n: nat, v: nat, ms: nat) -> nat {
    (((pow(s as int, v) % (n as int)) * (pow(rms as int, ms) % (n as int))) % (n as int)) as nat
}

impl AnoncredsService {
    /// Builds an issuer key pair for `attribute_count` attributes from two freshly
    /// generated safe primes.
    pub fn generate_public_key(attribute_count: usize) -> (r: Result<
        (PublicKey, PrivateKey),
        AnoncredsError,
    >)
        ensures
            r matches Ok((pk, sk)) ==> is_key_pair(pk, sk, attribute_count as nat) && bit_len(
                sk.p_prime.value(),
            ) == LARGE_PRIME && bit_len(sk.q_prime.value()) == LARGE_PRIME,
            r matches Err(e) ==> e == AnoncredsError::KeyGenerationFailed || e
                == AnoncredsError::ArithmeticFailure,
    {
        let p_prime = Self::generate_prime()?;
        let q_prime = Self::generate_prime()?;
        Self::generate_public_key_from_primes(&p_prime, &q_prime, attribute_count)
    }

    /// The blinded commitment to `ms` under `public_key`, with the blinding
    /// exponent `v'` (fewer than `LARGE_VPRIME` bits) that produced it.
    pub fn gen_u(public_key: &PublicKey, ms: &BigNat) -> (r: Result<(BigNat, BigNat), AnoncredsError>)
        requires
            public_key.wf(),
            ms.wf(),
        ensures
            r matches Ok((u, vprime)) ==> u.wf() && vprime.wf() && vprime.value() < pow2(
                LARGE_VPRIME as nat,
            ) && u.value() == blinded_secret(
                public_key.s.value(),
                public_key.rms.value(),
                public_key.n.value(),
                vprime.value(),
                ms.value(),
            ) && u.value() < public_key.n.value(),
            r matches Err(e) ==> e == AnoncredsError::ArithmeticFailure,
    {
        let vprime = lift(bn_rand(LARGE_VPRIME, false))?;
        let first = lift(bn_mod_exp(&public_key.s, &vprime, &public_key.n))?;
        let second = lift(bn_mod_exp(&public_key.rms, ms, &public_key.n))?;
        let u = lift(bn_mod_mul(&first, &second, &public_key.n))?;
        Ok((u, vprime))
    }

    /// The claim request for master secret `ms`, and the blinding exponent `v'`
    /// that the holder keeps to complete the credential.
    pub fn create_claim_request(public_key: &PublicKey, ms: &BigNat) -> (r: Result<
        (ClaimRequest, BigNat),
        AnoncredsError,
    >)
        requires
            public_key.wf(),
            ms.wf(),
        ensures
            r matches Ok((req, vprime)) ==> req.u.wf() && vprime.wf() && vprime.value() < pow2(
                LARGE_VPRIME as nat,
            ) && req.u.value() == blinded_secret(
                public_key.s.value(),
                public_key.rms.value(),
                public_key.n.value(),
                vprime.value(),
                ms.value(),
            ) && req.u.value() < public_key.n.value(),
            r matches Err(e) ==> e == AnoncredsError::ArithmeticFailure,
    {
        let (u, vprime) = Self::gen_u(public_key, ms)?;
        Ok((ClaimRequest { u }, vprime))
    }
}

} // verus!
