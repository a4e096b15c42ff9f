//! Arbitrary-precision natural numbers, held as big-endian bytes.
//!
//! Every arithmetic operation is performed by OpenSSL's `BigNum`; each wrapper
//! states its result exactly over `BigNat::value`.
use core::cmp::Ordering;
use openssl::bn::{BigNum, BigNumContext, MsbOption};
use openssl::error::ErrorStack;
use openssl::hash::{hash, MessageDigest};
use vstd::arithmetic::power::pow;
use vstd::arithmetic::power2::pow2;
use vstd::prelude::*;

verus! {

#[verifier::external_type_specification]
#[verifier::external_body]
pub struct ExErrorStack(ErrorStack);

/// Largest byte length that `BigNum::from_slice` takes without panicking
/// (`c_int::MAX`). OpenSSL may still refuse a shorter number, with an error.
pub const MAX_BYTES: usize = 0x7fff_ffff;

/// The number whose big-endian base-256 digits are `s`.
pub open spec fn be_value(s: Seq<u8>) -> nat
    decreases s.len(),
{
    if s.len() == 0 {
        0
    } else {
        be_value(s.drop_last()) * 256 + s.last() as nat
    }
}

/// Number of bits needed to write `v` (0 for 0).
pub open spec fn bit_len(v: nat) -> nat
    decreases v,
{
    if v == 0 {
        0
    } else {
        1 + bit_len(v / 2)
    }
}

/// Number of bytes needed to write `v` (0 for 0).
pub open spec fn byte_len(v: nat) -> nat
    decreases v,
{
    if v == 0 {
        0
    } else {
        1 + byte_len(v / 256)
    }
}

pub open spec fn is_prime(v: nat) -> bool {
    &&& v > 1
    &&& forall|d: nat| 1 < d < v ==> #[trigger] (v % d) != 0
}

pub open spec fn is_decimal_digit(c: char) -> bool {
    '0' <= c && c <= '9'
}

/// A non-empty string of ASCII decimal digits.
pub open spec fn is_decimal(s: Seq<char>) -> bool {
    s.len() > 0 && forall|i: int| 0 <= i < s.len() ==> is_decimal_digit(#[trigger] s[i])
}

/// The number written in decimal by the digits `s`.
pub open spec fn dec_value(s: Seq<char>) -> nat
    decreases s.len(),
{
    if s.len() == 0 {
        0
    } else {
        dec_value(s.drop_last()) * 10 + ((s.last() as u32) - ('0' as u32)) as nat
    }
}

/// Whether `s` is a non-empty string of ASCII decimal digits.
pub fn is_decimal_str(s: &str) -> (r: bool)
    ensures
        r == is_decimal(s@),
{
    let len = s.unicode_len();
    if len == 0 {
        return false;
    }
    let mut i: usize = 0;
    while i < len
        invariant
            len == s@.len(),
            i <= len,
            forall|j: int| 0 <= j < i ==> is_decimal_digit(#[trigger] s@[j]),
        decreases len - i,
    {
        let c = s.get_char(i);
        if !('0' <= c && c <= '9') {
            assert(!is_decimal_digit(s@[i as int]));
            return false;
        }
        i = i + 1;
    }
    true
}

/// What SHA-256 gives for the UTF-8 encoding of `s`.
pub uninterp spec fn sha256_of(s: Seq<char>) -> Seq<u8>;

/// The values of a sequence of numbers.
pub open spec fn values_of(v: Seq<BigNat>) -> Seq<nat> {
    v.map_values(|b: BigNat| b.value())
}

/// A natural number of any size. Leading zero bytes are allowed.
#[derive(Clone, Debug)]
pub struct BigNat {
    pub bytes: Vec<u8>,
}

impl BigNat {
    pub open spec fn value(&self) -> nat {
        be_value(self.bytes@)
    }

    /// Short enough for OpenSSL to read.
    pub open spec fn wf(&self) -> bool {
        self.bytes@.len() <= MAX_BYTES
    }

    /// A copy holding the same bytes.
    pub fn duplicate(&self) -> (r: BigNat)
        ensures
            r.bytes@ == self.bytes@,
    {
        BigNat { bytes: self.bytes.clone() }
    }

    /// The number written in decimal by `s`; `None` unless `s` is a non-empty
    /// string of ASCII digits (or the integer library fails).
    pub fn from_dec_str(s: &str) -> (r: Option<BigNat>)
        ensures
            r matches Some(x) ==> x.wf() && is_decimal(s@) && x.value() == dec_value(s@),
            !is_decimal(s@) ==> r is None,
    {
        if !is_decimal_str(s) {
            return None;
        }
        match bn_from_dec_str(s) {
            Ok(x) => Some(x),
            Err(_) => None,
        }
    }

    /// The number `n`; `None` only if the integer library fails.
    pub fn from_u32(n: u32) -> (r: Option<BigNat>)
        ensures
            r matches Some(x) ==> x.wf() && x.value() == n,
    {
        match bn_from_u32(n) {
            Ok(x) => Some(x),
            Err(_) => None,
        }
    }

    /// Number of bytes of the value, without leading zeros; `None` only if the
    /// integer library fails.
    pub fn num_bytes(&self) -> (r: Option<usize>)
        requires
            self.wf(),
        ensures
            r matches Some(n) ==> n == byte_len(self.value()),
    {
        match bn_num_bytes(self) {
            Ok(n) => Some(n),
            Err(_) => None,
        }
    }

    /// Number of bits of the value; `None` only if the integer library fails.
    pub fn num_bits(&self) -> (r: Option<usize>)
        requires
            self.wf(),
        ensures
            r matches Some(n) ==> n == bit_len(self.value()),
    {
        match bn_num_bits(self) {
            Ok(n) => Some(n),
            Err(_) => None,
        }
    }
}

/// A wrapper's result: a number OpenSSL can read back, of the stated value.
pub open spec fn made(r: Result<BigNat, ErrorStack>, v: nat) -> bool {
    r matches Ok(x) ==> x.wf() && x.value() == v
}

/// Relies on `BigNum::from_u32` (`BN_set_word`).
#[verifier::external_body]
pub(crate) fn bn_from_u32(n: u32) -> (r: Result<BigNat, ErrorStack>)
    ensures
        made(r, n as nat),
{
    Ok(BigNat { bytes: BigNum::from_u32(n)?.to_vec() })
}

/// Relies on `BigNum::from_dec_str` (`BN_dec2bn`): reads a decimal number.
#[verifier::external_body]
pub(crate) fn bn_from_dec_str(s: &str) -> (r: Result<BigNat, ErrorStack>)
    requires
        is_decimal(s@),
    ensures
        made(r, dec_value(s@)),
{
    Ok(BigNat { bytes: BigNum::from_dec_str(s)?.to_vec() })
}

/// Relies on `BigNumRef::num_bytes` (`BN_num_bytes`).
#[verifier::external_body]
fn bn_num_bytes(a: &BigNat) -> (r: Result<usize, ErrorStack>)
    requires
        a.wf(),
    ensures
        r matches Ok(n) ==> n == byte_len(a.value()),
{
    Ok(BigNum::from_slice(&a.bytes)?.num_bytes() as usize)
}

/// Relies on `BigNumRef::num_bits` (`BN_num_bits`).
#[verifier::external_body]
pub(crate) fn bn_num_bits(a: &BigNat) -> (r: Result<usize, ErrorStack>)
    requires
        a.wf(),
    ensures
        r matches Ok(n) ==> n == bit_len(a.value()),
{
    Ok(BigNum::from_slice(&a.bytes)?.num_bits() as usize)
}

/// Relies on `BigNumRef::ucmp` (`BN_ucmp`): compares two numbers.
#[verifier::external_body]
pub(crate) fn bn_cmp(a: &BigNat, b: &BigNat) -> (r: Result<Ordering, ErrorStack>)
    requires
        a.wf(),
        b.wf(),
    ensures
        r matches Ok(o) ==> (o == Ordering::Less <==> a.value() < b.value()) && (o
            == Ordering::Equal <==> a.value() == b.value()) && (o == Ordering::Greater
            <==> a.value() > b.value()),
{
    Ok(BigNum::from_slice(&a.bytes)?.ucmp(&*BigNum::from_slice(&b.bytes)?))
}

/// Relies on `BigNumRef::checked_add` (`BN_add`).
#[verifier::external_body]
pub(crate) fn bn_add(a: &BigNat, b: &BigNat) -> (r: Result<BigNat, ErrorStack>)
    requires
        a.wf(),
        b.wf(),
    ensures
        made(r, a.value() + b.value()),
{
    let mut out = BigNum::new()?;
    out.checked_add(&*BigNum::from_slice(&a.bytes)?, &*BigNum::from_slice(&b.bytes)?)?;
    Ok(BigNat { bytes: out.to_vec() })
}

/// Relies on `BigNumRef::checked_sub` (`BN_sub`); `b <= a` keeps the result non-negative.
#[verifier::external_body]
pub(crate) fn bn_sub(a: &BigNat, b: &BigNat) -> (r: Result<BigNat, ErrorStack>)
    requires
        a.wf(),
        b.wf(),
        b.value() <= a.value(),
    ensures
        made(r, (a.value() - b.value()) as nat),
{
    let mut out = BigNum::new()?;
    out.checked_sub(&*BigNum::from_slice(&a.bytes)?, &*BigNum::from_slice(&b.bytes)?)?;
    Ok(BigNat { bytes: out.to_vec() })
}

/// Relies on `BigNumRef::checked_mul` (`BN_mul`).
#[verifier::external_body]
pub(crate) fn bn_mul(a: &BigNat, b: &BigNat) -> (r: Result<BigNat, ErrorStack>)
    requires
        a.wf(),
        b.wf(),
    ensures
        made(r, a.value() * b.value()),
{
    let mut ctx = BigNumContext::new()?;
    let mut out = BigNum::new()?;
    out.checked_mul(&*BigNum::from_slice(&a.bytes)?, &*BigNum::from_slice(&b.bytes)?, &mut ctx)?;
    Ok(BigNat { bytes: out.to_vec() })
}

/// Relies on `BigNumRef::mod_mul` (`BN_mod_mul`): `a * b mod m`.
#[verifier::external_body]
pub(crate) fn bn_mod_mul(a: &BigNat, b: &BigNat, m: &BigNat) -> (r: Result<BigNat, ErrorStack>)
    requires
        a.wf(),
        b.wf(),
        m.wf(),
        m.value() > 0,
    ensures
        made(r, (a.value() * b.value()) % m.value()),
{
    let mut ctx = BigNumContext::new()?;
    let mut out = BigNum::new()?;
    let (a, b, m) = (BigNum::from_slice(&a.bytes)?, BigNum::from_slice(&b.bytes)?, BigNum::from_slice(&m.bytes)?);
    out.mod_mul(&a, &b, &m, &mut ctx)?;
    Ok(BigNat { bytes: out.to_vec() })
}

/// Relies on `BigNumRef::mod_sqr` (`BN_mod_sqr`): `a^2 mod m`.
#[verifier::external_body]
pub(crate) fn bn_mod_sqr(a: &BigNat, m: &BigNat) -> (r: Result<BigNat, ErrorStack>)
    requires
        a.wf(),
        m.wf(),
        m.value() > 0,
    ensures
        made(r, (a.value() * a.value()) % m.value()),
{
    let mut ctx = BigNumContext::new()?;
    let mut out = BigNum::new()?;
    out.mod_sqr(&*BigNum::from_slice(&a.bytes)?, &*BigNum::from_slice(&m.bytes)?, &mut ctx)?;
    Ok(BigNat { bytes: out.to_vec() })
}

/// Relies on `BigNumRef::mod_exp` (`BN_mod_exp`): `a^p mod m`.
#[verifier::external_body]
pub(crate) fn bn_mod_exp(a: &BigNat, p: &BigNat, m: &BigNat) -> (r: Result<BigNat, ErrorStack>)
    requires
        a.wf(),
        p.wf(),
        m.wf(),
        m.value() > 0,
    ensures
        made(r, (pow(a.value() as int, p.value()) % (m.value() as int)) as nat),
{
    let mut ctx = BigNumContext::new()?;
    let mut out = BigNum::new()?;
    let (a, p, m) = (BigNum::from_slice(&a.bytes)?, BigNum::from_slice(&p.bytes)?, BigNum::from_slice(&m.bytes)?);
    out.mod_exp(&a, &p, &m, &mut ctx)?;
    Ok(BigNat { bytes: out.to_vec() })
}

/// Relies on `BigNumRef::exp` (`BN_exp`): `a^p`.
#[verifier::external_body]
pub(crate) fn bn_exp(a: &BigNat, p: &BigNat) -> (r: Result<BigNat, ErrorStack>)
    requires
        a.wf(),
        p.wf(),
    ensures
        made(r, pow(a.value() as int, p.value()) as nat),
{
    let mut ctx = BigNumContext::new()?;
    let mut out = BigNum::new()?;
    out.exp(&*BigNum::from_slice(&a.bytes)?, &*BigNum::from_slice(&p.bytes)?, &mut ctx)?;
    Ok(BigNat { bytes: out.to_vec() })
}

/// Relies on `BigNumRef::mod_inverse` (`BN_mod_inverse`): the inverse of `a` modulo `m`,
/// reduced into `[0, m)`.
#[verifier::external_body]
pub(crate) fn bn_mod_inverse(a: &BigNat, m: &BigNat) -> (r: Result<BigNat, ErrorStack>)
    requires
        a.wf(),
        m.wf(),
        m.value() > 1,
    ensures
        r matches Ok(x) ==> x.wf() && x.value() < m.value() && (x.value() * a.value()) % m.value()
            == 1,
{
    let mut ctx = BigNumContext::new()?;
    let mut out = BigNum::new()?;
    out.mod_inverse(&*BigNum::from_slice(&a.bytes)?, &*BigNum::from_slice(&m.bytes)?, &mut ctx)?;
    Ok(BigNat { bytes: out.to_vec() })
}

/// Relies on `BigNumRef::rand` (`BN_rand`): a random number of at most `bits` bits;
/// with `top_bit` its bit `bits - 1` is set (`MsbOption::ONE`), else it may be zero.
#[verifier::external_body]
pub(crate) fn bn_rand(bits: u32, top_bit: bool) -> (r: Result<BigNat, ErrorStack>)
    requires
        1 <= bits <= 0x7fff_ffff,
    ensures
        r matches Ok(x) ==> x.wf() && x.value() < pow2(bits as nat) && (top_bit ==> pow2(
            (bits - 1) as nat,
        ) <= x.value()),
{
    let mut out = BigNum::new()?;
    out.rand(bits as i32, if top_bit { MsbOption::ONE } else { MsbOption::MAYBE_ZERO }, false)?;
    Ok(BigNat { bytes: out.to_vec() })
}

/// Relies on `BigNumRef::rand_range` (`BN_rand_range`): a random number below `range`.
#[verifier::external_body]
pub(crate) fn bn_rand_range(range: &BigNat) -> (r: Result<BigNat, ErrorStack>)
    requires
        range.wf(),
    ensures
        r matches Ok(x) ==> x.wf() && x.value() < range.value(),
{
    let mut out = BigNum::new()?;
    BigNum::from_slice(&range.bytes)?.rand_range(&mut out)?;
    Ok(BigNat { bytes: out.to_vec() })
}

/// Relies on `BigNumRef::is_prime` (`BN_is_prime_ex`), a Miller-Rabin test of
/// `checks` rounds: a prime always passes.
#[verifier::external_body]
pub(crate) fn bn_is_prime(a: &BigNat, checks: u32) -> (r: Result<bool, ErrorStack>)
    requires
        a.wf(),
        checks <= 0x7fff_ffff,
    ensures
        r matches Ok(b) ==> (is_prime(a.value()) ==> b),
{
    let mut ctx = BigNumContext::new()?;
    BigNum::from_slice(&a.bytes)?.is_prime(checks as i32, &mut ctx)
}

/// Relies on `BigNumRef::generate_prime` (`BN_generate_prime_ex`): a probable prime
/// whose length in bits is at least `bits`.
#[verifier::external_body]
pub(crate) fn bn_generate_prime(bits: u32) -> (r: Result<BigNat, ErrorStack>)
    requires
        2 <= bits <= 0x7fff_ffff,
    ensures
        r matches Ok(x) ==> x.wf() && pow2((bits - 1) as nat) <= x.value(),
{
    let mut out = BigNum::new()?;
    out.generate_prime(bits as i32, false, None, None)?;
    Ok(BigNat { bytes: out.to_vec() })
}

/// Relies on `openssl::hash::hash` with `MessageDigest::sha256`: the 32-byte digest
/// of the UTF-8 bytes of `s`.
#[verifier::external_body]
pub(crate) fn sha256_text(s: &str) -> (r: Result<Vec<u8>, ErrorStack>)
    ensures
        r matches Ok(d) ==> d@ == sha256_of(s@) && d@.len() == 32,
{
    Ok(hash(MessageDigest::sha256(), s.as_bytes())?.to_vec())
}

} // verus!
