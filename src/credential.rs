//! Attribute encoding and the issuer's primary credential.
use crate::anoncreds::{
    lift, AnoncredsError, AnoncredsService, PrivateKey, PublicKey, LARGE_E_END_RANGE,
    LARGE_E_START, LARGE_VPRIME_PRIME, PRIME_SEARCH_ITERATIONS,
};
use crate::bignat::{
    be_value, bn_add, bn_cmp, bn_exp, bn_from_dec_str, bn_from_u32, bn_mod_exp, bn_mod_inverse,
    bn_mod_mul, bn_mul, bn_rand, bn_sub, dec_value, is_decimal, is_decimal_str, sha256_of,
    sha256_text, values_of, BigNat,
};
use core::cmp::Ordering;
use vstd::arithmetic::power::pow;
use vstd::arithmetic::power2::{lemma2_to64, lemma_pow2, lemma_pow2_strictly_increases, pow2};
use vstd::prelude::*;

verus! {

/// One attribute of a credential schema; `encode` marks values that are hashed
/// to an integer rather than read as one.
#[derive(Clone, Debug)]
pub struct AttributeType {
    pub name: String,
    pub encode: bool,
}

/// A raw attribute value.
#[derive(Clone, Debug)]
pub enum AttributeValue {
    Text(String),
    Number(BigNat),
}

impl AttributeValue {
    pub open spec fn wf(&self) -> bool {
        match self {
            AttributeValue::Text(_) => true,
            AttributeValue::Number(x) => x.wf(),
        }
    }
}

/// The integer that `value` is signed as under `attr`, if it has one: a number
/// stands for itself; a text marked `encode` is the SHA-256 digest of its bytes
/// and must not be empty; any other text must be written in decimal.
pub open spec fn attribute_encoding(attr: AttributeType, value: AttributeValue) -> Option<nat> {
    match value {
        AttributeValue::Number(x) => Some(x.value()),
        AttributeValue::Text(t) => if attr.encode {
            if t@.len() > 0 {
                Some(be_value(sha256_of(t@)))
            } else {
                None
            }
        } else if is_decimal(t@) {
            Some(dec_value(t@))
        } else {
            None
        },
    }
}

/// Every value has an encoding under the schema entry at its position.
pub open spec fn all_encodable(attrs: Seq<AttributeType>, values: Seq<AttributeValue>) -> bool {
    &&& attrs.len() == values.len()
    &&& forall|i: int| 0 <= i < values.len() ==> (attribute_encoding(attrs[i], values[i]) is Some)
}

/// The encodings of `values` under `attrs`.
pub open spec fn encodings(attrs: Seq<AttributeType>, values: Seq<AttributeValue>) -> Seq<nat> {
    Seq::new(
        values.len(),
        |i: int|
            match attribute_encoding(attrs[i], values[i]) {
                Some(m) => m,
                None => 0,
            },
    )
}

/// `z * r[0]^m[0] * ... * r[k-1]^m[k-1] mod n`.
pub open spec fn attr_product(z: nat, rs: Seq<nat>, ms: Seq<nat>, n: nat, k: nat) -> nat
    decreases k,
{
    if k == 0 {
        z % n
    } else {
        (attr_product(z, rs, ms, n, (k - 1) as nat) * ((pow(rs[k - 1] as int, ms[k - 1]) % (
        n as int)) as nat)) % n
    }
}

/// The right-hand side of the verification relation,
/// `z * r[0]^m[0] * ... * s^v'' * u mod n`.
pub open spec fn signed_value(pk: PublicKey, ms: Seq<nat>, vpp: nat, u: nat) -> nat {
    let n = pk.n.value();
    let base = attr_product(pk.z.value(), pk.r_values(), ms, n, ms.len());
    (((base * ((pow(pk.s.value() as int, vpp) % (n as int)) as nat)) % n) * u) % n
}

/// `claim` satisfies the verification relation `A^e = signed_value mod n` for the
/// encodings of `values` under `attrs` and the commitment `u`.
pub open spec fn credential_holds(
    pk: PublicKey,
    attrs: Seq<AttributeType>,
    values: Seq<AttributeValue>,
    claim: PrimaryCredential,
    u: nat,
) -> bool {
    pow(claim.a.value() as int, claim.e.value()) % (pk.n.value() as int) == signed_value(
        pk,
        encodings(attrs, values),
        claim.vprimeprime.value(),
        u,
    ) as int
}

/// A primary credential `(A, e, v'')`: `A^e = z * r[0]^m[0] * ... * s^v'' * u mod n`.
#[derive(Clone, Debug)]
pub struct PrimaryCredential {
    pub a: BigNat,
    pub e: BigNat,
    pub vprimeprime: BigNat,
}

impl PrimaryCredential {
    pub open spec fn wf(&self) -> bool {
        self.a.wf() && self.e.wf() && self.vprimeprime.wf()
    }
}

/// `2^LARGE_E_START`, the lower end of the window of `e`.
pub open spec fn e_start() -> nat {
    pow(2, LARGE_E_START as nat) as nat
}

/// `2^LARGE_E_START + 2^LARGE_E_END_RANGE`, the upper end of the window of `e`.
pub open spec fn e_end() -> nat {
    (pow(2, LARGE_E_START as nat) + pow(2, LARGE_E_END_RANGE as nat)) as nat
}

impl AnoncredsService {
    /// Whether `value` has an encoding under `attr`.
    pub fn attribute_is_encodable(attr: &AttributeType, value: &AttributeValue) -> (r: bool)
        ensures
            r == (attribute_encoding(*attr, *value) is Some),
    {
        match value {
            AttributeValue::Number(_) => true,
            AttributeValue::Text(t) => {
                if attr.encode {
                    t.as_str().unicode_len() > 0
                } else {
                    is_decimal_str(t.as_str())
                }
            },
        }
    }

    /// The integer that `value` is signed as under `attr`.
    pub fn encode_attribute(attr: &AttributeType, value: &AttributeValue) -> (r: Result<
        BigNat,
        AnoncredsError,
    >)
        requires
            value.wf(),
        ensures
            r matches Ok(m) ==> m.wf() && attribute_encoding(*attr, *value) == Some(m.value()),
            *value matches AttributeValue::Number(x) ==> (r matches Ok(m) && m.bytes@ == x.bytes@),
            attribute_encoding(*attr, *value) is None <==> r == Err::<BigNat, AnoncredsError>(
                AnoncredsError::InvalidAttributeEncoding,
            ),
            r matches Err(e) ==> e == AnoncredsError::InvalidAttributeEncoding || e
                == AnoncredsError::ArithmeticFailure,
    {
        if !Self::attribute_is_encodable(attr, value) {
            return Err(AnoncredsError::InvalidAttributeEncoding);
        }
        match value {
            AttributeValue::Number(x) => Ok(x.duplicate()),
            AttributeValue::Text(t) => {
                if attr.encode {
                    let digest = lift(sha256_text(t.as_str()))?;
                    Ok(BigNat { bytes: digest })
                } else {
                    lift(bn_from_dec_str(t.as_str()))
                }
            },
        }
    }
}

impl AnoncredsService {
    /// The encodings of all `values` under `attrs`.
    fn encode_all(attrs: &Vec<AttributeType>, values: &Vec<AttributeValue>) -> (r: Result<
        Vec<BigNat>,
        AnoncredsError,
    >)
        requires
            all_encodable(attrs@, values@),
            forall|i: int| 0 <= i < values@.len() ==> (#[trigger] values@[i]).wf(),
        ensures
            r matches Ok(ms) ==> ms@.len() == values@.len() && (forall|i: int|
                0 <= i < ms@.len() ==> (#[trigger] ms@[i]).wf()) && values_of(ms@) == encodings(
                attrs@,
                values@,
            ),
            r matches Err(e) ==> e == AnoncredsError::ArithmeticFailure,
    {
        let mut ms: Vec<BigNat> = Vec::new();
        let mut i: usize = 0;
        while i < values.len()
            invariant
                all_encodable(attrs@, values@),
                forall|j: int| 0 <= j < values@.len() ==> (#[trigger] values@[j]).wf(),
                i <= values@.len(),
                ms@.len() == i,
                forall|j: int| 0 <= j < i ==> (#[trigger] ms@[j]).wf(),
                forall|j: int|
                    0 <= j < i ==> attribute_encoding(attrs@[j], values@[j]) == Some(
                        (#[trigger] ms@[j]).value(),
                    ),
            decreases values@.len() - i,
        {
            let m = match Self::encode_attribute(&attrs[i], &values[i]) {
                Ok(m) => m,
                Err(_) => {
                    return Err(AnoncredsError::ArithmeticFailure);
                },
            };
            ms.push(m);
            i = i + 1;
        }
        assert(values_of(ms@) =~= encodings(attrs@, values@));
        Ok(ms)
    }

    /// Whether every value is encodable under the schema entry at its position.
    fn check_encodable(attrs: &Vec<AttributeType>, values: &Vec<AttributeValue>) -> (r: bool)
        ensures
            r == all_encodable(attrs@, values@),
    {
        if attrs.len() != values.len() {
            return false;
        }
        let mut i: usize = 0;
        while i < values.len()
            invariant
                attrs@.len() == values@.len(),
                i <= values@.len(),
                forall|j: int| 0 <= j < i ==> (attribute_encoding(attrs@[j], values@[j]) is Some),
            decreases values@.len() - i,
        {
            if !Self::attribute_is_encodable(&attrs[i], &values[i]) {
                return false;
            }
            i = i + 1;
        }
        true
    }

    /// `z * r[0]^m[0] * ... * s^v'' * u mod n` under `pk`.
    fn signature_base(pk: &PublicKey, ms: &Vec<BigNat>, vpp: &BigNat, u: &BigNat) -> (r: Result<
        BigNat,
        AnoncredsError,
    >)
        requires
            pk.wf(),
            ms@.len() == pk.r@.len(),
            forall|i: int| 0 <= i < ms@.len() ==> (#[trigger] ms@[i]).wf(),
            vpp.wf(),
            u.wf(),
        ensures
            r matches Ok(q) ==> q.wf() && q.value() == signed_value(
                *pk,
                values_of(ms@),
                vpp.value(),
                u.value(),
            ) && q.value() < pk.n.value(),
            r matches Err(e) ==> e == AnoncredsError::ArithmeticFailure,
    {
        let one = lift(bn_from_u32(1))?;
        let mut acc = lift(bn_mod_mul(&pk.z, &one, &pk.n))?;
        assert(pk.z.value() * 1 == pk.z.value());
        let mut i: usize = 0;
        while i < ms.len()
            invariant
                pk.wf(),
                ms@.len() == pk.r@.len(),
                forall|j: int| 0 <= j < ms@.len() ==> (#[trigger] ms@[j]).wf(),
                i <= ms@.len(),
                acc.wf(),
                acc.value() == attr_product(
                    pk.z.value(),
                    pk.r_values(),
                    values_of(ms@),
                    pk.n.value(),
                    i as nat,
                ),
            decreases ms@.len() - i,
        {
            let t = lift(bn_mod_exp(&pk.r[i], &ms[i], &pk.n))?;
            acc = lift(bn_mod_mul(&acc, &t, &pk.n))?;
            i = i + 1;
        }
        let sv = lift(bn_mod_exp(&pk.s, vpp, &pk.n))?;
        let with_s = lift(bn_mod_mul(&acc, &sv, &pk.n))?;
        lift(bn_mod_mul(&with_s, u, &pk.n))
    }

    /// The bounds `2^LARGE_E_START` and `2^LARGE_E_START + 2^LARGE_E_END_RANGE` of the
    /// window of `e`.
    fn e_window() -> (r: Result<(BigNat, BigNat), AnoncredsError>)
        ensures
            r matches Ok((start, end)) ==> start.wf() && end.wf() && start.value() == e_start()
                && end.value() == e_end(),
            r matches Err(e) ==> e == AnoncredsError::ArithmeticFailure,
    {
        let two = lift(bn_from_u32(2))?;
        let start_bits = lift(bn_from_u32(LARGE_E_START))?;
        let range_bits = lift(bn_from_u32(LARGE_E_END_RANGE))?;
        let start = lift(bn_exp(&two, &start_bits))?;
        let range = lift(bn_exp(&two, &range_bits))?;
        let end = lift(bn_add(&start, &range))?;
        proof {
            lemma_pow2(LARGE_E_START as nat);
            lemma_pow2(LARGE_E_END_RANGE as nat);
        }
        Ok((start, end))
    }

    /// Signs the encodings of `values` under the schema `attributes` together with
    /// the blinded commitment `u`: fails with `InvalidAttributeEncoding` exactly when
    /// the schema, the values and the key's bases do not match in number or a value
    /// has no encoding.
    pub fn issue_primary_claim(
        pk: &PublicKey,
        sk: &PrivateKey,
        attributes: &Vec<AttributeType>,
        values: &Vec<AttributeValue>,
        u: &BigNat,
    ) -> (r: Result<PrimaryCredential, AnoncredsError>)
        requires
            pk.wf(),
            sk.wf(),
            pk.n.value() == sk.p.value() * sk.q.value(),
            u.wf(),
            forall|i: int| 0 <= i < values@.len() ==> (#[trigger] values@[i]).wf(),
        ensures
            r == Err::<PrimaryCredential, AnoncredsError>(AnoncredsError::InvalidAttributeEncoding)
                <==> !(all_encodable(attributes@, values@) && values@.len() == pk.r@.len()),
            r matches Ok(c) ==> c.wf() && e_start() < c.e.value() < e_end() && c.vprimeprime.value()
                < pow2(LARGE_VPRIME_PRIME as nat) && c.a.value() < pk.n.value() && credential_holds(
                *pk,
                attributes@,
                values@,
                c,
                u.value(),
            ),
            r matches Err(e) ==> e == AnoncredsError::InvalidAttributeEncoding || e
                == AnoncredsError::PrimeNotFound || e == AnoncredsError::ArithmeticFailure,
    {
        if !Self::check_encodable(attributes, values) || values.len() != pk.r.len() {
            return Err(AnoncredsError::InvalidAttributeEncoding);
        }
        let ms = Self::encode_all(attributes, values)?;
        let vpp = lift(bn_rand(LARGE_VPRIME_PRIME, false))?;
        let (e_lo, e_hi) = Self::e_window()?;
        proof {
            lemma_pow2(LARGE_E_START as nat);
            lemma_pow2(LARGE_E_END_RANGE as nat);
            lemma2_to64();
            lemma_pow2_strictly_increases(1, LARGE_E_END_RANGE as nat);
        }
        let e = Self::generate_prime_in_range(&e_lo, &e_hi, PRIME_SEARCH_ITERATIONS)?;
        let q = Self::signature_base(pk, &ms, &vpp, u)?;
        Self::sign_with(pk, sk, &q, e, vpp)
    }

    /// Signs the value `q` with exponent `e` and randomizer `vpp`: `A` is `q` raised
    /// to the inverse of `e` modulo `(p - 1)(q - 1)`. Fails with `ArithmeticFailure`
    /// when that inverse does not exist, when `A^e mod n` does not give back `q`, or
    /// when the integer library fails.
    pub fn sign_with(pk: &PublicKey, sk: &PrivateKey, q: &BigNat, e: BigNat, vpp: BigNat) -> (r:
        Result<PrimaryCredential, AnoncredsError>)
        requires
            pk.wf(),
            sk.wf(),
            pk.n.value() == sk.p.value() * sk.q.value(),
            q.wf(),
            e.wf(),
            vpp.wf(),
        ensures
            r matches Ok(c) ==> c.wf() && c.e == e && c.vprimeprime == vpp && c.a.value()
                < pk.n.value() && pow(c.a.value() as int, c.e.value()) % (pk.n.value() as int)
                == q.value() as int,
            r matches Err(err) ==> err == AnoncredsError::ArithmeticFailure,
    {
        let one = lift(bn_from_u32(1))?;
        let p_minus = lift(bn_sub(&sk.p, &one))?;
        let q_minus = lift(bn_sub(&sk.q, &one))?;
        let phi = lift(bn_mul(&p_minus, &q_minus))?;
        assert(phi.value() > 1) by (nonlinear_arith)
            requires
                phi.value() == p_minus.value() * q_minus.value(),
                p_minus.value() >= 4,
                q_minus.value() >= 4,
        ;
        let d = lift(bn_mod_inverse(&e, &phi))?;
        let a = lift(bn_mod_exp(q, &d, &pk.n))?;
        let check = lift(bn_mod_exp(&a, &e, &pk.n))?;
        if !matches!(lift(bn_cmp(&check, q))?, Ordering::Equal) {
            return Err(AnoncredsError::ArithmeticFailure);
        }
        Ok(PrimaryCredential { a, e, vprimeprime: vpp })
    }
}

impl AnoncredsService {
    /// Whether `claim` satisfies the verification relation for the encodings of
    /// `values` under `attributes` and the commitment `u`.
    pub fn verify_primary_claim(
        pk: &PublicKey,
        attributes: &Vec<AttributeType>,
        values: &Vec<AttributeValue>,
        claim: &PrimaryCredential,
        u: &BigNat,
    ) -> (r: Result<bool, AnoncredsError>)
        requires
            pk.wf(),
            claim.wf(),
            u.wf(),
            forall|i: int| 0 <= i < values@.len() ==> (#[trigger] values@[i]).wf(),
        ensures
            r == Err::<bool, AnoncredsError>(AnoncredsError::InvalidAttributeEncoding) <==> !(
            all_encodable(attributes@, values@) && values@.len() == pk.r@.len()),
            r matches Ok(b) ==> (b <==> credential_holds(
                *pk,
                attributes@,
                values@,
                *claim,
                u.value(),
            )),
            r matches Err(e) ==> e == AnoncredsError::InvalidAttributeEncoding || e
                == AnoncredsError::ArithmeticFailure,
    {
        if !Self::check_encodable(attributes, values) || values.len() != pk.r.len() {
            return Err(AnoncredsError::InvalidAttributeEncoding);
        }
        let ms = Self::encode_all(attributes, values)?;
        let q = Self::signature_base(pk, &ms, &claim.vprimeprime, u)?;
        let check = lift(bn_mod_exp(&claim.a, &claim.e, &pk.n))?;
        Ok(matches!(lift(bn_cmp(&check, &q))?, Ordering::Equal))
    }
}

} // verus!
