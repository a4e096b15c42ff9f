use anoncreds::anoncreds::{
    AnoncredsError, AnoncredsService, PublicKey, LARGE_MASTER_SECRET, LARGE_PRIME,
};
use anoncreds::bignat::BigNat;
use anoncreds::credential::{AttributeType, AttributeValue};
use openssl::bn::{BigNum, BigNumContext, MsbOption};

const P_PRIME: &str = "147210949676505370022291901638323344651935110597590993130806944871698104433042968489453214046274983960765508724336420649095413993801340223096499490318385863961435462627523137938481776395548210420546733337321351064531462114552738775282293300556323029911674068388889455348206728016707243243859948314986927502343";
const Q_PRIME: &str = "135780746061008989066681842882411968289578365330121870655195830818464118363874946689390282395824911410416094765498522070170715656164604448597511036312331994824492100665472180363433381994083327828179950784236529457340933711810709515143629906739084420423785456874473704622664344722021987863690561674302204741259";

fn to_bn(x: &BigNat) -> BigNum {
    BigNum::from_slice(&x.bytes).unwrap()
}

fn from_bn(x: &BigNum) -> BigNat {
    BigNat { bytes: x.to_vec() }
}

fn dec(s: &str) -> BigNat {
    BigNat::from_dec_str(s).unwrap()
}

fn num(n: u32) -> BigNat {
    BigNat::from_u32(n).unwrap()
}

fn passes_prime_test(x: &BigNat) -> bool {
    let mut ctx = BigNumContext::new().unwrap();
    to_bn(x).is_prime(64, &mut ctx).unwrap()
}

fn fixed_key(attribute_count: usize) -> (PublicKey, anoncreds::anoncreds::PrivateKey) {
    AnoncredsService::generate_public_key_from_primes(&dec(P_PRIME), &dec(Q_PRIME), attribute_count)
        .unwrap()
}

#[test]
fn service_creation_is_possible() {
    let anoncreds_service = AnoncredsService::new();
    assert_eq!("anoncreds_dummy", anoncreds_service.dummy, "Dummy field is filled by constructor");
}

#[test]
fn master_secret_generator_works() {
    let ms = AnoncredsService::generate_master_secret().unwrap();
    assert_eq!((LARGE_MASTER_SECRET / 8) as usize, ms.num_bytes().unwrap());
}

#[test]
fn master_secret_is_always_256_bits() {
    for _ in 0..200 {
        let ms = AnoncredsService::generate_master_secret().unwrap();
        assert_eq!(256, ms.num_bits().unwrap());
        assert_eq!(32, ms.num_bytes().unwrap());
    }
}

#[test]
fn random_in_range_works() {
    let (mut start, mut end) = (BigNum::new().unwrap(), BigNum::new().unwrap());
    start.rand(LARGE_PRIME as i32, MsbOption::MAYBE_ZERO, false).unwrap();
    end.rand(LARGE_PRIME as i32, MsbOption::MAYBE_ZERO, false).unwrap();
    let mut bound = BigNum::new().unwrap();
    bound.checked_add(&start, &BigNum::from_u32(1).unwrap()).unwrap();
    while end <= bound {
        end.rand(LARGE_PRIME as i32, MsbOption::MAYBE_ZERO, false).unwrap();
    }
    let random_in_range = AnoncredsService::random_in_range(&from_bn(&start), &from_bn(&end)).unwrap();
    let r = to_bn(&random_in_range);
    assert!((r > start) && (r < end));
}

#[test]
fn random_in_range_stays_strictly_inside_narrow_window() {
    let (start, end) = (num(10), num(13));
    let mut seen = [false; 2];
    for _ in 0..500 {
        let x = to_bn(&AnoncredsService::random_in_range(&start, &end).unwrap());
        assert!(x == BigNum::from_u32(11).unwrap() || x == BigNum::from_u32(12).unwrap());
        seen[if x == BigNum::from_u32(11).unwrap() { 0 } else { 1 }] = true;
    }
    assert!(seen[0] && seen[1]);
}

#[test]
fn random_qr_is_a_square() {
    let n = num(1_000_003);
    for _ in 0..50 {
        let q = to_bn(&AnoncredsService::random_qr(&n).unwrap());
        let qv: u64 = q.to_dec_str().unwrap().parse().unwrap();
        assert!(qv < 1_000_003);
        assert!((0u64..1_000_003).any(|t| t * t % 1_000_003 == qv));
    }
}

#[test]
fn count_rounds_scales_with_bit_length() {
    assert_eq!(27, AnoncredsService::count_rounds_for_prime_check(&num(97)).unwrap());
    assert_eq!(3, AnoncredsService::count_rounds_for_prime_check(&dec(P_PRIME)).unwrap());
    let mut ctx = BigNumContext::new().unwrap();
    let mut e_sized = BigNum::new().unwrap();
    e_sized.exp(&BigNum::from_u32(2).unwrap(), &BigNum::from_u32(596).unwrap(), &mut ctx).unwrap();
    assert_eq!(5, AnoncredsService::count_rounds_for_prime_check(&from_bn(&e_sized)).unwrap());
    e_sized.exp(&BigNum::from_u32(2).unwrap(), &BigNum::from_u32(1400).unwrap(), &mut ctx).unwrap();
    assert_eq!(2, AnoncredsService::count_rounds_for_prime_check(&from_bn(&e_sized)).unwrap());
}

#[test]
fn prime_in_range_is_prime_and_inside() {
    let (start, end) = (num(1000), num(2000));
    for _ in 0..20 {
        let p = AnoncredsService::generate_prime_in_range(&start, &end, 100000).unwrap();
        let v: u32 = to_bn(&p).to_dec_str().unwrap().parse().unwrap();
        assert!(v > 1000 && v < 2000);
        assert!((2..v).all(|d| v % d != 0));
    }
}

#[test]
fn prime_in_range_fails_without_primes() {
    let r = AnoncredsService::generate_prime_in_range(&num(24), &num(28), 50);
    assert!(matches!(r, Err(AnoncredsError::PrimeNotFound)));
    let r = AnoncredsService::generate_prime_in_range(&num(1000), &num(2000), 0);
    assert!(matches!(r, Err(AnoncredsError::PrimeNotFound)));
}

#[test]
fn key_generation_from_primes_works() {
    let (pk, sk) = fixed_key(2);
    assert!(passes_prime_test(&sk.p) && passes_prime_test(&sk.q));
    let mut ctx = BigNumContext::new().unwrap();
    let mut n = BigNum::new().unwrap();
    n.checked_mul(&to_bn(&sk.p), &to_bn(&sk.q), &mut ctx).unwrap();
    assert_eq!(n, to_bn(&pk.n));
    let mut p = BigNum::new().unwrap();
    p.checked_mul(&to_bn(&dec(P_PRIME)), &BigNum::from_u32(2).unwrap(), &mut ctx).unwrap();
    p.add_word(1).unwrap();
    assert_eq!(p, to_bn(&sk.p));
    assert!(to_bn(&pk.s) < n);
    assert_eq!(2, pk.r.len());
}

#[test]
fn key_generation_with_small_safe_primes() {
    let (pk, sk) = AnoncredsService::generate_public_key_from_primes(&num(5), &num(11), 1).unwrap();
    assert_eq!(BigNum::from_u32(253).unwrap(), to_bn(&pk.n));
    assert_eq!(BigNum::from_u32(11).unwrap(), to_bn(&sk.p));
    assert_eq!(BigNum::from_u32(23).unwrap(), to_bn(&sk.q));
    let s: u32 = to_bn(&pk.s).to_dec_str().unwrap().parse().unwrap();
    assert!((0u32..253).any(|t| t * t % 253 == s));
}

#[test]
fn key_generation_rejects_unsafe_primes() {
    let r = AnoncredsService::generate_public_key_from_primes(&num(7), &num(11), 1);
    assert!(matches!(r, Err(AnoncredsError::KeyGenerationFailed)));
    let r = AnoncredsService::generate_public_key_from_primes(&num(1), &num(11), 1);
    assert!(matches!(r, Err(AnoncredsError::KeyGenerationFailed)));
    let r = AnoncredsService::generate_public_key_from_primes(&num(2), &num(2), 1);
    assert!(matches!(r, Err(AnoncredsError::KeyGenerationFailed)));
}

#[test]
fn gen_x_stays_in_range() {
    for _ in 0..100 {
        let x = AnoncredsService::gen_x(&num(5), &num(11)).unwrap();
        let v: u32 = to_bn(&x).to_dec_str().unwrap().parse().unwrap();
        assert!(v > 2 && v < 54);
    }
}

#[test]
fn claim_request_is_below_modulus_and_blinded() {
    let (pk, _) = fixed_key(0);
    let ms = AnoncredsService::generate_master_secret().unwrap();
    let (request, vprime) = AnoncredsService::create_claim_request(&pk, &ms).unwrap();
    let u = to_bn(&request.u);
    assert!(u < to_bn(&pk.n));
    assert!(vprime.num_bits().unwrap() <= 2128);
    let mut ctx = BigNumContext::new().unwrap();
    let (mut a, mut b, mut expected) = (BigNum::new().unwrap(), BigNum::new().unwrap(), BigNum::new().unwrap());
    a.mod_exp(&to_bn(&pk.s), &to_bn(&vprime), &to_bn(&pk.n), &mut ctx).unwrap();
    b.mod_exp(&to_bn(&pk.rms), &to_bn(&ms), &to_bn(&pk.n), &mut ctx).unwrap();
    expected.mod_mul(&a, &b, &to_bn(&pk.n), &mut ctx).unwrap();
    assert_eq!(expected, u);
}

#[test]
fn claim_requests_for_different_secrets_differ() {
    let (pk, _) = fixed_key(0);
    let ms1 = AnoncredsService::generate_master_secret().unwrap();
    let ms2 = AnoncredsService::generate_master_secret().unwrap();
    let (r1, _) = AnoncredsService::create_claim_request(&pk, &ms1).unwrap();
    let (r2, _) = AnoncredsService::create_claim_request(&pk, &ms2).unwrap();
    assert!(to_bn(&r1.u) < to_bn(&pk.n) && to_bn(&r2.u) < to_bn(&pk.n));
    assert_ne!(to_bn(&r1.u), to_bn(&r2.u));
}

#[test]
fn encode_attribute_hashes_text_and_passes_numbers() {
    let name = AttributeType { name: "name".to_string(), encode: true };
    let age = AttributeType { name: "age".to_string(), encode: false };
    let m = AnoncredsService::encode_attribute(&name, &AttributeValue::Text("Alexer".to_string())).unwrap();
    let digest = openssl::hash::hash(openssl::hash::MessageDigest::sha256(), "Alexer".as_bytes()).unwrap();
    assert_eq!(BigNum::from_slice(&digest).unwrap(), to_bn(&m));
    assert_ne!(BigNum::from_slice("Alexer".as_bytes()).unwrap(), to_bn(&m));
    let m = AnoncredsService::encode_attribute(&age, &AttributeValue::Text("28".to_string())).unwrap();
    assert_eq!(BigNum::from_u32(28).unwrap(), to_bn(&m));
    let m = AnoncredsService::encode_attribute(&age, &AttributeValue::Number(num(28))).unwrap();
    assert_eq!(BigNum::from_u32(28).unwrap(), to_bn(&m));
}

#[test]
fn encode_attribute_rejects_unencodable_values() {
    let name = AttributeType { name: "name".to_string(), encode: true };
    let age = AttributeType { name: "age".to_string(), encode: false };
    let r = AnoncredsService::encode_attribute(&name, &AttributeValue::Text(String::new()));
    assert!(matches!(r, Err(AnoncredsError::InvalidAttributeEncoding)));
    let r = AnoncredsService::encode_attribute(&age, &AttributeValue::Text("twenty".to_string()));
    assert!(matches!(r, Err(AnoncredsError::InvalidAttributeEncoding)));
    assert!(!AnoncredsService::attribute_is_encodable(&age, &AttributeValue::Text(String::new())));
}

fn alice_schema() -> (Vec<AttributeType>, Vec<AttributeValue>) {
    (
        vec![
            AttributeType { name: "name".to_string(), encode: true },
            AttributeType { name: "age".to_string(), encode: false },
        ],
        vec![AttributeValue::Text("Alice".to_string()), AttributeValue::Number(num(28))],
    )
}

#[test]
fn issued_credential_satisfies_verification_relation() {
    let (pk, sk) = fixed_key(2);
    let ms = AnoncredsService::generate_master_secret().unwrap();
    let (request, _) = AnoncredsService::create_claim_request(&pk, &ms).unwrap();
    let (attributes, values) = alice_schema();
    let claim = AnoncredsService::issue_primary_claim(&pk, &sk, &attributes, &values, &request.u).unwrap();
    let mut ctx = BigNumContext::new().unwrap();
    let (mut lo, mut width, mut hi) = (BigNum::new().unwrap(), BigNum::new().unwrap(), BigNum::new().unwrap());
    lo.exp(&BigNum::from_u32(2).unwrap(), &BigNum::from_u32(596).unwrap(), &mut ctx).unwrap();
    width.exp(&BigNum::from_u32(2).unwrap(), &BigNum::from_u32(119).unwrap(), &mut ctx).unwrap();
    hi.checked_add(&lo, &width).unwrap();
    let e = to_bn(&claim.e);
    assert!(e >= lo && e < hi);
    assert!(passes_prime_test(&claim.e));
    assert!(to_bn(&claim.a) < to_bn(&pk.n));
    assert!(AnoncredsService::verify_primary_claim(&pk, &attributes, &values, &claim, &request.u).unwrap());
    let other = vec![AttributeValue::Text("Bob".to_string()), AttributeValue::Number(num(28))];
    assert!(!AnoncredsService::verify_primary_claim(&pk, &attributes, &other, &claim, &request.u).unwrap());
}

#[test]
fn issuance_with_small_key_checks_by_hand() {
    let (pk, sk) = AnoncredsService::generate_public_key_from_primes(&num(5), &num(11), 1).unwrap();
    let attributes = vec![AttributeType { name: "age".to_string(), encode: false }];
    let values = vec![AttributeValue::Number(num(28))];
    let u = num(7);
    let claim = AnoncredsService::issue_primary_claim(&pk, &sk, &attributes, &values, &u).unwrap();
    let mut ctx = BigNumContext::new().unwrap();
    let n = to_bn(&pk.n);
    let (mut lhs, mut t, mut rhs) = (BigNum::new().unwrap(), BigNum::new().unwrap(), BigNum::new().unwrap());
    lhs.mod_exp(&to_bn(&claim.a), &to_bn(&claim.e), &n, &mut ctx).unwrap();
    rhs.nnmod(&to_bn(&pk.z), &n, &mut ctx).unwrap();
    t.mod_exp(&to_bn(&pk.r[0]), &BigNum::from_u32(28).unwrap(), &n, &mut ctx).unwrap();
    let acc = rhs;
    let mut rhs = BigNum::new().unwrap();
    rhs.mod_mul(&acc, &t, &n, &mut ctx).unwrap();
    t.mod_exp(&to_bn(&pk.s), &to_bn(&claim.vprimeprime), &n, &mut ctx).unwrap();
    let acc = rhs;
    let mut rhs = BigNum::new().unwrap();
    rhs.mod_mul(&acc, &t, &n, &mut ctx).unwrap();
    let acc = rhs;
    let mut rhs = BigNum::new().unwrap();
    rhs.mod_mul(&acc, &BigNum::from_u32(7).unwrap(), &n, &mut ctx).unwrap();
    assert_eq!(rhs, lhs);
}

#[test]
fn issuance_rejects_empty_encoded_attribute() {
    let (pk, sk) = AnoncredsService::generate_public_key_from_primes(&num(5), &num(11), 2).unwrap();
    let (attributes, _) = alice_schema();
    let values = vec![AttributeValue::Text(String::new()), AttributeValue::Number(num(28))];
    let r = AnoncredsService::issue_primary_claim(&pk, &sk, &attributes, &values, &num(7));
    assert!(matches!(r, Err(AnoncredsError::InvalidAttributeEncoding)));
}

#[test]
fn issuance_rejects_mismatched_schema() {
    let (pk, sk) = AnoncredsService::generate_public_key_from_primes(&num(5), &num(11), 1).unwrap();
    let (attributes, values) = alice_schema();
    let r = AnoncredsService::issue_primary_claim(&pk, &sk, &attributes, &values, &num(7));
    assert!(matches!(r, Err(AnoncredsError::InvalidAttributeEncoding)));
    let r = AnoncredsService::issue_primary_claim(&pk, &sk, &attributes[..1].to_vec(), &values, &num(7));
    assert!(matches!(r, Err(AnoncredsError::InvalidAttributeEncoding)));
}

#[test]
fn anoncreds_works() {
    let attributes = vec![
        AttributeType { name: "name".to_string(), encode: true },
        AttributeType { name: "age".to_string(), encode: false },
        AttributeType { name: "height".to_string(), encode: false },
        AttributeType { name: "sex".to_string(), encode: true },
    ];
    let values = vec![
        AttributeValue::Text("Alexer".to_string()),
        AttributeValue::Text("28".to_string()),
        AttributeValue::Text("175".to_string()),
        AttributeValue::Text("male".to_string()),
    ];
    let (pk, sk) = fixed_key(4);
    let ms = AnoncredsService::generate_master_secret().unwrap();
    let (claim_request, _) = AnoncredsService::create_claim_request(&pk, &ms).unwrap();
    let claim = AnoncredsService::issue_primary_claim(&pk, &sk, &attributes, &values, &claim_request.u).unwrap();
    assert!(AnoncredsService::verify_primary_claim(&pk, &attributes, &values, &claim, &claim_request.u).unwrap());
    let a = dec("93838255634171043313693932530283701522875554780708470423762684802192372035729");
    assert_eq!(32, a.num_bytes().unwrap());
}

#[test]
fn prime_search_counts_failed_candidates() {
    let (r, failed) = AnoncredsService::search_prime_in_range(&num(24), &num(28), 50);
    assert!(matches!(r, Err(AnoncredsError::PrimeNotFound)));
    assert_eq!(50, failed);
    let (r, failed) = AnoncredsService::search_prime_in_range(&num(12), &num(14), 10);
    assert_eq!(BigNum::from_u32(13).unwrap(), to_bn(&r.unwrap()));
    assert_eq!(0, failed);
}

#[test]
fn sign_with_keeps_exponent_and_randomizer() {
    let (pk, sk) = AnoncredsService::generate_public_key_from_primes(&num(5), &num(11), 0).unwrap();
    let q = num(9);
    let claim = AnoncredsService::sign_with(&pk, &sk, &q, num(13), num(1234)).unwrap();
    assert_eq!(BigNum::from_u32(13).unwrap(), to_bn(&claim.e));
    assert_eq!(BigNum::from_u32(1234).unwrap(), to_bn(&claim.vprimeprime));
    let mut ctx = BigNumContext::new().unwrap();
    let mut back = BigNum::new().unwrap();
    back.mod_exp(&to_bn(&claim.a), &BigNum::from_u32(13).unwrap(), &to_bn(&pk.n), &mut ctx).unwrap();
    assert_eq!(BigNum::from_u32(9).unwrap(), back);
    let r = AnoncredsService::sign_with(&pk, &sk, &q, num(5), num(1));
    assert!(matches!(r, Err(AnoncredsError::ArithmeticFailure)));
}
