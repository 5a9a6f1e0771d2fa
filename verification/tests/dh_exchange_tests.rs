use dh_exchange::{mod_exp, mod_exp_checked, mod_mul, mod_mul_checked, nist_p, uinf, DHKey};

fn from_u64(n: u64) -> uinf {
    uinf::from_bytes_be(&n.to_be_bytes())
}

fn to_u64(x: &uinf) -> u64 {
    let bytes = x.to_bytes_be();
    assert!(bytes.len() <= 8);
    let mut n: u64 = 0;
    for b in bytes {
        n = (n << 8) | b as u64;
    }
    n
}

#[test]
fn from_bytes_be_reads_big_endian() {
    let x = uinf::from_bytes_be(&[1, 2]);
    assert_eq!(to_u64(&x), 258);
    let empty = uinf::from_bytes_be(&[]);
    assert!(empty.equals(&uinf::zero()));
}

#[test]
fn from_bytes_le_reads_little_endian() {
    let x = uinf::from_bytes_le(&[2, 1]);
    assert_eq!(to_u64(&x), 258);
    let y = uinf::from_bytes_be(&[1, 2]);
    assert!(x.equals(&y));
    let empty = uinf::from_bytes_le(&[]);
    assert!(empty.equals(&uinf::zero()));
}

#[test]
fn to_bytes_be_strips_leading_zeros() {
    let x = uinf::from_bytes_be(&[0, 0, 5, 7]);
    assert_eq!(x.to_bytes_be(), vec![5, 7]);
    let zero = uinf::from_bytes_be(&[0, 0, 0]);
    assert_eq!(zero.to_bytes_be(), vec![0]);
    assert_eq!(uinf::from_bytes_be(&[]).to_bytes_be(), vec![0]);
}

#[test]
fn to_bytes_le_strips_trailing_zeros() {
    let x = uinf::from_bytes_le(&[7, 5, 0, 0]);
    assert_eq!(x.to_bytes_le(), vec![7, 5]);
    let zero = uinf::from_bytes_le(&[0, 0, 0]);
    assert_eq!(zero.to_bytes_le(), vec![0]);
    assert_eq!(uinf::from_bytes_le(&[]).to_bytes_le(), vec![0]);
}

#[test]
fn byte_round_trip_matches_reference() {
    let x = uinf::from_bytes_be(&[0, 0x12, 0x34, 0x56, 0x78]);
    assert_eq!(x.to_bytes_be(), vec![0x12, 0x34, 0x56, 0x78]);
    assert_eq!(x.to_bytes_le(), vec![0x78, 0x56, 0x34, 0x12]);
    let reference = num_bigint::BigUint::from_bytes_be(&[0, 0x12, 0x34, 0x56, 0x78]);
    assert_eq!(x.to_bytes_be(), reference.to_bytes_be());
}

#[test]
fn small_constants() {
    assert_eq!(to_u64(&uinf::zero()), 0);
    assert_eq!(to_u64(&uinf::one()), 1);
    assert_eq!(to_u64(&uinf::two()), 2);
    assert!(uinf::one().add(&uinf::one()).equals(&uinf::two()));
}

#[test]
fn addition() {
    let x = from_u64(0xfffffffe).add(&from_u64(7));
    assert_eq!(to_u64(&x), 0x100000005);
}

#[test]
fn multiplication() {
    let x = from_u64(250).mul(&from_u64(260));
    assert_eq!(to_u64(&x), 65000);
    assert!(from_u64(99).mul(&uinf::zero()).equals(&uinf::zero()));
}

#[test]
fn checked_subtraction() {
    let d = from_u64(5).checked_sub(&from_u64(3)).unwrap();
    assert_eq!(to_u64(&d), 2);
    let z = from_u64(5).checked_sub(&from_u64(5)).unwrap();
    assert!(z.equals(&uinf::zero()));
    assert!(from_u64(3).checked_sub(&from_u64(5)).is_none());
}

#[test]
fn division_and_remainder() {
    assert_eq!(to_u64(&from_u64(17).div(&from_u64(5))), 3);
    assert_eq!(to_u64(&from_u64(17).rem(&from_u64(5))), 2);
    assert_eq!(to_u64(&from_u64(16).rem(&from_u64(4))), 0);
}

#[test]
fn comparisons() {
    assert!(from_u64(3).lt(&from_u64(5)));
    assert!(!from_u64(5).lt(&from_u64(3)));
    assert!(!from_u64(5).lt(&from_u64(5)));
    assert!(from_u64(5).equals(&from_u64(5)));
    assert!(!from_u64(5).equals(&from_u64(6)));
}

#[test]
fn cloning_keeps_the_value() {
    let x = from_u64(0xdeadbeef);
    let y = x.clone();
    assert!(x.equals(&y));
    assert_eq!(to_u64(&y), 0xdeadbeef);
}

#[test]
fn mod_mul_small_values() {
    assert_eq!(to_u64(&mod_mul(from_u64(7), from_u64(5), from_u64(6))), 2);
    assert_eq!(to_u64(&mod_mul(from_u64(37), from_u64(11), from_u64(13))), 143 % 37);
    assert_eq!(to_u64(&mod_mul(from_u64(1), from_u64(12), from_u64(34))), 0);
}

#[test]
fn mod_mul_by_zero_is_zero() {
    assert!(mod_mul(from_u64(37), from_u64(25), uinf::zero()).equals(&uinf::zero()));
    assert!(mod_mul(from_u64(1), from_u64(9), uinf::zero()).equals(&uinf::zero()));
}

#[test]
fn mod_mul_matches_reference_multiplication() {
    let m = num_bigint::BigUint::from_bytes_be(&[0x8f, 0x41, 0x22, 0x77, 0x19, 0x03]);
    let a = num_bigint::BigUint::from_bytes_be(&[0x12, 0x34, 0x56, 0x78, 0x9a, 0xbc, 0xde]);
    let b = num_bigint::BigUint::from_bytes_be(&[0xfe, 0xdc, 0xba, 0x98, 0x76]);
    let expected = (a.clone() * b.clone()) % m.clone();
    let got = mod_mul(
        uinf::from_bytes_be(&m.to_bytes_be()),
        uinf::from_bytes_be(&a.to_bytes_be()),
        uinf::from_bytes_be(&b.to_bytes_be()),
    );
    assert_eq!(got.to_bytes_be(), expected.to_bytes_be());
}

#[test]
fn mod_exp_small_values() {
    assert_eq!(to_u64(&mod_exp(from_u64(37), from_u64(5), from_u64(6))), 11);
    assert_eq!(to_u64(&mod_exp(from_u64(37), from_u64(5), from_u64(9))), 6);
    assert_eq!(to_u64(&mod_exp(from_u64(1), from_u64(2), from_u64(5))), 0);
}

#[test]
fn mod_exp_zero_exponent_is_one() {
    assert_eq!(to_u64(&mod_exp(from_u64(37), from_u64(5), uinf::zero())), 1);
    assert_eq!(to_u64(&mod_exp(from_u64(97), uinf::zero(), uinf::zero())), 1);
    assert_eq!(to_u64(&mod_exp(from_u64(1), from_u64(5), uinf::zero())), 1);
}

#[test]
fn mod_exp_matches_reference_modpow() {
    let m = num_bigint::BigUint::from_bytes_be(&[0x8f, 0x41, 0x22, 0x77, 0x19, 0x03]);
    let base = num_bigint::BigUint::from_bytes_be(&[0x07, 0x65, 0x43, 0x21]);
    let exp = num_bigint::BigUint::from_bytes_be(&[0x03, 0x09, 0x11]);
    let expected = base.modpow(&exp, &m);
    let got = mod_exp(
        uinf::from_bytes_be(&m.to_bytes_be()),
        uinf::from_bytes_be(&base.to_bytes_be()),
        uinf::from_bytes_be(&exp.to_bytes_be()),
    );
    assert_eq!(got.to_bytes_be(), expected.to_bytes_be());
}

#[test]
fn zero_modulus_is_rejected() {
    assert!(mod_mul_checked(uinf::zero(), from_u64(3), from_u64(4)).is_none());
    assert!(mod_exp_checked(uinf::zero(), from_u64(3), from_u64(4)).is_none());
    let product = mod_mul_checked(from_u64(7), from_u64(5), from_u64(6)).unwrap();
    assert_eq!(to_u64(&product), 2);
    let power = mod_exp_checked(from_u64(37), from_u64(5), from_u64(6)).unwrap();
    assert_eq!(to_u64(&power), 11);
}

#[test]
fn dh_small_scenario() {
    let p = from_u64(37);
    let g = from_u64(5);
    let alice = DHKey::new_from(&p, &g, from_u64(6));
    let bob = DHKey::new_from(&p, &g, from_u64(9));
    assert_eq!(to_u64(alice.public_key()), 11);
    assert_eq!(to_u64(bob.public_key()), 6);
    let shared_a = alice.key_exchange(bob.public_key());
    let shared_b = bob.key_exchange(alice.public_key());
    assert!(shared_a.equals(&shared_b));
    assert_eq!(to_u64(&shared_a), 36);
}

#[test]
fn dh_exchange_symmetry_with_nist_prime() {
    let p = nist_p();
    let g = uinf::two();
    let alice = DHKey::new_from(&p, &g, from_u64(0x123456));
    let bob = DHKey::new_from(&p, &g, from_u64(0x654321));
    let shared_a = alice.key_exchange(&bob.pkey);
    let shared_b = bob.key_exchange(&alice.pkey);
    assert!(shared_a.equals(&shared_b));
    assert!(!shared_a.equals(&uinf::zero()));
}

#[test]
fn dh_exchange_symmetry_with_random_scalars() {
    let p = from_u64(0xffffffffffc5); // any modulus above one gives symmetry
    let g = from_u64(7);
    let alice = DHKey::new_from(&p, &g, uinf::gen());
    let bob = DHKey::new_from(&p, &g, uinf::gen());
    let shared_a = alice.key_exchange(&bob.pkey);
    let shared_b = bob.key_exchange(&alice.pkey);
    assert!(shared_a.equals(&shared_b));
}

#[test]
fn gen_stays_below_two_to_the_24() {
    let bound = uinf::from_bytes_be(&[1, 0, 0, 0]);
    for _ in 0..64 {
        let x = uinf::gen();
        assert!(x.lt(&bound));
    }
}

#[test]
fn nist_prime_matches_its_hex_form() {
    let hex = b"ffffffffffffffffc90fdaa22168c234c4c6628b80dc1cd129024e088a67cc74020bbea63b139b22514a08798e3404ddef9519b3cd3a431b302b0a6df25f14374fe1356d6d51c245e485b576625e7ec6f44c42e9a637ed6b0bff5cb6f406b7edee386bfb5a899fa5ae9f24117c4b1fe649286651ece45b3dc2007cb8a163bf0598da48361c55d39a69163fa8fd24cf5f83655d23dca3ad961c62f356208552bb9ed529077096966d670c354e4abc9804f1746c08ca237327ffffffffffffffff";
    let expected = num_bigint::BigUint::parse_bytes(hex, 16).unwrap();
    let p = nist_p();
    let bytes = p.to_bytes_be();
    assert_eq!(bytes.len(), 192);
    assert_eq!(bytes, expected.to_bytes_be());
}
