use vstd::prelude::*;

use vstd::arithmetic::div_mod::lemma_small_mod;
use vstd::arithmetic::mul::lemma_mul_is_commutative;
use vstd::arithmetic::power::{lemma1_pow, lemma_pow_mod_noop, lemma_pow_multiplies, pow};

use crate::bignum::uinf;
use crate::bytes::be_value;
use crate::modular::{mod_exp, mod_exp_spec};

verus! {

/// One party's key material for one Diffie-Hellman session: the shared
/// modulus `p`, the generator, the private scalar, and the public key
/// `generator ^ scalar mod p`, fixed at construction.
pub struct DHKey {
    pub p: uinf,
    pub pkey: uinf,
    g: uinf,
    skey: uinf,
}

impl DHKey {
    /// The shared modulus.
    pub closed spec fn p_val(&self) -> nat {
        self.p@
    }

    /// The public key.
    pub closed spec fn pkey_val(&self) -> nat {
        self.pkey@
    }

    /// The generator this key was built over.
    pub closed spec fn g_val(&self) -> nat {
        self.g@
    }

    /// The private scalar this key holds.
    pub closed spec fn skey_val(&self) -> nat {
        self.skey@
    }

    /// A key is well formed when its modulus is positive and its public key
    /// is the generator raised to the private scalar, modulo the modulus.
    pub open spec fn wf(&self) -> bool {
        &&& self.p_val() > 0
        &&& self.pkey_val() == mod_exp_spec(self.p_val(), self.g_val(), self.skey_val())
    }

    /// The public key, to hand to the peer.
    pub fn public_key(&self) -> (r: &uinf)
        ensures
            r@ == self.pkey_val(),
    {
        &self.pkey
    }

    /// Builds the key material from a modulus, a generator and a private
    /// scalar, deriving the public key. Whether `p` is prime, `g` generates a
    /// large subgroup, or `skey` lies in `[1, p-1]` is the caller's business.
    pub fn new_from(p: &uinf, g: &uinf, skey: uinf) -> (r: Self)
        requires
            p@ > 0,
        ensures
            r.p_val() == p@,
            r.g_val() == g@,
            r.skey_val() == skey@,
            r.pkey_val() == mod_exp_spec(p@, g@, skey@),
            r.wf(),
    {
        let pkey = mod_exp(p.clone(), g.clone(), skey.clone());
        DHKey { p: p.clone(), g: g.clone(), pkey, skey }
    }

    /// The shared secret: the peer's public key raised to this key's private
    /// scalar, modulo `p`. The peer's key is not validated.
    pub fn key_exchange(&self, bpkey: &uinf) -> (r: uinf)
        requires
            self.p_val() > 0,
        ensures
            r@ == mod_exp_spec(self.p_val(), bpkey@, self.skey_val()),
    {
        mod_exp(self.p.clone(), bpkey.clone(), self.skey.clone())
    }
}

/// Raising a reduced power to a further power and reducing lands on the
/// combined power, reduced: `(g^a mod p)^b mod p == g^(a*b) mod p`.
proof fn lemma_exchange_combines(p: nat, g: nat, a: nat, b: nat)
    requires
        p > 1,
        a > 0,
        b > 0,
    ensures
        mod_exp_spec(p, mod_exp_spec(p, g, a), b) == pow(g as int, (a * b) as nat) % (p as int),
{
    let pi = p as int;
    let gi = g as int;
    let inner = mod_exp_spec(p, g, a);
    assert(inner == pow(gi, a) % pi);
    lemma_pow_mod_noop(pow(gi, a), b, pi);
    assert(pow(inner as int, b) % pi == pow(pow(gi, a), b) % pi);
    lemma_pow_multiplies(gi, a, b);
    assert(pow(pow(gi, a), b) == pow(gi, (a * b) as nat));
}

/// Key-exchange symmetry: over a shared modulus `p` and generator `g`, two
/// parties holding private scalars `a` and `b` derive the same shared secret,
/// each from the other's public key.
pub proof fn lemma_key_exchange_symmetry(p: nat, g: nat, a: nat, b: nat)
    requires
        p > 1,
    ensures
        mod_exp_spec(p, mod_exp_spec(p, g, a), b) == mod_exp_spec(p, mod_exp_spec(p, g, b), a),
{
    if a > 0 && b > 0 {
        lemma_exchange_combines(p, g, a, b);
        lemma_exchange_combines(p, g, b, a);
        lemma_mul_is_commutative(a as int, b as int);
    } else if a == 0 && b > 0 {
        lemma_one_base_stays_one(p, b);
    } else if b == 0 && a > 0 {
        lemma_one_base_stays_one(p, a);
    }
}

/// A public key of one (a zero scalar) leads the peer to a shared secret of
/// one as well, as long as the modulus exceeds one.
proof fn lemma_one_base_stays_one(p: nat, e: nat)
    requires
        p > 1,
        e > 0,
    ensures
        mod_exp_spec(p, 1, e) == 1,
{
    lemma1_pow(e);
    lemma_small_mod(1, p);
}

/// The big-endian bytes of the 1536-bit prime modulus from the well-known
/// Diffie-Hellman group.
pub open spec fn nist_p_bytes() -> Seq<u8> {
    seq![
        0xffu8, 0xffu8, 0xffu8, 0xffu8, 0xffu8, 0xffu8, 0xffu8, 0xffu8, 0xc9u8, 0x0fu8, 0xdau8, 0xa2u8,
        0x21u8, 0x68u8, 0xc2u8, 0x34u8, 0xc4u8, 0xc6u8, 0x62u8, 0x8bu8, 0x80u8, 0xdcu8, 0x1cu8, 0xd1u8,
        0x29u8, 0x02u8, 0x4eu8, 0x08u8, 0x8au8, 0x67u8, 0xccu8, 0x74u8, 0x02u8, 0x0bu8, 0xbeu8, 0xa6u8,
        0x3bu8, 0x13u8, 0x9bu8, 0x22u8, 0x51u8, 0x4au8, 0x08u8, 0x79u8, 0x8eu8, 0x34u8, 0x04u8, 0xddu8,
        0xefu8, 0x95u8, 0x19u8, 0xb3u8, 0xcdu8, 0x3au8, 0x43u8, 0x1bu8, 0x30u8, 0x2bu8, 0x0au8, 0x6du8,
        0xf2u8, 0x5fu8, 0x14u8, 0x37u8, 0x4fu8, 0xe1u8, 0x35u8, 0x6du8, 0x6du8, 0x51u8, 0xc2u8, 0x45u8,
        0xe4u8, 0x85u8, 0xb5u8, 0x76u8, 0x62u8, 0x5eu8, 0x7eu8, 0xc6u8, 0xf4u8, 0x4cu8, 0x42u8, 0xe9u8,
        0xa6u8, 0x37u8, 0xedu8, 0x6bu8, 0x0bu8, 0xffu8, 0x5cu8, 0xb6u8, 0xf4u8, 0x06u8, 0xb7u8, 0xedu8,
        0xeeu8, 0x38u8, 0x6bu8, 0xfbu8, 0x5au8, 0x89u8, 0x9fu8, 0xa5u8, 0xaeu8, 0x9fu8, 0x24u8, 0x11u8,
        0x7cu8, 0x4bu8, 0x1fu8, 0xe6u8, 0x49u8, 0x28u8, 0x66u8, 0x51u8, 0xecu8, 0xe4u8, 0x5bu8, 0x3du8,
        0xc2u8, 0x00u8, 0x7cu8, 0xb8u8, 0xa1u8, 0x63u8, 0xbfu8, 0x05u8, 0x98u8, 0xdau8, 0x48u8, 0x36u8,
        0x1cu8, 0x55u8, 0xd3u8, 0x9au8, 0x69u8, 0x16u8, 0x3fu8, 0xa8u8, 0xfdu8, 0x24u8, 0xcfu8, 0x5fu8,
        0x83u8, 0x65u8, 0x5du8, 0x23u8, 0xdcu8, 0xa3u8, 0xadu8, 0x96u8, 0x1cu8, 0x62u8, 0xf3u8, 0x56u8,
        0x20u8, 0x85u8, 0x52u8, 0xbbu8, 0x9eu8, 0xd5u8, 0x29u8, 0x07u8, 0x70u8, 0x96u8, 0x96u8, 0x6du8,
        0x67u8, 0x0cu8, 0x35u8, 0x4eu8, 0x4au8, 0xbcu8, 0x98u8, 0x04u8, 0xf1u8, 0x74u8, 0x6cu8, 0x08u8,
        0xcau8, 0x23u8, 0x73u8, 0x27u8, 0xffu8, 0xffu8, 0xffu8, 0xffu8, 0xffu8, 0xffu8, 0xffu8, 0xffu8,
    ]
}

/// The value of the 1536-bit prime modulus.
pub open spec fn nist_p_value() -> nat {
    be_value(nist_p_bytes())
}

/// The well-known 1536-bit safe prime, usable as a default modulus.
pub fn nist_p() -> (r: uinf)
    ensures
        r@ == nist_p_value(),
        r@ > 0,
{
    let bytes: Vec<u8> = vec![
        0xffu8, 0xffu8, 0xffu8, 0xffu8, 0xffu8, 0xffu8, 0xffu8, 0xffu8, 0xc9u8, 0x0fu8, 0xdau8, 0xa2u8,
        0x21u8, 0x68u8, 0xc2u8, 0x34u8, 0xc4u8, 0xc6u8, 0x62u8, 0x8bu8, 0x80u8, 0xdcu8, 0x1cu8, 0xd1u8,
        0x29u8, 0x02u8, 0x4eu8, 0x08u8, 0x8au8, 0x67u8, 0xccu8, 0x74u8, 0x02u8, 0x0bu8, 0xbeu8, 0xa6u8,
        0x3bu8, 0x13u8, 0x9bu8, 0x22u8, 0x51u8, 0x4au8, 0x08u8, 0x79u8, 0x8eu8, 0x34u8, 0x04u8, 0xddu8,
        0xefu8, 0x95u8, 0x19u8, 0xb3u8, 0xcdu8, 0x3au8, 0x43u8, 0x1bu8, 0x30u8, 0x2bu8, 0x0au8, 0x6du8,
        0xf2u8, 0x5fu8, 0x14u8, 0x37u8, 0x4fu8, 0xe1u8, 0x35u8, 0x6du8, 0x6du8, 0x51u8, 0xc2u8, 0x45u8,
        0xe4u8, 0x85u8, 0xb5u8, 0x76u8, 0x62u8, 0x5eu8, 0x7eu8, 0xc6u8, 0xf4u8, 0x4cu8, 0x42u8, 0xe9u8,
        0xa6u8, 0x37u8, 0xedu8, 0x6bu8, 0x0bu8, 0xffu8, 0x5cu8, 0xb6u8, 0xf4u8, 0x06u8, 0xb7u8, 0xedu8,
        0xeeu8, 0x38u8, 0x6bu8, 0xfbu8, 0x5au8, 0x89u8, 0x9fu8, 0xa5u8, 0xaeu8, 0x9fu8, 0x24u8, 0x11u8,
        0x7cu8, 0x4bu8, 0x1fu8, 0xe6u8, 0x49u8, 0x28u8, 0x66u8, 0x51u8, 0xecu8, 0xe4u8, 0x5bu8, 0x3du8,
        0xc2u8, 0x00u8, 0x7cu8, 0xb8u8, 0xa1u8, 0x63u8, 0xbfu8, 0x05u8, 0x98u8, 0xdau8, 0x48u8, 0x36u8,
        0x1cu8, 0x55u8, 0xd3u8, 0x9au8, 0x69u8, 0x16u8, 0x3fu8, 0xa8u8, 0xfdu8, 0x24u8, 0xcfu8, 0x5fu8,
        0x83u8, 0x65u8, 0x5du8, 0x23u8, 0xdcu8, 0xa3u8, 0xadu8, 0x96u8, 0x1cu8, 0x62u8, 0xf3u8, 0x56u8,
        0x20u8, 0x85u8, 0x52u8, 0xbbu8, 0x9eu8, 0xd5u8, 0x29u8, 0x07u8, 0x70u8, 0x96u8, 0x96u8, 0x6du8,
        0x67u8, 0x0cu8, 0x35u8, 0x4eu8, 0x4au8, 0xbcu8, 0x98u8, 0x04u8, 0xf1u8, 0x74u8, 0x6cu8, 0x08u8,
        0xcau8, 0x23u8, 0x73u8, 0x27u8, 0xffu8, 0xffu8, 0xffu8, 0xffu8, 0xffu8, 0xffu8, 0xffu8, 0xffu8,
    ];
    proof {
        assert(bytes@ =~= nist_p_bytes());
        assert(nist_p_bytes().last() == 0xffu8);
        assert(be_value(nist_p_bytes()) >= 0xff);
    }
    uinf::from_bytes_be(bytes.as_slice())
}

} // verus!
