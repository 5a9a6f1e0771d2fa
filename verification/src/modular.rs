use vstd::prelude::*;

use vstd::arithmetic::div_mod::{
    lemma_add_mod_noop_right, lemma_fundamental_div_mod, lemma_mod_bound, lemma_mul_mod_noop_left,
    lemma_mul_mod_noop_right, lemma_small_mod,
};
use vstd::arithmetic::mul::lemma_mul_is_associative;
use vstd::arithmetic::power::{
    lemma_pow0, lemma_pow_mod_noop, lemma_pow_multiplies, lemma_square_is_pow2, pow,
};

use crate::bignum::uinf;

verus! {

/// What modular exponentiation returns: `base^exp mod m`, except that a zero
/// exponent yields the bare accumulator `1` before any reduction, so the
/// result is `1` even when `m == 1`.
pub open spec fn mod_exp_spec(m: nat, base: nat, exp: nat) -> nat {
    if exp == 0 {
        1
    } else {
        (pow(base as int, exp) % (m as int)) as nat
    }
}

/// `(a * b) mod modulo` by the double-and-add (Russian peasant) scheme:
/// the multiplier is halved and the multiplicand doubled each round, and the
/// accumulator is reduced at every odd step.
pub fn mod_mul(modulo: uinf, a: uinf, b: uinf) -> (r: uinf)
    requires
        modulo@ > 0,
    ensures
        r@ == (a@ * b@) % modulo@,
{
    let ghost a0 = a@;
    let ghost b0 = b@;
    let two = uinf::two();
    let zero = uinf::zero();
    let mut aa = a;
    let mut bb = b;
    let mut res = uinf::zero();
    while !bb.equals(&zero)
        invariant
            modulo@ > 0,
            two@ == 2,
            zero@ == 0,
            res@ < modulo@,
            (res@ + aa@ * bb@) % modulo@ == (a0 * b0) % modulo@,
        decreases bb@,
    {
        let ghost res_old = res@;
        let ghost aa_old = aa@;
        let ghost bb_old = bb@;
        let halved = bb.div(&two);
        let parity = bb.rem(&two);
        proof {
            lemma_fundamental_div_mod(bb_old as int, 2);
            lemma_mod_bound(bb_old as int, 2);
        }
        if parity.equals(&zero) {
            aa = aa.mul(&two);
            bb = halved;
            proof {
                assert(aa@ * bb@ == aa_old * bb_old) by (nonlinear_arith)
                    requires
                        aa@ == aa_old * 2,
                        bb_old == 2 * bb@,
                ;
            }
        } else {
            let summed = res.add(&aa);
            res = summed.rem(&modulo);
            aa = aa.mul(&two);
            bb = halved;
            proof {
                lemma_mod_bound((res_old + aa_old) as int, modulo@ as int);
                assert(res_old + aa_old * bb_old == (res_old + aa_old) + aa@ * bb@)
                    by (nonlinear_arith)
                    requires
                        aa@ == aa_old * 2,
                        bb_old == 2 * bb@ + 1,
                ;
                lemma_add_mod_noop_right(
                    (aa@ * bb@) as int,
                    (res_old + aa_old) as int,
                    modulo@ as int,
                );
            }
        }
    }
    proof {
        lemma_small_mod(res@, modulo@);
    }
    res
}

/// `mod_mul`, with the invalid zero modulus rejected at run time rather than
/// ruled out by contract.
pub fn mod_mul_checked(modulo: uinf, a: uinf, b: uinf) -> (r: Option<uinf>)
    ensures
        (r is Some) == (modulo@ > 0),
        r matches Some(v) ==> v@ == (a@ * b@) % modulo@,
{
    let zero = uinf::zero();
    if modulo.equals(&zero) {
        None
    } else {
        Some(mod_mul(modulo, a, b))
    }
}

/// `base^exp mod modulo` by square-and-multiply: the exponent is halved and
/// the base squared (through `mod_mul`) each round; at every odd step the
/// accumulator, which starts at one, is multiplied by the base and reduced.
/// A zero exponent returns the accumulator untouched.
pub fn mod_exp(modulo: uinf, base: uinf, exp: uinf) -> (r: uinf)
    requires
        modulo@ > 0,
    ensures
        r@ == mod_exp_spec(modulo@, base@, exp@),
{
    let ghost b0 = base@;
    let ghost e0 = exp@;
    let ghost m = modulo@ as int;
    let zero = uinf::zero();
    let two = uinf::two();
    let mut b = base;
    let mut e = exp;
    let mut res = uinf::one();
    let ghost mut reduced = false;
    proof {
        lemma_pow0(b0 as int);
    }
    while !e.equals(&zero)
        invariant
            modulo@ > 0,
            m == modulo@ as int,
            two@ == 2,
            zero@ == 0,
            e@ <= e0,
            e@ == e0 ==> res@ == 1,
            reduced ==> res@ < modulo@,
            !reduced ==> res@ == 1,
            !reduced ==> (e@ == 0 ==> e0 == 0),
            (res@ as int * pow(b@ as int, e@)) % m == pow(b0 as int, e0) % m,
        decreases e@,
    {
        let ghost res_old = res@;
        let ghost b_old = b@;
        let ghost e_old = e@;
        let halved = e.div(&two);
        let parity = e.rem(&two);
        proof {
            lemma_fundamental_div_mod(e_old as int, 2);
            lemma_mod_bound(e_old as int, 2);
        }
        if parity.equals(&zero) {
            b = mod_mul(modulo.clone(), b.clone(), b.clone());
            e = halved;
            proof {
                lemma_exp_square_step(res_old, b_old, e_old, b@, e@, modulo@);
            }
        } else {
            let multiplied = res.mul(&b);
            res = multiplied.rem(&modulo);
            b = mod_mul(modulo.clone(), b.clone(), b.clone());
            e = halved;
            proof {
                reduced = true;
                lemma_mod_bound((res_old * b_old) as int, m);
                lemma_exp_odd_step(res_old, b_old, e_old, res@, b@, e@, modulo@);
            }
        }
    }
    proof {
        if e0 == 0 {
            assert(res@ == 1);
        } else {
            assert(reduced);
            lemma_pow0(b@ as int);
            lemma_small_mod(res@, modulo@);
        }
    }
    res
}

/// `mod_exp`, with the invalid zero modulus rejected at run time rather than
/// ruled out by contract.
pub fn mod_exp_checked(modulo: uinf, base: uinf, exp: uinf) -> (r: Option<uinf>)
    ensures
        (r is Some) == (modulo@ > 0),
        r matches Some(v) ==> v@ == mod_exp_spec(modulo@, base@, exp@),
{
    let zero = uinf::zero();
    if modulo.equals(&zero) {
        None
    } else {
        Some(mod_exp(modulo, base, exp))
    }
}

/// One even round of square-and-multiply keeps the running congruence:
/// squaring the base modulo `m` and halving an even exponent leaves
/// `acc * base^exp mod m` unchanged.
proof fn lemma_exp_square_step(acc: nat, b_old: nat, e_old: nat, b_new: nat, e_new: nat, m: nat)
    requires
        m > 0,
        e_old == 2 * e_new,
        b_new == (b_old * b_old) % m,
    ensures
        (acc as int * pow(b_new as int, e_new)) % (m as int) == (acc as int * pow(
            b_old as int,
            e_old,
        )) % (m as int),
{
    let mi = m as int;
    let bi = b_old as int;
    lemma_square_is_pow2(bi);
    lemma_pow_multiplies(bi, 2, e_new);
    assert(pow(bi * bi, e_new) == pow(bi, e_old));
    lemma_pow_mod_noop(bi * bi, e_new, mi);
    assert(pow(b_new as int, e_new) % mi == pow(bi, e_old) % mi);
    lemma_mul_mod_noop_right(acc as int, pow(b_new as int, e_new), mi);
    lemma_mul_mod_noop_right(acc as int, pow(bi, e_old), mi);
}

/// One odd round of square-and-multiply keeps the running congruence:
/// folding the base into the accumulator modulo `m`, squaring the base
/// modulo `m`, and halving the (odd) exponent leaves `acc * base^exp mod m`
/// unchanged.
proof fn lemma_exp_odd_step(
    acc_old: nat,
    b_old: nat,
    e_old: nat,
    acc_new: nat,
    b_new: nat,
    e_new: nat,
    m: nat,
)
    requires
        m > 0,
        e_old == 2 * e_new + 1,
        b_new == (b_old * b_old) % m,
        acc_new == (acc_old * b_old) % m,
    ensures
        (acc_new as int * pow(b_new as int, e_new)) % (m as int) == (acc_old as int * pow(
            b_old as int,
            e_old,
        )) % (m as int),
{
    let mi = m as int;
    let bi = b_old as int;
    let ai = acc_old as int;
    lemma_square_is_pow2(bi);
    lemma_pow_multiplies(bi, 2, e_new);
    assert(pow(bi * bi, e_new) == pow(bi, 2 * e_new));
    lemma_pow_mod_noop(bi * bi, e_new, mi);
    // replace the reduced accumulator and the reduced base one at a time
    lemma_mul_mod_noop_left(ai * bi, pow(b_new as int, e_new), mi);
    lemma_mul_mod_noop_right(ai * bi, pow(b_new as int, e_new), mi);
    lemma_mul_mod_noop_right(ai * bi, pow(bi * bi, e_new), mi);
    assert((acc_new as int * pow(b_new as int, e_new)) % mi == ((ai * bi) * pow(bi, 2 * e_new))
        % mi);
    // b^(2k+1) == b * b^(2k), and regrouping the product
    assert(pow(bi, e_old) == bi * pow(bi, (e_old - 1) as nat)) by {
        reveal(pow);
    }
    lemma_mul_is_associative(ai, bi, pow(bi, 2 * e_new));
    assert((ai * bi) * pow(bi, 2 * e_new) == ai * pow(bi, e_old));
}

/// Modular exponentiation agrees with `base^exp mod m` everywhere but at a
/// zero exponent with modulus one, where the routine returns its untouched
/// accumulator, one.
pub proof fn lemma_mod_exp_spec_matches_pow(m: nat, base: nat, exp: nat)
    requires
        m > 0,
        exp > 0 || m > 1,
    ensures
        mod_exp_spec(m, base, exp) == pow(base as int, exp) % (m as int),
{
    if exp == 0 {
        lemma_pow0(base as int);
        lemma_small_mod(1, m);
    }
}

/// A zero exponent always yields one, whatever the base and modulus.
pub proof fn lemma_mod_exp_zero_exponent(m: nat, base: nat)
    requires
        m > 0,
    ensures
        mod_exp_spec(m, base, 0) == 1,
{
}

/// A zero multiplier always yields zero under any positive modulus.
pub proof fn lemma_mod_mul_zero(m: nat, a: nat)
    requires
        m > 0,
    ensures
        (a * 0) % m == 0,
{
    lemma_small_mod(0, m);
}

} // verus!
