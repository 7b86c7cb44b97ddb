use ark_bls12_381::Fr;
use ark_ff::{BigInt, PrimeField};
use vstd::arithmetic::div_mod::lemma_fundamental_div_mod_converse;
use vstd::prelude::*;

verus! {

/// 2^64, the base of the limbs.
pub const LIMB_BASE: u128 = 0x1_0000_0000_0000_0000;

/// 2^64 as a natural number.
pub open spec fn limb_base() -> nat {
    LIMB_BASE as nat
}

/// 2^128.
pub open spec fn two_pow_128() -> nat {
    limb_base() * limb_base()
}

/// Order of the scalar field of BLS12-381,
/// 0x73eda753299d7d483339d80809a1d80553bda402fffe5bfeffffffff00000001.
pub open spec fn modulus() -> nat {
    0x73eda753299d7d483339d80809a1d805u128 as nat * two_pow_128() + 0x53bda402fffe5bfeffffffff00000001u128 as nat
}

/// The integer that four little-endian 64-bit limbs spell.
pub open spec fn limbs_value(l: [u64; 4]) -> nat {
    (l@[0] as nat) + limb_base() * ((l@[1] as nat) + limb_base() * ((l@[2] as nat) + limb_base() * (l@[3] as nat)))
}

/// Relies on ark_ff's `PrimeField::from_bigint`, field multiplication and
/// `PrimeField::into_bigint` on `ark_bls12_381::Fr`: canonical limbs in, the
/// canonical limbs of the product modulo the field order out.
#[verifier::external_body]
fn fr_mul_limbs(a: [u64; 4], b: [u64; 4]) -> (r: [u64; 4])
    requires
        limbs_value(a) < modulus(),
        limbs_value(b) < modulus(),
    ensures
        limbs_value(r) == (limbs_value(a) * limbs_value(b)) % modulus(),
{
    let x = Fr::from_bigint(BigInt::new(a)).unwrap();
    let y = Fr::from_bigint(BigInt::new(b)).unwrap();
    (x * y).into_bigint().0
}

/// Relies on ark_ff's `PrimeField::from_bigint`, field addition and
/// `PrimeField::into_bigint` on `ark_bls12_381::Fr`: canonical limbs in, the
/// canonical limbs of the sum modulo the field order out.
#[verifier::external_body]
fn fr_add_limbs(a: [u64; 4], b: [u64; 4]) -> (r: [u64; 4])
    requires
        limbs_value(a) < modulus(),
        limbs_value(b) < modulus(),
    ensures
        limbs_value(r) == (limbs_value(a) + limbs_value(b)) % modulus(),
{
    let x = Fr::from_bigint(BigInt::new(a)).unwrap();
    let y = Fr::from_bigint(BigInt::new(b)).unwrap();
    (x + y).into_bigint().0
}

/// Two limb arrays that spell the same integer are the same limbs.
pub proof fn lemma_limbs_injective(a: [u64; 4], b: [u64; 4])
    requires
        limbs_value(a) == limbs_value(b),
    ensures
        a@ == b@,
{
    let ra2 = (a@[2] as nat) + limb_base() * (a@[3] as nat);
    let rb2 = (b@[2] as nat) + limb_base() * (b@[3] as nat);
    let ra1 = (a@[1] as nat) + limb_base() * ra2;
    let rb1 = (b@[1] as nat) + limb_base() * rb2;
    let v = limbs_value(a) as int;
    assert(v == ra1 * limb_base() + a@[0]) by (nonlinear_arith)
        requires v == (a@[0] as nat) + limb_base() * ra1;
    assert(v == rb1 * limb_base() + b@[0]) by (nonlinear_arith)
        requires v == (b@[0] as nat) + limb_base() * rb1;
    lemma_fundamental_div_mod_converse(v, limb_base() as int, ra1 as int, a@[0] as int);
    lemma_fundamental_div_mod_converse(v, limb_base() as int, rb1 as int, b@[0] as int);
    let w = ra1 as int;
    assert(w == ra2 * limb_base() + a@[1]) by (nonlinear_arith)
        requires w == (a@[1] as nat) + limb_base() * ra2;
    assert(w == rb2 * limb_base() + b@[1]) by (nonlinear_arith)
        requires w == (b@[1] as nat) + limb_base() * rb2, w == rb1;
    lemma_fundamental_div_mod_converse(w, limb_base() as int, ra2 as int, a@[1] as int);
    lemma_fundamental_div_mod_converse(w, limb_base() as int, rb2 as int, b@[1] as int);
    let u = ra2 as int;
    assert(u == (a@[3] as int) * limb_base() + a@[2]) by (nonlinear_arith)
        requires u == (a@[2] as nat) + limb_base() * (a@[3] as nat);
    assert(u == (b@[3] as int) * limb_base() + b@[2]) by (nonlinear_arith)
        requires u == (b@[2] as nat) + limb_base() * (b@[3] as nat), u == rb2;
    lemma_fundamental_div_mod_converse(u, limb_base() as int, a@[3] as int, a@[2] as int);
    lemma_fundamental_div_mod_converse(u, limb_base() as int, b@[3] as int, b@[2] as int);
    assert(a@ =~= b@);
}

/// An element of the scalar field of BLS12-381, held as the four
/// little-endian 64-bit limbs of its canonical representative.
#[derive(Clone, Copy, Debug)]
pub struct Scalar {
    pub limbs: [u64; 4],
}

impl Scalar {
    /// The canonical integer representative.
    pub open spec fn value(&self) -> nat {
        limbs_value(self.limbs)
    }

    /// The representative lies below the field order.
    pub open spec fn wf(&self) -> bool {
        self.value() < modulus()
    }

    /// The field element with representative `v`.
    pub fn from_u128(v: u128) -> (r: Scalar)
        ensures
            r.wf(),
            r.value() == v as nat,
    {
        let lo: u64 = (v % 0x1_0000_0000_0000_0000u128) as u64;
        let hi: u64 = (v / 0x1_0000_0000_0000_0000u128) as u64;
        let r = Scalar { limbs: [lo, hi, 0, 0] };
        assert(v == (hi as int) * limb_base() + lo) by (nonlinear_arith)
            requires
                lo == v % 0x1_0000_0000_0000_0000u128,
                hi == v / 0x1_0000_0000_0000_0000u128,
        ;
        assert(r.value() == v as nat) by (nonlinear_arith)
            requires
                r.limbs@[0] == lo,
                r.limbs@[1] == hi,
                r.limbs@[2] == 0,
                r.limbs@[3] == 0,
                v == (hi as int) * limb_base() + lo,
        ;
        r
    }

    /// The additive identity.
    pub fn zero() -> (r: Scalar)
        ensures
            r.wf(),
            r.value() == 0,
    {
        Scalar::from_u128(0)
    }

    /// The multiplicative identity.
    pub fn one() -> (r: Scalar)
        ensures
            r.wf(),
            r.value() == 1,
    {
        Scalar::from_u128(1)
    }

    /// Field product.
    pub fn mul(&self, other: &Scalar) -> (r: Scalar)
        requires
            self.wf(),
            other.wf(),
        ensures
            r.wf(),
            r.value() == (self.value() * other.value()) % modulus(),
    {
        Scalar { limbs: fr_mul_limbs(self.limbs, other.limbs) }
    }

    /// Field sum.
    pub fn add(&self, other: &Scalar) -> (r: Scalar)
        requires
            self.wf(),
            other.wf(),
        ensures
            r.wf(),
            r.value() == (self.value() + other.value()) % modulus(),
    {
        Scalar { limbs: fr_add_limbs(self.limbs, other.limbs) }
    }

    /// Field equality: both sides are canonical, so equal elements have equal limbs.
    pub fn equals(&self, other: &Scalar) -> (r: bool)
        ensures
            r == (self.value() == other.value()),
    {
        let same = self.limbs[0] == other.limbs[0] && self.limbs[1] == other.limbs[1]
            && self.limbs[2] == other.limbs[2] && self.limbs[3] == other.limbs[3];
        proof {
            if self.value() == other.value() {
                lemma_limbs_injective(self.limbs, other.limbs);
            }
            if same {
                assert(self.limbs@ =~= other.limbs@);
            }
        }
        same
    }
}

} // verus!
