//! Elements of the prime field over which circuits and witnesses are expressed.
//!
//! A [`FieldElement`] stores the canonical representative of a residue as four
//! 64-bit limbs, least significant first. All arithmetic is carried out by
//! `ark-ff` on the Pallas base field; this module states what those operations
//! compute on the canonical representatives.
//!
//! Every `FieldElement` is canonical by its type invariant, so turning its
//! limbs into an `ark-ff` element cannot fail.

use ark_ff::BigInteger256;
use ark_ff::PrimeField;
use ark_pallas::Fq;
use vstd::prelude::*;

verus! {

/// Weight of the second limb, `2^64`.
pub open spec fn limb_1() -> nat {
    0x1_0000_0000_0000_0000nat
}

/// Weight of the third limb, `2^128`.
pub open spec fn limb_2() -> nat {
    0x1_0000_0000_0000_0000_0000_0000_0000_0000nat
}

/// Weight of the fourth limb, `2^192`.
pub open spec fn limb_3() -> nat {
    0x1_0000_0000_0000_0000_0000_0000_0000_0000_0000_0000_0000_0000nat
}

/// The field characteristic.
pub open spec fn modulus() -> nat {
    0x4000_0000_0000_0000_0000_0000_0000_0000_2246_98fc_094c_f91b_992d_30ed_0000_0001nat
}

/// The integer denoted by four little-endian 64-bit limbs.
pub open spec fn limbs_value(limbs: Seq<u64>) -> nat {
    (limbs[0] as nat) + (limbs[1] as nat) * limb_1() + (limbs[2] as nat) * limb_2() + (
    limbs[3] as nat) * limb_3()
}

/// Field addition on canonical representatives.
pub open spec fn fadd(a: nat, b: nat) -> nat {
    (a + b) % modulus()
}

/// Field subtraction on canonical representatives.
pub open spec fn fsub(a: nat, b: nat) -> nat {
    ((a as int - b as int) % (modulus() as int)) as nat
}

/// Field multiplication on canonical representatives.
pub open spec fn fmul(a: nat, b: nat) -> nat {
    (a * b) % modulus()
}

/// The affine map `input * weight + bias` computed in the field.
pub open spec fn linear_value(input: nat, weight: nat, bias: nat) -> nat {
    fadd(fmul(input, weight), bias)
}

/// Clamp to zero: a value that compares greater than zero is kept, anything
/// else becomes zero.
pub open spec fn clamp_value(v: nat) -> nat {
    if v > 0 {
        v
    } else {
        0
    }
}

/// An element of the field, held as its canonical representative.
#[derive(Clone, Copy, Debug, PartialEq, Eq)]
pub struct FieldElement {
    limbs: [u64; 4],
}

impl View for FieldElement {
    type V = nat;

    /// The canonical representative, an integer below [`modulus`].
    closed spec fn view(&self) -> nat {
        limbs_value(self.limbs@) % modulus()
    }
}

/// `PrimeField::from_repr` of `ark-ff` on the Pallas base field: it accepts
/// exactly the limb vectors that denote an integer below the modulus. The
/// limbs of the element handed back are the ones handed in.
#[verifier::external_body]
fn ark_from_repr(limbs: [u64; 4]) -> (r: Option<FieldElement>)
    ensures
        r is Some <==> limbs_value(limbs@) < modulus(),
        r matches Some(x) ==> x.limbs() == limbs@,
{
    match Fq::from_repr(BigInteger256(limbs)) {
        Some(_) => Some(FieldElement { limbs }),
        None => None,
    }
}

/// `From<u64>` of `ark-ff` for the Pallas base field, read back with
/// `PrimeField::into_repr`: the element whose canonical representative is the
/// given integer.
#[verifier::external_body]
fn ark_from_u64(v: u64) -> (r: FieldElement)
    ensures
        r@ == v,
{
    FieldElement { limbs: Fq::from(v).into_repr().0 }
}

/// `Add::add` of `ark-ff` for the Pallas base field: the sum of the two
/// representatives reduced modulo the characteristic.
#[verifier::external_body]
fn ark_add(a: FieldElement, b: FieldElement) -> (r: FieldElement)
    ensures
        r@ == fadd(a@, b@),
{
    let x = Fq::from_repr(BigInteger256(a.limbs)).unwrap();
    let y = Fq::from_repr(BigInteger256(b.limbs)).unwrap();
    FieldElement { limbs: (x + y).into_repr().0 }
}

/// `Sub::sub` of `ark-ff` for the Pallas base field: the difference of the
/// two representatives reduced modulo the characteristic.
#[verifier::external_body]
fn ark_sub(a: FieldElement, b: FieldElement) -> (r: FieldElement)
    ensures
        r@ == fsub(a@, b@),
{
    let x = Fq::from_repr(BigInteger256(a.limbs)).unwrap();
    let y = Fq::from_repr(BigInteger256(b.limbs)).unwrap();
    FieldElement { limbs: (x - y).into_repr().0 }
}

/// `Mul::mul` of `ark-ff` for the Pallas base field: the product of the two
/// representatives reduced modulo the characteristic.
#[verifier::external_body]
fn ark_mul(a: FieldElement, b: FieldElement) -> (r: FieldElement)
    ensures
        r@ == fmul(a@, b@),
{
    let x = Fq::from_repr(BigInteger256(a.limbs)).unwrap();
    let y = Fq::from_repr(BigInteger256(b.limbs)).unwrap();
    FieldElement { limbs: (x * y).into_repr().0 }
}

/// `PartialOrd::gt` of `ark-ff` for the Pallas base field, which orders
/// elements by their canonical representatives taken as integers.
#[verifier::external_body]
fn ark_greater(a: FieldElement, b: FieldElement) -> (r: bool)
    ensures
        r == (a@ > b@),
{
    let x = Fq::from_repr(BigInteger256(a.limbs)).unwrap();
    let y = Fq::from_repr(BigInteger256(b.limbs)).unwrap();
    x > y
}

impl FieldElement {
    #[verifier::type_invariant]
    spec fn canonical(self) -> bool {
        limbs_value(self.limbs@) < modulus()
    }

    /// The four limbs of the canonical representative, least significant first.
    pub closed spec fn limbs(self) -> Seq<u64> {
        self.limbs@
    }

    /// The view of an element is always below the modulus.
    pub proof fn lemma_view_is_canonical(self)
        ensures
            self@ < modulus(),
    {
    }

    /// Builds an element from the limbs of its canonical representative.
    /// Limbs that denote an integer at or above the modulus are rejected.
    pub fn from_limbs(limbs: [u64; 4]) -> (r: Option<FieldElement>)
        ensures
            r is Some <==> limbs_value(limbs@) < modulus(),
            r matches Some(x) ==> x.limbs() == limbs@ && x@ == limbs_value(limbs@),
    {
        ark_from_repr(limbs)
    }

    /// The limbs of the canonical representative, least significant first.
    pub fn to_limbs(&self) -> (r: [u64; 4])
        ensures
            r@ == self.limbs(),
            limbs_value(r@) == self@,
            self@ < modulus(),
    {
        proof {
            use_type_invariant(self);
        }
        self.limbs
    }

    /// The element denoted by a 64-bit integer.
    pub fn from_u64(v: u64) -> (r: FieldElement)
        ensures
            r@ == v,
    {
        ark_from_u64(v)
    }

    /// The additive identity.
    pub fn zero() -> (r: FieldElement)
        ensures
            r@ == 0,
    {
        ark_from_u64(0)
    }

    /// The multiplicative identity.
    pub fn one() -> (r: FieldElement)
        ensures
            r@ == 1,
    {
        ark_from_u64(1)
    }

    /// The additive inverse of one, the default output coefficient of a gate.
    pub fn minus_one() -> (r: FieldElement)
        ensures
            r@ == modulus() - 1,
    {
        ark_sub(ark_from_u64(0), ark_from_u64(1))
    }

    /// Field addition.
    pub fn add(&self, rhs: &FieldElement) -> (r: FieldElement)
        ensures
            r@ == fadd(self@, rhs@),
    {
        ark_add(*self, *rhs)
    }

    /// Field subtraction.
    pub fn sub(&self, rhs: &FieldElement) -> (r: FieldElement)
        ensures
            r@ == fsub(self@, rhs@),
    {
        ark_sub(*self, *rhs)
    }

    /// Field multiplication.
    pub fn mul(&self, rhs: &FieldElement) -> (r: FieldElement)
        ensures
            r@ == fmul(self@, rhs@),
    {
        ark_mul(*self, *rhs)
    }

    /// Whether this is the additive identity.
    pub fn is_zero(&self) -> (r: bool)
        ensures
            r == (self@ == 0),
    {
        proof {
            use_type_invariant(self);
        }
        self.limbs[0] == 0 && self.limbs[1] == 0 && self.limbs[2] == 0 && self.limbs[3] == 0
    }

    /// The affine map of one hidden unit: `self * weight + bias`.
    pub fn linear(&self, weight: &FieldElement, bias: &FieldElement) -> (r: FieldElement)
        ensures
            r@ == linear_value(self@, weight@, bias@),
    {
        ark_add(ark_mul(*self, *weight), *bias)
    }

    /// Clamp to zero: keeps a value that compares greater than zero and
    /// replaces anything else by zero.
    pub fn clamp(&self) -> (r: FieldElement)
        ensures
            r@ == clamp_value(self@),
    {
        let zero = ark_from_u64(0);
        if ark_greater(*self, zero) {
            *self
        } else {
            zero
        }
    }
}

/// On canonical representatives the clamp never changes a value: every
/// non-zero element compares greater than zero.
pub proof fn lemma_clamp_is_identity(v: nat)
    ensures
        clamp_value(v) == v,
{
}

/// The low 128 bits of an element's canonical representative.
///
/// The limbs are folded from the most significant down, shifting the
/// accumulator left by 64 bits before each limb is merged in, so the two upper
/// limbs are shifted out.
pub fn fp_to_integer(fp: FieldElement) -> (r: u128)
    ensures
        r == fp@ % limb_2(),
        r == fp.limbs()[0] + fp.limbs()[1] * limb_1(),
{
    let limbs = fp.to_limbs();
    let mut result: u128 = 0;
    let mut i: usize = 4;
    while i > 0
        invariant
            i <= 4,
            i == 4 ==> result == 0,
            i == 3 ==> result == limbs[3],
            i == 2 ==> result == limbs[3] * limb_1() + limbs[2],
            i == 1 ==> result == limbs[2] * limb_1() + limbs[1],
            i == 0 ==> result == limbs[1] * limb_1() + limbs[0],
        decreases i,
    {
        i = i - 1;
        let part: u64 = limbs[i];
        let shifted: u128 = result << 64;
        let merged: u128 = shifted | (part as u128);
        proof {
            let hi: u64 = if i == 2 {
                limbs[3]
            } else if i == 1 {
                limbs[2]
            } else {
                limbs[1]
            };
            if i == 3 {
                assert((0u128 << 64) | (part as u128) == part as u128) by (bit_vector);
            } else if i == 2 {
                assert(((hi as u128) << 64) | (part as u128) == (hi as u128)
                    * 0x1_0000_0000_0000_0000u128 + (part as u128)) by (bit_vector);
            } else {
                let top: u64 = if i == 1 {
                    limbs[3]
                } else {
                    limbs[2]
                };
                assert(((((top as u128) * 0x1_0000_0000_0000_0000u128 + (hi as u128)) as u128)
                    << 64) | (part as u128) == (hi as u128) * 0x1_0000_0000_0000_0000u128 + (
                part as u128)) by (bit_vector);
            }
        }
        result = merged;
    }
    proof {
        let low: int = limbs[0] + limbs[1] * limb_1();
        let high: int = limbs[2] + limbs[3] * limb_1();
        assert(fp@ == low + high * limb_2()) by (nonlinear_arith)
            requires
                fp@ == limbs_value(limbs@),
                low == limbs[0] + limbs[1] * limb_1(),
                high == limbs[2] + limbs[3] * limb_1(),
                limbs_value(limbs@) == (limbs[0] as nat) + (limbs[1] as nat) * limb_1() + (
                limbs[2] as nat) * limb_2() + (limbs[3] as nat) * limb_3(),
                limb_3() == limb_1() * limb_2(),
        ;
        assert(0 <= low < limb_2()) by (nonlinear_arith)
            requires
                low == limbs[0] + limbs[1] * limb_1(),
                0 <= limbs[0] < limb_1(),
                0 <= limbs[1] < limb_1(),
                limb_2() == limb_1() * limb_1(),
        ;
        vstd::arithmetic::div_mod::lemma_mod_multiples_vanish(high, low, limb_2() as int);
        vstd::arithmetic::div_mod::lemma_small_mod(low as nat, limb_2());
    }
    result
}

} // verus!
