//! Fixed-point decimals with eighteen fractional digits.
//!
//! A value is held as a whole part and a fractional part counted in atomic
//! units, so that every whole amount of 128 bits has a decimal and no
//! intermediate of the distribution formulas needs more than the widening
//! ratio of [`crate::ratio`]. All divisions round toward zero.

use crate::error::ArithmeticError;
use crate::ratio::{lemma_ratio_below_numerator, lemma_ratio_split, mul_ratio, ratio_floor};
use vstd::arithmetic::div_mod::*;
use vstd::prelude::*;

verus! {

/// Atomic units in one whole unit: ten to the eighteenth.
pub const DECIMAL_FRACTIONAL: u128 = 1_000_000_000_000_000_000u128;

/// The number of atomic units in one whole unit, as a natural number.
pub open spec fn unit() -> nat {
    DECIMAL_FRACTIONAL as nat
}

/// Whether a count of atomic units can be held by a [`Decimal`].
pub open spec fn representable(atomics: nat) -> bool {
    atomics / unit() <= u128::MAX
}

/// A non-negative decimal number with eighteen fractional digits.
#[derive(Clone, Copy, Debug, PartialEq, Eq)]
pub struct Decimal {
    /// The integral part.
    pub whole: u128,
    /// The fractional part in atomic units, below [`DECIMAL_FRACTIONAL`].
    pub frac: u128,
}

impl View for Decimal {
    type V = nat;

    /// The value counted in atomic units.
    open spec fn view(&self) -> nat {
        (self.whole * DECIMAL_FRACTIONAL + self.frac) as nat
    }
}

impl Decimal {
    /// The fractional part is a proper fraction.
    pub open spec fn wf(self) -> bool {
        self.frac < DECIMAL_FRACTIONAL
    }

    /// The decimal that holds exactly `atomics` atomic units.
    pub open spec fn of_atomics(atomics: nat) -> Decimal {
        Decimal { whole: (atomics / unit()) as u128, frac: (atomics % unit()) as u128 }
    }

    /// The sum, where it is representable.
    pub open spec fn spec_add(self, other: Decimal) -> Result<Decimal, ArithmeticError> {
        if representable(self@ + other@) {
            Ok(Decimal::of_atomics(self@ + other@))
        } else {
            Err(ArithmeticError::Overflow)
        }
    }

    /// The difference, where it is not negative.
    pub open spec fn spec_sub(self, other: Decimal) -> Result<Decimal, ArithmeticError> {
        if other@ <= self@ {
            Ok(Decimal::of_atomics((self@ - other@) as nat))
        } else {
            Err(ArithmeticError::Overflow)
        }
    }

    /// The product with a whole number, where it is representable.
    pub open spec fn spec_mul_int(self, k: u128) -> Result<Decimal, ArithmeticError> {
        if representable(self@ * (k as nat)) {
            Ok(Decimal::of_atomics(self@ * (k as nat)))
        } else {
            Err(ArithmeticError::Overflow)
        }
    }

    /// The product with a whole amount, rounded down to whole units.
    pub open spec fn spec_mul_floor(self, amount: u128) -> Result<u128, ArithmeticError> {
        if (self@ * (amount as nat)) / unit() <= u128::MAX {
            Ok(((self@ * (amount as nat)) / unit()) as u128)
        } else {
            Err(ArithmeticError::Overflow)
        }
    }

    /// The quotient of two whole numbers, rounded down to eighteen digits.
    pub open spec fn spec_from_ratio(n: u128, d: u128) -> Result<Decimal, ArithmeticError> {
        if d == 0 {
            Err(ArithmeticError::DivideByZero)
        } else {
            Ok(Decimal::of_atomics(ratio_floor(n as nat, unit(), d as nat)))
        }
    }

    /// A well-formed decimal is the one that holds its own atomic units.
    pub proof fn lemma_of_atomics_view(self)
        requires
            self.wf(),
        ensures
            Decimal::of_atomics(self@) == self,
            representable(self@),
    {
        lemma_fundamental_div_mod_converse(
            self@ as int,
            unit() as int,
            self.whole as int,
            self.frac as int,
        );
    }

    /// `of_atomics` is well formed and exact on every representable count.
    pub proof fn lemma_of_atomics_exact(atomics: nat)
        requires
            representable(atomics),
        ensures
            Decimal::of_atomics(atomics).wf(),
            Decimal::of_atomics(atomics)@ == atomics,
            Decimal::of_atomics(atomics).whole == atomics / unit(),
            Decimal::of_atomics(atomics).frac == atomics % unit(),
    {
        lemma_fundamental_div_mod(atomics as int, unit() as int);
        lemma_mod_bound(atomics as int, unit() as int);
        lemma_div_pos_is_pos(atomics as int, unit() as int);
        assert(unit() * (atomics / unit()) == (atomics / unit()) * unit()) by (nonlinear_arith);
    }

    /// Decimals are ordered by their whole part, then by their fraction.
    pub proof fn lemma_order(self, other: Decimal)
        requires
            self.wf(),
            other.wf(),
        ensures
            self@ <= other@ <==> (self.whole < other.whole || (self.whole == other.whole
                && self.frac <= other.frac)),
            self@ == other@ <==> self == other,
    {
        let m = unit() as int;
        let a = self.whole as int;
        let b = other.whole as int;
        if a < b {
            assert(a * m + m <= b * m) by (nonlinear_arith)
                requires
                    a < b,
                    m > 0,
            ;
        } else if b < a {
            assert(b * m + m <= a * m) by (nonlinear_arith)
                requires
                    b < a,
                    m > 0,
            ;
        }
    }

    /// Whether the fractional part is a proper fraction.
    pub fn is_well_formed(&self) -> (b: bool)
        ensures
            b == self.wf(),
    {
        self.frac < DECIMAL_FRACTIONAL
    }

    /// The decimal with the given parts, if the fraction is proper.
    pub fn new(whole: u128, frac: u128) -> (r: Option<Decimal>)
        ensures
            r == (if frac < DECIMAL_FRACTIONAL {
                Some(Decimal { whole, frac })
            } else {
                None
            }),
    {
        if frac < DECIMAL_FRACTIONAL {
            Some(Decimal { whole, frac })
        } else {
            None
        }
    }

    /// Zero.
    pub fn zero() -> (r: Decimal)
        ensures
            r.wf(),
            r@ == 0,
            r == (Decimal { whole: 0, frac: 0 }),
    {
        Decimal { whole: 0, frac: 0 }
    }

    /// One whole unit.
    pub fn one() -> (r: Decimal)
        ensures
            r.wf(),
            r@ == unit(),
            r == (Decimal { whole: 1, frac: 0 }),
    {
        Decimal { whole: 1, frac: 0 }
    }

    /// The decimal worth `amount` whole units.
    pub fn from_uint(amount: u128) -> (r: Decimal)
        ensures
            r.wf(),
            r@ == amount * unit(),
            r == (Decimal { whole: amount, frac: 0 }),
    {
        Decimal { whole: amount, frac: 0 }
    }

    /// Whether `self` is at most `other`.
    pub fn le(&self, other: &Decimal) -> (b: bool)
        requires
            self.wf(),
            other.wf(),
        ensures
            b == (self@ <= other@),
    {
        proof {
            self.lemma_order(*other);
        }
        self.whole < other.whole || (self.whole == other.whole && self.frac <= other.frac)
    }

    /// The integral part: the value rounded toward zero.
    pub fn to_uint_floor(&self) -> (r: u128)
        requires
            self.wf(),
        ensures
            r == self@ / unit(),
            r == self.whole,
    {
        proof {
            self.lemma_of_atomics_view();
        }
        self.whole
    }

    /// The fractional part: what rounding toward zero leaves behind.
    pub fn fract(&self) -> (r: Decimal)
        requires
            self.wf(),
        ensures
            r.wf(),
            r@ == self@ % unit(),
            r == (Decimal { whole: 0, frac: self.frac }),
    {
        proof {
            self.lemma_of_atomics_view();
        }
        Decimal { whole: 0, frac: self.frac }
    }

    /// `n / d`, rounded down to eighteen fractional digits.
    pub fn from_ratio(n: u128, d: u128) -> (r: Result<Decimal, ArithmeticError>)
        ensures
            r == Decimal::spec_from_ratio(n, d),
            r matches Ok(x) ==> x.wf() && x@ == ratio_floor(n as nat, unit(), d as nat),
    {
        if d == 0 {
            return Err(ArithmeticError::DivideByZero);
        }
        let q: u128 = n / d;
        let rest: u128 = n % d;
        proof {
            lemma_fundamental_div_mod(n as int, d as int);
            assert(d * (n / d) == (n / d) * d) by (nonlinear_arith);
            lemma_ratio_split(q as nat, rest as nat, unit(), d as nat);
            lemma_ratio_below_numerator(rest as nat, unit(), d as nat);
        }
        let f: u128 = mul_ratio(rest, DECIMAL_FRACTIONAL, d).unwrap();
        let x = Decimal { whole: q, frac: f };
        proof {
            assert(x@ == ratio_floor(n as nat, unit(), d as nat)) by (nonlinear_arith)
                requires
                    x@ == q * unit() + f,
                    ratio_floor(n as nat, unit(), d as nat) == q * unit() + f,
            ;
            x.lemma_of_atomics_view();
        }
        Ok(x)
    }

    /// The sum, or `Overflow` where it cannot be represented.
    pub fn checked_add(&self, other: &Decimal) -> (r: Result<Decimal, ArithmeticError>)
        requires
            self.wf(),
            other.wf(),
        ensures
            r == self.spec_add(*other),
            r matches Ok(x) ==> x.wf() && x@ == self@ + other@,
    {
        let f: u128 = self.frac + other.frac;
        let carry: u128 = if f >= DECIMAL_FRACTIONAL {
            1
        } else {
            0
        };
        let rest: u128 = if f >= DECIMAL_FRACTIONAL {
            f - DECIMAL_FRACTIONAL
        } else {
            f
        };
        let ghost total: nat = self@ + other@;
        proof {
            let m = unit() as int;
            let w = self.whole + other.whole + carry;
            assert(total == m * w + rest) by (nonlinear_arith)
                requires
                    total == self.whole * m + self.frac + other.whole * m + other.frac,
                    self.frac + other.frac == carry * m + rest,
                    w == self.whole + other.whole + carry,
            ;
            lemma_fundamental_div_mod_converse(total as int, m, w, rest as int);
        }
        match self.whole.checked_add(other.whole) {
            None => Err(ArithmeticError::Overflow),
            Some(w0) => match w0.checked_add(carry) {
                None => Err(ArithmeticError::Overflow),
                Some(w) => {
                    let x = Decimal { whole: w, frac: rest };
                    proof {
                        x.lemma_of_atomics_view();
                    }
                    Ok(x)
                },
            },
        }
    }

    /// The difference, or `Overflow` where it would be negative.
    pub fn checked_sub(&self, other: &Decimal) -> (r: Result<Decimal, ArithmeticError>)
        requires
            self.wf(),
            other.wf(),
        ensures
            r == self.spec_sub(*other),
            r matches Ok(x) ==> x.wf() && x@ == self@ - other@,
    {
        proof {
            other.lemma_order(*self);
        }
        if !other.le(self) {
            return Err(ArithmeticError::Overflow);
        }
        let x = if self.frac >= other.frac {
            Decimal { whole: self.whole - other.whole, frac: self.frac - other.frac }
        } else {
            Decimal {
                whole: self.whole - other.whole - 1,
                frac: self.frac + DECIMAL_FRACTIONAL - other.frac,
            }
        };
        proof {
            let m = unit() as int;
            assert(x@ == self@ - other@) by (nonlinear_arith)
                requires
                    x@ == x.whole * m + x.frac,
                    self@ == self.whole * m + self.frac,
                    other@ == other.whole * m + other.frac,
                    (x.whole == self.whole - other.whole && x.frac == self.frac - other.frac) || (
                    x.whole == self.whole - other.whole - 1 && x.frac == self.frac + m
                        - other.frac),
            ;
            x.lemma_of_atomics_view();
        }
        Ok(x)
    }

    /// The product with the whole number `k`, or `Overflow`.
    pub fn checked_mul_int(&self, k: u128) -> (r: Result<Decimal, ArithmeticError>)
        requires
            self.wf(),
        ensures
            r == self.spec_mul_int(k),
            r matches Ok(x) ==> x.wf() && x@ == self@ * k,
    {
        let ghost m = unit() as int;
        let ghost product: nat = self@ * (k as nat);
        // The fractional part times `k`, split into whole units and a rest.
        let q: u128 = mul_ratio(k, self.frac, DECIMAL_FRACTIONAL).unwrap();
        let km: u128 = k % DECIMAL_FRACTIONAL;
        proof {
            assert(km * self.frac < DECIMAL_FRACTIONAL * DECIMAL_FRACTIONAL) by (nonlinear_arith)
                requires
                    km < DECIMAL_FRACTIONAL,
                    self.frac < DECIMAL_FRACTIONAL,
            ;
        }
        let rest: u128 = (km * self.frac) % DECIMAL_FRACTIONAL;
        proof {
            lemma_mul_mod_noop_left(k as int, self.frac as int, m);
            lemma_fundamental_div_mod(k * self.frac, m);
            let wk = self.whole * k;
            assert(product == m * (wk + q) + rest) by (nonlinear_arith)
                requires
                    product == (self.whole * m + self.frac) * k,
                    k * self.frac == m * q + rest,
                    wk == self.whole * k,
            ;
            lemma_fundamental_div_mod_converse(product as int, m, wk + q, rest as int);
        }
        match self.whole.checked_mul(k) {
            None => Err(ArithmeticError::Overflow),
            Some(wk) => match wk.checked_add(q) {
                None => Err(ArithmeticError::Overflow),
                Some(w) => {
                    let x = Decimal { whole: w, frac: rest };
                    proof {
                        x.lemma_of_atomics_view();
                    }
                    Ok(x)
                },
            },
        }
    }

    /// `amount` times this decimal, rounded down to a whole amount, or `Overflow`.
    pub fn mul_floor(&self, amount: u128) -> (r: Result<u128, ArithmeticError>)
        requires
            self.wf(),
        ensures
            r == self.spec_mul_floor(amount),
    {
        match self.checked_mul_int(amount) {
            Ok(x) => {
                proof {
                    x.lemma_of_atomics_view();
                }
                Ok(x.whole)
            },
            Err(_) => Err(ArithmeticError::Overflow),
        }
    }
}

} // verus!
