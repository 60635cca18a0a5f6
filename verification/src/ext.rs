//! Value types: amounts of money, balances and barcodes.

pub mod big;
pub mod text;

use crate::ext::big::{
    integer_add, integer_clone, integer_eq, integer_from_i64, integer_from_natural,
    integer_is_negative, integer_magnitude, integer_neg, integer_value, natural_add,
    natural_clone, natural_eq, natural_from_u64, natural_le, natural_sub, natural_value, Integer,
    Natural,
};
use crate::ext::text::{chars_of, parse_u64, u64_literal, DecimalError};
use vstd::arithmetic::power::{lemma_pow0, lemma_pow_positive, pow};
use vstd::prelude::*;

verus! {

/// Count of european cents.
#[derive(Debug, PartialEq, Eq, PartialOrd, Ord, Hash)]
pub struct Money(pub Natural);

impl View for Money {
    type V = nat;

    open spec fn view(&self) -> nat {
        natural_value(self.0)
    }
}

impl Clone for Money {
    fn clone(&self) -> (r: Self)
        ensures
            r@ == self@,
    {
        Money(natural_clone(&self.0))
    }
}

impl Money {
    /// That many cents.
    pub fn from_cents(cents: u64) -> (r: Money)
        ensures
            r@ == cents,
    {
        Money(natural_from_u64(cents))
    }

    /// Whether two amounts are the same number of cents.
    pub fn same(&self, other: &Money) -> (r: bool)
        ensures
            r == (self@ == other@),
    {
        natural_eq(&self.0, &other.0)
    }

    /// The two amounts together.
    pub fn add(&self, rhs: &Money) -> (r: Money)
        ensures
            r@ == self@ + rhs@,
    {
        Money(natural_add(&self.0, &rhs.0))
    }

    /// Whether this amount is no more than the other.
    pub fn at_most(&self, other: &Money) -> (r: bool)
        ensures
            r == (self@ <= other@),
    {
        natural_le(&self.0, &other.0)
    }

    /// What is left of this amount once `rhs` is taken away, where
    /// `rhs` is no more than this amount.
    pub fn checked_sub(&self, rhs: &Money) -> (r: Option<Money>)
        ensures
            rhs@ <= self@ ==> r is Some && r->0@ == self@ - rhs@,
            rhs@ > self@ ==> r is None,
    {
        if rhs.at_most(self) {
            Some(self.sub(rhs))
        } else {
            None
        }
    }

    /// What is left of this amount once `rhs` is taken away.
    /// There is no negative money: `rhs` is at most this amount.
    pub fn sub(&self, rhs: &Money) -> (r: Money)
        requires
            rhs@ <= self@,
        ensures
            r@ == self@ - rhs@,
    {
        Money(natural_sub(&self.0, &rhs.0))
    }
}

/// How much two entities owe each other.
#[derive(Debug, PartialEq, Eq, PartialOrd, Ord, Hash)]
pub struct Balance(pub Integer);

impl View for Balance {
    type V = int;

    open spec fn view(&self) -> int {
        integer_value(self.0)
    }
}

impl Clone for Balance {
    fn clone(&self) -> (r: Self)
        ensures
            r@ == self@,
    {
        Balance(integer_clone(&self.0))
    }
}

impl Balance {
    /// Nobody owes anything.
    pub fn zero() -> (r: Balance)
        ensures
            r@ == 0,
    {
        Balance(integer_from_i64(0))
    }

    /// That many cents, owed if positive.
    pub fn from_cents(cents: i64) -> (r: Balance)
        ensures
            r@ == cents,
    {
        Balance(integer_from_i64(cents))
    }

    /// The amount as a debt.
    pub fn from_money(amount: Money) -> (r: Balance)
        ensures
            r@ == amount@,
    {
        Balance(integer_from_natural(amount.0))
    }

    /// Make a negative value positive and
    /// the other way around.
    pub fn flip(&mut self)
        ensures
            final(self)@ == -old(self)@,
    {
        let negated = integer_neg(integer_clone(&self.0));
        self.0 = negated;
    }

    /// Whether two balances are the same number of cents.
    pub fn same(&self, other: &Balance) -> (r: bool)
        ensures
            r == (self@ == other@),
    {
        integer_eq(&self.0, &other.0)
    }

    /// The two balances together.
    pub fn add(&self, rhs: &Balance) -> (r: Balance)
        ensures
            r@ == self@ + rhs@,
    {
        Balance(integer_add(&self.0, &rhs.0))
    }

    /// The balance lowered by `rhs`.
    pub fn sub(&self, rhs: &Balance) -> (r: Balance)
        ensures
            r@ == self@ - rhs@,
    {
        let negated = integer_neg(integer_clone(&rhs.0));
        Balance(integer_add(&self.0, &negated))
    }

    /// Whether the debt runs against the direction asked about.
    pub fn is_negative(&self) -> (r: bool)
        ensures
            r == (self@ < 0),
    {
        integer_is_negative(&self.0)
    }

    /// The size of the debt, whoever owes it.
    pub fn abs(&self) -> (r: Money)
        ensures
            r@ == vstd::math::abs(self@),
    {
        Money(natural_clone(integer_magnitude(&self.0)))
    }
}

impl From<Money> for Balance {
    /// The amount as a debt.
    fn from(amount: Money) -> (r: Self)
        ensures
            r@ == amount@,
    {
        Balance::from_money(amount)
    }
}

impl vstd::std_specs::convert::FromSpecImpl<Money> for Balance {
    open spec fn obeys_from_spec() -> bool {
        false
    }

    open spec fn from_spec(amount: Money) -> Self {
        arbitrary()
    }
}

/// The largest number that 14 digits can write.
pub const GTIN_MAX: u64 = 99_999_999_999_999;

/// How many digits the base 10 writing of `n` has.
pub open spec fn spec_digits(n: nat) -> nat
    decreases n,
{
    if n < 10 {
        1
    } else {
        1 + spec_digits(n / 10)
    }
}

/// A number has at most `k` digits exactly when it is below `10^k`.
pub proof fn lemma_digits_bound(n: nat, k: nat)
    requires
        k >= 1,
    ensures
        spec_digits(n) >= 1,
        spec_digits(n) <= k <==> n < pow(10, k),
    decreases k,
{
    assert(spec_digits(n / 10) >= 1);
    let p = pow(10, (k - 1) as nat);
    lemma_pow_positive(10, (k - 1) as nat);
    assert(pow(10, k) == 10 * p) by {
        reveal(pow);
    }
    if k == 1 {
        lemma_pow0(10);
    } else if n >= 10 {
        lemma_digits_bound(n / 10, (k - 1) as nat);
        assert(n / 10 < p <==> n < 10 * p) by (nonlinear_arith)
            requires
                p > 0,
        ;
    } else {
        assert(10 * p >= 10) by (nonlinear_arith)
            requires
                p >= 1,
        ;
    }
}

/// No number of 64 bits has more than 20 digits.
pub proof fn lemma_digits_u64(n: u64)
    ensures
        1 <= spec_digits(n as nat) <= 20,
{
    lemma_digits_bound(n as nat, 20);
    assert(pow(10, 20) == 100_000_000_000_000_000_000int) by {
        reveal_with_fuel(pow, 21);
    }
}

/// Returns how many digits are in the base 10 repr of `n`.
pub fn digits(n: u64) -> (r: u32)
    ensures
        r == spec_digits(n as nat),
        1 <= r <= 20,
{
    let mut count: u32 = 1;
    let mut rest: u64 = n;
    proof {
        lemma_digits_u64(n);
    }
    while rest >= 10
        invariant
            count >= 1,
            spec_digits(n as nat) == spec_digits(rest as nat) + count - 1,
            spec_digits(n as nat) <= 20,
        decreases rest,
    {
        rest = rest / 10;
        count = count + 1;
    }
    count
}

/// The barcode that a text writes, or why it writes none: it has to
/// be a number that 64 bits hold, and of at most 14 digits.
pub open spec fn gtin_literal(s: Seq<char>) -> Result<u64, GtinParseError> {
    match u64_literal(s) {
        Ok(n) => if n <= GTIN_MAX {
            Ok(n)
        } else {
            Err(
                GtinParseError::TooLong(
                    TooLongError { orig: n, n: spec_digits(n as nat) as u32 },
                ),
            )
        },
        Err(e) => Err(GtinParseError::ExpectedInteger(e)),
    }
}

/// Global trade item number. The number behind the barcode you find in stores.
///
/// Any number with at most 14 digits in base 10 is accepted. Shorter
/// ones stand for the same digits with zeroes in front.
#[derive(Debug, Clone, Copy, PartialEq, Eq, PartialOrd, Ord, Hash)]
pub struct Gtin(u64);

impl View for Gtin {
    type V = u64;

    closed spec fn view(&self) -> u64 {
        self.0
    }
}

impl Gtin {
    /// Every barcode has at most 14 digits.
    #[verifier::type_invariant]
    pub open spec fn wf(self) -> bool {
        self@ <= GTIN_MAX
    }

    /// Interpret the integer as-is as GTIN.
    ///
    /// # Errors
    ///
    /// Returns an error if the integer is longer than 14 digits.
    pub fn new(source: u64) -> (r: Result<Gtin, TooLongError>)
        ensures
            source <= GTIN_MAX ==> r is Ok && r->Ok_0@ == source,
            source > GTIN_MAX ==> r == Err::<Gtin, TooLongError>(
                TooLongError { orig: source, n: spec_digits(source as nat) as u32 },
            ),
    {
        if source > GTIN_MAX {
            return Err(TooLongError { orig: source, n: digits(source) });
        }
        Ok(Gtin(source))
    }

    /// The barcode as a number.
    pub fn get(&self) -> (r: u64)
        ensures
            r == self@,
            r <= GTIN_MAX,
    {
        proof {
            use_type_invariant(self);
        }
        self.0
    }

    /// How many digits the barcode has without zeroes in front.
    pub fn digits(&self) -> (r: u32)
        ensures
            r == spec_digits(self@ as nat),
    {
        digits(self.0)
    }

    /// Reads a barcode from its digits.
    ///
    /// # Errors
    ///
    /// [`GtinParseError::ExpectedInteger`] where the text is no number
    /// that 64 bits hold, [`GtinParseError::TooLong`] where it is one
    /// of more than 14 digits.
    pub fn from_str(source: &str) -> (r: Result<Gtin, GtinParseError>)
        ensures
            match gtin_literal(source@) {
                Ok(n) => r is Ok && r->Ok_0@ == n,
                Err(e) => r == Err::<Gtin, GtinParseError>(e),
            },
    {
        let chars = chars_of(source);
        match parse_u64(&chars) {
            Ok(n) => match Gtin::new(n) {
                Ok(gtin) => Ok(gtin),
                Err(e) => Err(GtinParseError::TooLong(e)),
            },
            Err(e) => Err(GtinParseError::ExpectedInteger(e)),
        }
    }
}

impl std::str::FromStr for Gtin {
    type Err = GtinParseError;

    fn from_str(source: &str) -> (r: Result<Self, Self::Err>)
        ensures
            match gtin_literal(source@) {
                Ok(n) => r is Ok && r->Ok_0@ == n,
                Err(e) => r == Err::<Gtin, GtinParseError>(e),
            },
    {
        Gtin::from_str(source)
    }
}

/// Why a text is no barcode.
#[derive(Debug, PartialEq, Eq)]
pub enum GtinParseError {
    /// The text is not a number at all, or not one that 64 bits hold.
    ExpectedInteger(DecimalError),
    /// A number, but of more than 14 digits.
    TooLong(TooLongError),
}

/// The number has more digits than the longest barcode.
#[derive(Debug, Clone, Copy, PartialEq, Eq)]
pub struct TooLongError {
    pub orig: u64,
    pub n: u32,
}

} // verus!
