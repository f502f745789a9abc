//! Fixed-point money: an integer count of minor units (cents).
//!
//! Amounts and balances are held exclusively as integer minor units; no
//! floating point enters any computation. Conversion to and from decimal
//! strings happens only at the system boundary.

use vstd::prelude::*;
use vstd::string::StringSliceAdditionalSpecFns;

verus! {

/// A currency amount as a count of minor units (e.g. cents).
#[derive(Clone, Copy, Debug, PartialEq, Eq, Structural)]
pub struct Money {
    pub cents: u64,
}

impl View for Money {
    type V = int;

    open spec fn view(&self) -> int {
        self.cents as int
    }
}

impl Money {
    /// The amount of `cents` minor units.
    pub fn new(cents: u64) -> (r: Money)
        ensures
            r@ == cents as int,
    {
        Money { cents }
    }

    /// The zero amount.
    pub fn zero() -> (r: Money)
        ensures
            r@ == 0,
    {
        Money { cents: 0 }
    }

    /// Money never represents a negative amount.
    pub fn non_negative(&self) -> (r: bool)
        ensures
            r == (self@ >= 0),
    {
        true
    }

    /// Sum of two amounts; the caller must rule overflow out.
    pub fn add(self, other: Money) -> (r: Money)
        requires
            self@ + other@ <= u64::MAX,
        ensures
            r@ == self@ + other@,
    {
        Money { cents: self.cents + other.cents }
    }

    /// Sum of two amounts, or `None` when the sum does not fit.
    pub fn checked_add(self, other: Money) -> (r: Option<Money>)
        ensures
            self@ + other@ <= u64::MAX ==> r == Some(Money { cents: (self.cents + other.cents) as u64 }),
            self@ + other@ > u64::MAX ==> r is None,
    {
        match self.cents.checked_add(other.cents) {
            Some(c) => Some(Money { cents: c }),
            None => None,
        }
    }

    /// Difference of two amounts; the caller must rule a negative result out.
    pub fn sub(self, other: Money) -> (r: Money)
        requires
            other@ <= self@,
        ensures
            r@ == self@ - other@,
    {
        Money { cents: self.cents - other.cents }
    }

    /// Difference of two amounts, or `None` when it would be negative.
    pub fn checked_sub(self, other: Money) -> (r: Option<Money>)
        ensures
            other@ <= self@ ==> r == Some(Money { cents: (self.cents - other.cents) as u64 }),
            other@ > self@ ==> r is None,
    {
        match self.cents.checked_sub(other.cents) {
            Some(c) => Some(Money { cents: c }),
            None => None,
        }
    }

    /// True when `self` is at least `other`.
    pub fn ge(self, other: Money) -> (r: bool)
        ensures
            r == (self@ >= other@),
    {
        self.cents >= other.cents
    }
}

/// Whether the byte is an ASCII decimal digit.
pub open spec fn is_digit(b: u8) -> bool {
    48 <= b <= 57
}

/// Whether every byte of the sequence is an ASCII decimal digit.
pub open spec fn all_digits(bs: Seq<u8>) -> bool {
    forall|i: int| 0 <= i < bs.len() ==> is_digit(#[trigger] bs[i])
}

/// The number the digit bytes spell in base ten.
pub open spec fn digits_val(bs: Seq<u8>) -> int
    decreases bs.len(),
{
    if bs.len() == 0 {
        0
    } else {
        digits_val(bs.drop_last()) * 10 + (bs.last() - 48)
    }
}

/// The amount in minor units that a decimal string spells: one or more
/// digits, optionally followed by a point and exactly two digits
/// (`"12.34"` is 1234 minor units, `"7"` is 700). Anything else spells
/// no amount.
pub open spec fn parse_decimal(bs: Seq<u8>) -> Option<int> {
    if bs.len() >= 3 && bs[bs.len() - 3] == 46 {
        let whole = bs.take(bs.len() - 3);
        let frac = bs.skip(bs.len() - 2);
        if whole.len() > 0 && all_digits(whole) && all_digits(frac) {
            Some(digits_val(whole) * 100 + digits_val(frac))
        } else {
            None
        }
    } else {
        if bs.len() > 0 && all_digits(bs) {
            Some(digits_val(bs) * 100)
        } else {
            None
        }
    }
}

/// The decimal digits of `n`, most significant first.
pub open spec fn dec_digits(n: nat) -> Seq<char>
    decreases n,
{
    if n < 10 {
        seq![((48 + n) as u8) as char]
    } else {
        dec_digits(n / 10).push(((48 + n % 10) as u8) as char)
    }
}

/// The canonical decimal string of an amount of `cents` minor units:
/// the whole units, a point, and two fraction digits.
pub open spec fn decimal_chars(cents: nat) -> Seq<char> {
    dec_digits(cents / 100) + seq!['.', ((48 + (cents % 100) / 10) as u8) as char, ((48 + cents
        % 10) as u8) as char]
}

/// Relies on String::push: appends exactly the given character.
#[verifier::external_body]
fn push_char(s: &mut String, c: char)
    ensures
        final(s)@ == old(s)@.push(c),
{
    s.push(c)
}

/// Appends the decimal digits of `n` to `s`.
fn push_digits(s: &mut String, n: u64)
    ensures
        final(s)@ == old(s)@ + dec_digits(n as nat),
    decreases n,
{
    if n >= 10 {
        push_digits(s, n / 10);
    }
    let d: u8 = 48 + (n % 10) as u8;
    push_char(s, d as char);
    proof {
        if n < 10 {
            assert(old(s)@ + dec_digits(n as nat) =~= old(s)@.push(((48 + n as nat) as u8) as char));
        } else {
            assert(old(s)@ + dec_digits(n as nat) =~= (old(s)@ + dec_digits((n / 10) as nat)).push(
                ((48 + n as nat % 10) as u8) as char,
            ));
        }
    }
}

/// The decimal-digit string of `n`.
pub fn format_u64(n: u64) -> (r: String)
    ensures
        r@ == dec_digits(n as nat),
{
    let mut r = String::new();
    push_digits(&mut r, n);
    proof {
        assert(r@ =~= dec_digits(n as nat));
    }
    r
}

/// The value the clamped accumulator stands for.
pub open spec fn clamp_acc(v: int) -> int {
    if v > u64::MAX {
        u64::MAX + 1
    } else {
        v
    }
}

/// The value of the digit run `bs`, accumulated with saturation.
fn scan_digits(bs: &[u8], from: usize, to: usize) -> (r: Option<u128>)
    requires
        from <= to <= bs@.len(),
    ensures
        match r {
            Some(v) => all_digits(bs@.subrange(from as int, to as int)) && v == clamp_acc(
                digits_val(bs@.subrange(from as int, to as int)),
            ),
            None => !all_digits(bs@.subrange(from as int, to as int)),
        },
{
    let mut acc: u128 = 0;
    let mut i: usize = from;
    while i < to
        invariant
            from <= i <= to <= bs@.len(),
            all_digits(bs@.subrange(from as int, i as int)),
            acc == clamp_acc(digits_val(bs@.subrange(from as int, i as int))),
        decreases to - i,
    {
        let b = bs[i];
        if b < 48 || b > 57 {
            proof {
                assert(bs@.subrange(from as int, to as int)[i - from] == b);
            }
            return None;
        }
        let ghost prefix = bs@.subrange(from as int, i as int);
        acc = acc * 10 + ((b - 48) as u128);
        if acc > u64::MAX as u128 {
            acc = (u64::MAX as u128) + 1;
        }
        proof {
            assert(bs@.subrange(from as int, i as int + 1) =~= prefix.push(b));
            assert(bs@.subrange(from as int, i as int + 1).drop_last() =~= prefix);
        }
        i = i + 1;
    }
    Some(acc)
}

impl Money {
    /// Reads an amount from its decimal-string form at the system
    /// boundary: one or more digits, optionally a point and exactly two
    /// digits. `None` when the string spells no amount or the amount
    /// does not fit the minor-unit representation.
    pub fn from_decimal_str(s: &str) -> (r: Option<Money>)
        ensures
            match parse_decimal(s.spec_bytes()) {
                Some(v) => if 0 <= v <= u64::MAX {
                    r == Some(Money { cents: v as u64 })
                } else {
                    r is None
                },
                None => r is None,
            },
    {
        let bs = s.as_bytes();
        let n = bs.len();
        if n >= 3 && bs[n - 3] == 46 {
            let whole = match scan_digits(bs, 0, n - 3) {
                None => {
                    return None;
                },
                Some(v) => v,
            };
            if n - 3 == 0 {
                return None;
            }
            let frac = match scan_digits(bs, n - 2, n) {
                None => {
                    return None;
                },
                Some(v) => v,
            };
            proof {
                assert(bs@.subrange(0, n as int - 3) =~= s.spec_bytes().take(n as int - 3));
                assert(bs@.subrange(n as int - 2, n as int) =~= s.spec_bytes().skip(n as int - 2));
                lemma_digits_val_bounds(s.spec_bytes().skip(n as int - 2));
            }
            let cents = whole * 100 + frac;
            if cents > u64::MAX as u128 {
                return None;
            }
            proof {
                lemma_digits_val_bounds(s.spec_bytes().take(n as int - 3));
            }
            Some(Money { cents: cents as u64 })
        } else {
            let v = match scan_digits(bs, 0, n) {
                None => {
                    return None;
                },
                Some(v) => v,
            };
            if n == 0 {
                return None;
            }
            proof {
                assert(bs@.subrange(0, n as int) =~= s.spec_bytes());
                lemma_digits_val_bounds(s.spec_bytes());
            }
            let cents = v * 100;
            if cents > u64::MAX as u128 {
                return None;
            }
            Some(Money { cents: cents as u64 })
        }
    }

    /// Writes the amount in its canonical decimal-string form: the
    /// whole units, a point, and two fraction digits.
    pub fn to_decimal_string(&self) -> (r: String)
        ensures
            r@ == decimal_chars(self.cents as nat),
    {
        let mut r = String::new();
        push_digits(&mut r, self.cents / 100);
        let frac = self.cents % 100;
        push_char(&mut r, '.');
        let d1: u8 = 48 + (frac / 10) as u8;
        let d2: u8 = 48 + (frac % 10) as u8;
        push_char(&mut r, d1 as char);
        push_char(&mut r, d2 as char);
        proof {
            assert(r@ =~= decimal_chars(self.cents as nat));
        }
        r
    }
}

/// The value of a digit run is not negative.
proof fn lemma_digits_val_bounds(bs: Seq<u8>)
    requires
        all_digits(bs),
    ensures
        digits_val(bs) >= 0,
    decreases bs.len(),
{
    if bs.len() > 0 {
        assert(all_digits(bs.drop_last()));
        lemma_digits_val_bounds(bs.drop_last());
    }
}

} // verus!
