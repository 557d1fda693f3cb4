//! 256-bit non-negative token amounts ("wei"-scale units).
//!
//! An `Amount` is an arbitrary-precision integer bounded by the chain
//! word size, held as four 64-bit limbs, least significant first.  Its
//! mathematical value is the view.  Parsing accepts exactly the base-10
//! digit strings whose value fits in 256 bits; addition reports overflow
//! instead of wrapping.

use vstd::prelude::*;
use vstd::arithmetic::div_mod::{
    lemma_fundamental_div_mod,
    lemma_fundamental_div_mod_converse,
    lemma_mod_bound,
};
use crate::errors::ValidationError;

verus! {

/// The limb radix, 2^64, as a `u128` for limb arithmetic.
pub const RADIX: u128 = 0x1_0000_0000_0000_0000;

/// One past the largest representable amount: 2^256, the chain word size.
pub open spec fn amount_limit() -> nat {
    0x1_00000000_00000000_00000000_00000000_00000000_00000000_00000000_00000000nat
}

/// Whether `c` is a decimal digit.
pub open spec fn is_dec_digit(c: char) -> bool {
    48 <= c as u32 <= 57
}

/// The numeric value of a decimal digit character.
pub open spec fn dec_digit_val(c: char) -> nat {
    (c as u32 - 48) as nat
}

/// Whether `s` is a well-formed decimal numeral: non-empty and all digits.
/// Whitespace, signs and any other character make it ill-formed.
pub open spec fn dec_digits(s: Seq<char>) -> bool {
    s.len() > 0 && forall|i: int| 0 <= i < s.len() ==> is_dec_digit(#[trigger] s[i])
}

/// The number a decimal digit string denotes.
pub open spec fn dec_value(s: Seq<char>) -> nat
    decreases s.len(),
{
    if s.len() == 0 {
        0
    } else {
        dec_value(s.drop_last()) * 10 + dec_digit_val(s.last())
    }
}

/// Whether `s` denotes an amount: a decimal numeral whose value fits in 256 bits.
pub open spec fn amount_ok(s: Seq<char>) -> bool {
    dec_digits(s) && dec_value(s) < amount_limit()
}

/// A 256-bit non-negative integer; `limb0` is least significant.
#[derive(Clone, Copy, Debug, PartialEq, Eq, Structural)]
pub struct Amount {
    pub limb0: u64,
    pub limb1: u64,
    pub limb2: u64,
    pub limb3: u64,
}

impl View for Amount {
    type V = nat;

    open spec fn view(&self) -> nat {
        (self.limb0
            + self.limb1 * 0x1_0000_0000_0000_0000nat
            + self.limb2 * 0x1_00000000_00000000_00000000_00000000nat
            + self.limb3 * 0x1_00000000_00000000_00000000_00000000_00000000_00000000nat) as nat
    }
}

impl Amount {
    /// Every amount is below the chain word size.
    pub proof fn lemma_below_limit(&self)
        ensures
            self@ < amount_limit(),
    {
    }

    /// The zero amount.
    pub fn zero() -> (r: Amount)
        ensures
            r@ == 0,
    {
        Amount { limb0: 0, limb1: 0, limb2: 0, limb3: 0 }
    }

    /// `self * 10 + d`, or `None` when the result does not fit in 256 bits.
    fn mul10_add(&self, d: u64) -> (r: Option<Amount>)
        requires
            d < 10,
        ensures
            match r {
                Some(a) => a@ == self@ * 10 + d,
                None => self@ * 10 + d >= amount_limit(),
            },
    {
        let p0: u128 = self.limb0 as u128 * 10 + d as u128;
        let n0: u64 = (p0 % RADIX) as u64;
        let c1: u64 = (p0 / RADIX) as u64;
        let p1: u128 = self.limb1 as u128 * 10 + c1 as u128;
        let n1: u64 = (p1 % RADIX) as u64;
        let c2: u64 = (p1 / RADIX) as u64;
        let p2: u128 = self.limb2 as u128 * 10 + c2 as u128;
        let n2: u64 = (p2 % RADIX) as u64;
        let c3: u64 = (p2 / RADIX) as u64;
        let p3: u128 = self.limb3 as u128 * 10 + c3 as u128;
        let n3: u64 = (p3 % RADIX) as u64;
        let c4: u64 = (p3 / RADIX) as u64;
        proof {
            lemma_fundamental_div_mod(p0 as int, RADIX as int);
            lemma_fundamental_div_mod(p1 as int, RADIX as int);
            lemma_fundamental_div_mod(p2 as int, RADIX as int);
            lemma_fundamental_div_mod(p3 as int, RADIX as int);
        }
        if c4 != 0 {
            None
        } else {
            Some(Amount { limb0: n0, limb1: n1, limb2: n2, limb3: n3 })
        }
    }

    /// `self + other`, or `None` when the sum does not fit in 256 bits.
    /// Never wraps silently.
    pub fn checked_add(&self, other: &Amount) -> (r: Option<Amount>)
        ensures
            match r {
                Some(a) => a@ == self@ + other@,
                None => self@ + other@ >= amount_limit(),
            },
    {
        let p0: u128 = self.limb0 as u128 + other.limb0 as u128;
        let n0: u64 = (p0 % RADIX) as u64;
        let c1: u64 = (p0 / RADIX) as u64;
        let p1: u128 = self.limb1 as u128 + other.limb1 as u128 + c1 as u128;
        let n1: u64 = (p1 % RADIX) as u64;
        let c2: u64 = (p1 / RADIX) as u64;
        let p2: u128 = self.limb2 as u128 + other.limb2 as u128 + c2 as u128;
        let n2: u64 = (p2 % RADIX) as u64;
        let c3: u64 = (p2 / RADIX) as u64;
        let p3: u128 = self.limb3 as u128 + other.limb3 as u128 + c3 as u128;
        let n3: u64 = (p3 % RADIX) as u64;
        let c4: u64 = (p3 / RADIX) as u64;
        proof {
            lemma_fundamental_div_mod(p0 as int, RADIX as int);
            lemma_fundamental_div_mod(p1 as int, RADIX as int);
            lemma_fundamental_div_mod(p2 as int, RADIX as int);
            lemma_fundamental_div_mod(p3 as int, RADIX as int);
        }
        if c4 != 0 {
            None
        } else {
            Some(Amount { limb0: n0, limb1: n1, limb2: n2, limb3: n3 })
        }
    }

    /// Whether this is the zero amount.
    pub fn is_zero(&self) -> (r: bool)
        ensures
            r == (self@ == 0),
    {
        self.limb0 == 0 && self.limb1 == 0 && self.limb2 == 0 && self.limb3 == 0
    }

    /// The quotient and remainder of division by 10.
    pub fn divmod10(&self) -> (r: (Amount, u64))
        ensures
            r.0@ == self@ / 10,
            r.1 == self@ % 10,
            self@ == r.0@ * 10 + r.1,
            r.1 < 10,
    {
        let q3: u64 = self.limb3 / 10;
        let r3: u64 = self.limb3 % 10;
        proof {
            lemma_fundamental_div_mod(self.limb3 as int, 10);
            lemma_mod_bound(self.limb3 as int, 10);
        }
        let t2: u128 = r3 as u128 * RADIX + self.limb2 as u128;
        let q2: u64 = (t2 / 10) as u64;
        let r2: u64 = (t2 % 10) as u64;
        proof {
            lemma_fundamental_div_mod(t2 as int, 10);
            lemma_mod_bound(t2 as int, 10);
        }
        let t1: u128 = r2 as u128 * RADIX + self.limb1 as u128;
        let q1: u64 = (t1 / 10) as u64;
        let r1: u64 = (t1 % 10) as u64;
        proof {
            lemma_fundamental_div_mod(t1 as int, 10);
            lemma_mod_bound(t1 as int, 10);
        }
        let t0: u128 = r1 as u128 * RADIX + self.limb0 as u128;
        let q0: u64 = (t0 / 10) as u64;
        let r0: u64 = (t0 % 10) as u64;
        proof {
            lemma_fundamental_div_mod(t0 as int, 10);
            lemma_mod_bound(t0 as int, 10);
        }
        let q = Amount { limb0: q0, limb1: q1, limb2: q2, limb3: q3 };
        proof {
            assert(self@ == q@ * 10 + r0);
            lemma_fundamental_div_mod_converse(self@ as int, 10, q@ as int, r0 as int);
        }
        (q, r0)
    }

    /// Parses a base-10 decimal string into an amount.
    ///
    /// Returns `InvalidAmount` for an empty string or any non-digit
    /// character (including whitespace and signs), and `AmountOverflow`
    /// for a numeral whose value is at least 2^256.
    pub fn parse(s: &str) -> (r: Result<Amount, ValidationError>)
        ensures
            r is Ok <==> amount_ok(s@),
            r is Ok ==> r->Ok_0@ == dec_value(s@),
            r == Err::<Amount, ValidationError>(ValidationError::InvalidAmount) <==> !dec_digits(
                s@,
            ),
            r == Err::<Amount, ValidationError>(ValidationError::AmountOverflow) <==> dec_digits(
                s@,
            ) && dec_value(s@) >= amount_limit(),
    {
        let len = s.unicode_len();
        if len == 0 {
            return Err(ValidationError::InvalidAmount);
        }
        let mut i: usize = 0;
        while i < len
            invariant
                0 <= i <= len,
                len == s@.len(),
                forall|k: int| 0 <= k < i ==> is_dec_digit(#[trigger] s@[k]),
            decreases len - i,
        {
            let c = s.get_char(i);
            let u = c as u32;
            if u < 48 || u > 57 {
                return Err(ValidationError::InvalidAmount);
            }
            i += 1;
        }
        let mut acc = Amount::zero();
        let mut j: usize = 0;
        proof {
            assert(s@.take(0) =~= Seq::<char>::empty());
        }
        while j < len
            invariant
                0 <= j <= len,
                len == s@.len(),
                dec_digits(s@),
                acc@ == dec_value(s@.take(j as int)),
            decreases len - j,
        {
            let c = s.get_char(j);
            let u = c as u32;
            let d: u64 = (u - 48) as u64;
            proof {
                assert(s@.take(j + 1).drop_last() =~= s@.take(j as int));
                assert(s@.take(j + 1).last() == s@[j as int]);
            }
            match acc.mul10_add(d) {
                Some(a) => {
                    acc = a;
                },
                None => {
                    proof {
                        lemma_dec_value_prefix_le(s@, j + 1);
                    }
                    return Err(ValidationError::AmountOverflow);
                },
            }
            j += 1;
        }
        proof {
            assert(s@.take(len as int) =~= s@);
        }
        Ok(acc)
    }
}

/// 10 to the power `n`.
spec fn pow10(n: nat) -> nat
    decreases n,
{
    if n == 0 {
        1
    } else {
        10 * pow10((n - 1) as nat)
    }
}

/// The number denoted by digits listed least significant first.
spec fn digits_value(ds: Seq<u64>) -> nat
    decreases ds.len(),
{
    if ds.len() == 0 {
        0
    } else {
        (digits_value(ds.drop_last()) + ds.last() * pow10((ds.len() - 1) as nat)) as nat
    }
}

/// The one-character string of a decimal digit.
fn digit_str(d: u64) -> (r: &'static str)
    requires
        d < 10,
    ensures
        r@.len() == 1,
        is_dec_digit(r@[0]),
        dec_digit_val(r@[0]) == d,
{
    if d == 0 {
        proof {
            reveal_strlit("0");
        }
        "0"
    } else if d == 1 {
        proof {
            reveal_strlit("1");
        }
        "1"
    } else if d == 2 {
        proof {
            reveal_strlit("2");
        }
        "2"
    } else if d == 3 {
        proof {
            reveal_strlit("3");
        }
        "3"
    } else if d == 4 {
        proof {
            reveal_strlit("4");
        }
        "4"
    } else if d == 5 {
        proof {
            reveal_strlit("5");
        }
        "5"
    } else if d == 6 {
        proof {
            reveal_strlit("6");
        }
        "6"
    } else if d == 7 {
        proof {
            reveal_strlit("7");
        }
        "7"
    } else if d == 8 {
        proof {
            reveal_strlit("8");
        }
        "8"
    } else {
        proof {
            reveal_strlit("9");
        }
        "9"
    }
}

impl Amount {
    /// Renders the amount as its canonical base-10 numeral: no sign, no
    /// leading zero except for "0" itself.  Together with `parse`'s
    /// contract and `lemma_view_determines_amount`, rendering an amount
    /// and parsing the result gives the amount back.
    pub fn to_decimal_string(&self) -> (r: String)
        ensures
            amount_ok(r@),
            dec_value(r@) == self@,
            r@.len() == 1 || r@[0] != '0',
    {
        proof {
            self.lemma_below_limit();
        }
        let mut v: Amount = *self;
        let mut digs: Vec<u64> = Vec::new();
        proof {
            assert(pow10(0) == 1);
            assert(digits_value(digs@) == 0);
            assert(v@ * pow10(0) == v@) by (nonlinear_arith)
                requires pow10(0) == 1;
        }
        while !v.is_zero()
            invariant
                self@ == v@ * pow10(digs@.len()) + digits_value(digs@),
                forall|k: int| 0 <= k < digs@.len() ==> #[trigger] digs@[k] < 10,
                v@ == 0 && digs@.len() > 0 ==> digs@.last() != 0,
            decreases v@,
        {
            let (q, d) = v.divmod10();
            proof {
                let n = digs@.len();
                assert(digs@.push(d).drop_last() =~= digs@);
                assert(digits_value(digs@.push(d)) == digits_value(digs@) + d * pow10(n));
                assert(pow10(n + 1) == 10 * pow10(n));
                assert((q@ * 10 + d) * pow10(n) == q@ * (10 * pow10(n)) + d * pow10(n))
                    by (nonlinear_arith);
            }
            digs.push(d);
            v = q;
        }
        if digs.len() == 0 {
            proof {
                assert(self@ == v@ * pow10(0) + digits_value(digs@));
                assert(v@ * pow10(0) == v@) by (nonlinear_arith)
                    requires pow10(0) == 1;
                assert(self@ == 0);
                reveal_strlit("0");
                assert(("0")@.drop_last() =~= Seq::<char>::empty());
                assert(dec_value(Seq::<char>::empty()) == 0);
                assert(dec_value(("0")@) == 0);
                assert(dec_digits(("0")@));
            }
            return String::from_str("0");
        }
        let mut s = String::new();
        let mut i: usize = digs.len();
        proof {
            assert(digs@.take(digs@.len() as int) =~= digs@);
        }
        while i > 0
            invariant
                0 <= i <= digs@.len(),
                0 < digs@.len(),
                s@.len() == digs@.len() - i,
                forall|k: int| 0 <= k < digs@.len() ==> #[trigger] digs@[k] < 10,
                digs@.last() != 0,
                forall|k: int| 0 <= k < s@.len() ==> is_dec_digit(#[trigger] s@[k]),
                dec_value(s@) * pow10(i as nat) + digits_value(digs@.take(i as int)) == digits_value(
                    digs@,
                ),
                s@.len() > 0 ==> s@[0] != '0',
            decreases i,
        {
            i -= 1;
            let ghost old_s = s@;
            let c = digit_str(digs[i]);
            s.append(c);
            proof {
                let d = digs@[i as int];
                assert(s@ == old_s + c@);
                assert(s@.drop_last() =~= old_s);
                assert(s@.last() == c@[0]);
                assert(dec_value(s@) == dec_value(old_s) * 10 + d);
                assert(digs@.take(i + 1).drop_last() =~= digs@.take(i as int));
                assert(digs@.take(i + 1).last() == d);
                assert(digits_value(digs@.take(i + 1)) == digits_value(digs@.take(i as int)) + d
                    * pow10(i as nat));
                assert(pow10(i as nat + 1) == 10 * pow10(i as nat));
                assert((dec_value(old_s) * 10 + d) * pow10(i as nat) == dec_value(old_s) * (10
                    * pow10(i as nat)) + d * pow10(i as nat)) by (nonlinear_arith);
                if old_s.len() == 0 {
                    assert(i + 1 == digs@.len());
                    assert(d == digs@.last());
                    assert(s@[0] == c@[0]);
                    assert(dec_digit_val(s@[0]) != 0);
                    assert(s@[0] != '0');
                } else {
                    assert(s@[0] == old_s[0]);
                }
            }
        }
        proof {
            assert(digs@.take(0) =~= Seq::<u64>::empty());
            assert(digits_value(Seq::<u64>::empty()) == 0);
            assert(pow10(0) == 1);
            assert(dec_value(s@) * pow10(0) == dec_value(s@)) by (nonlinear_arith)
                requires pow10(0) == 1;
            assert(dec_value(s@) == digits_value(digs@));
        }
        s
    }
}

/// An amount is determined by its value: the limb representation of a
/// 256-bit number is unique.  With the contracts of `parse` and
/// `to_decimal_string` this closes the round trip: parsing a rendered
/// amount yields an amount with the same value, hence the same amount.
pub proof fn lemma_view_determines_amount(a: Amount, b: Amount)
    requires
        a@ == b@,
    ensures
        a == b,
{
    let radix = 0x1_0000_0000_0000_0000int;
    let qa1 = a.limb1 + a.limb2 * radix + a.limb3 * radix * radix;
    let qb1 = b.limb1 + b.limb2 * radix + b.limb3 * radix * radix;
    lemma_fundamental_div_mod_converse(a@ as int, radix, qa1, a.limb0 as int);
    lemma_fundamental_div_mod_converse(b@ as int, radix, qb1, b.limb0 as int);
    assert(a.limb0 == b.limb0 && qa1 == qb1);
    let qa2 = a.limb2 + a.limb3 * radix;
    let qb2 = b.limb2 + b.limb3 * radix;
    lemma_fundamental_div_mod_converse(qa1, radix, qa2, a.limb1 as int);
    lemma_fundamental_div_mod_converse(qb1, radix, qb2, b.limb1 as int);
    assert(a.limb1 == b.limb1 && qa2 == qb2);
    lemma_fundamental_div_mod_converse(qa2, radix, a.limb3 as int, a.limb2 as int);
    lemma_fundamental_div_mod_converse(qb2, radix, b.limb3 as int, b.limb2 as int);
    assert(a.limb2 == b.limb2 && a.limb3 == b.limb3);
}

/// The value of a numeral is at least the value of each of its prefixes.
proof fn lemma_dec_value_prefix_le(s: Seq<char>, i: int)
    requires
        0 <= i <= s.len(),
    ensures
        dec_value(s.take(i)) <= dec_value(s),
    decreases s.len() - i,
{
    if i == s.len() {
        assert(s.take(i) =~= s);
    } else {
        assert(s.take(i + 1).drop_last() =~= s.take(i));
        assert(dec_value(s.take(i + 1)) == dec_value(s.take(i)) * 10 + dec_digit_val(
            s.take(i + 1).last(),
        ));
        lemma_dec_value_prefix_le(s, i + 1);
    }
}

} // verus!
