//! 20-byte chain account identifiers.
//!
//! An `Address` is constructed only from the chain's canonical textual
//! encoding: `0x` followed by exactly 40 hexadecimal digits, either
//! letter case.  The view is the 20-byte sequence the digits denote.

use vstd::prelude::*;
use vstd::arithmetic::div_mod::{lemma_fundamental_div_mod, lemma_mod_bound};
use crate::errors::ValidationError;

verus! {

/// Whether `c` is a hexadecimal digit, either case.
pub open spec fn is_hex_digit(c: char) -> bool {
    (48 <= c as u32 <= 57) || (97 <= c as u32 <= 102) || (65 <= c as u32 <= 70)
}

/// The numeric value of a hexadecimal digit character.
pub open spec fn hex_digit_val(c: char) -> nat {
    if 48 <= c as u32 <= 57 {
        (c as u32 - 48) as nat
    } else if 97 <= c as u32 <= 102 {
        (c as u32 - 87) as nat
    } else if 65 <= c as u32 <= 70 {
        (c as u32 - 55) as nat
    } else {
        0
    }
}

/// Whether `s` is the canonical textual encoding of an address:
/// `0x` followed by exactly 40 hex digits.
pub open spec fn valid_address_literal(s: Seq<char>) -> bool {
    &&& s.len() == 42
    &&& s[0] == '0'
    &&& s[1] == 'x'
    &&& forall|i: int| 2 <= i < 42 ==> is_hex_digit(#[trigger] s[i])
}

/// The 20 bytes a canonical address literal denotes.
pub open spec fn address_of(s: Seq<char>) -> Seq<u8> {
    Seq::new(20, |i: int| (hex_digit_val(s[2 + 2 * i]) * 16 + hex_digit_val(s[2 + 2 * i + 1])) as u8)
}

/// The all-zero address, used where the contract expects a placeholder.
pub open spec fn zero_address() -> Seq<u8> {
    Seq::new(20, |i: int| 0u8)
}

/// A 20-byte chain account identifier.
#[derive(Debug, PartialEq, Eq)]
pub struct Address {
    bytes: Vec<u8>,
}

impl Clone for Address {
    /// A clone has the same bytes.
    fn clone(&self) -> (r: Address)
        ensures
            r@ == self@,
    {
        proof {
            use_type_invariant(self);
        }
        Address { bytes: self.bytes.clone() }
    }
}

impl View for Address {
    type V = Seq<u8>;

    closed spec fn view(&self) -> Seq<u8> {
        self.bytes@
    }
}

impl Address {
    /// Every address holds exactly 20 bytes.
    #[verifier::type_invariant]
    spec fn wf(&self) -> bool {
        self.bytes@.len() == 20
    }
}

/// The numeric value of a hex digit character, or `None` when `c` is no
/// hex digit.
fn hex_val(c: char) -> (r: Option<u8>)
    ensures
        r is Some <==> is_hex_digit(c),
        r is Some ==> r->0 == hex_digit_val(c),
{
    let u = c as u32;
    if 48 <= u && u <= 57 {
        Some((u - 48) as u8)
    } else if 97 <= u && u <= 102 {
        Some((u - 87) as u8)
    } else if 65 <= u && u <= 70 {
        Some((u - 55) as u8)
    } else {
        None
    }
}

/// The one-character string of a hex digit, lowercase.
fn hex_digit_str(d: u8) -> (r: &'static str)
    requires
        d < 16,
    ensures
        r@.len() == 1,
        is_hex_digit(r@[0]),
        hex_digit_val(r@[0]) == d,
{
    if d == 0 {
        proof { reveal_strlit("0"); }
        "0"
    } else if d == 1 {
        proof { reveal_strlit("1"); }
        "1"
    } else if d == 2 {
        proof { reveal_strlit("2"); }
        "2"
    } else if d == 3 {
        proof { reveal_strlit("3"); }
        "3"
    } else if d == 4 {
        proof { reveal_strlit("4"); }
        "4"
    } else if d == 5 {
        proof { reveal_strlit("5"); }
        "5"
    } else if d == 6 {
        proof { reveal_strlit("6"); }
        "6"
    } else if d == 7 {
        proof { reveal_strlit("7"); }
        "7"
    } else if d == 8 {
        proof { reveal_strlit("8"); }
        "8"
    } else if d == 9 {
        proof { reveal_strlit("9"); }
        "9"
    } else if d == 10 {
        proof { reveal_strlit("a"); }
        "a"
    } else if d == 11 {
        proof { reveal_strlit("b"); }
        "b"
    } else if d == 12 {
        proof { reveal_strlit("c"); }
        "c"
    } else if d == 13 {
        proof { reveal_strlit("d"); }
        "d"
    } else if d == 14 {
        proof { reveal_strlit("e"); }
        "e"
    } else {
        proof { reveal_strlit("f"); }
        "f"
    }
}

impl Address {
    /// The all-zero address.
    pub fn zero() -> (r: Address)
        ensures
            r@ == zero_address(),
    {
        let mut bytes: Vec<u8> = Vec::new();
        let mut i: usize = 0;
        while i < 20
            invariant
                bytes@.len() == i,
                0 <= i <= 20,
                forall|k: int| 0 <= k < i ==> bytes@[k] == 0u8,
            decreases 20 - i,
        {
            bytes.push(0);
            i += 1;
        }
        proof {
            assert(bytes@ =~= zero_address());
        }
        Address { bytes }
    }

    /// Parses the canonical `0x`-prefixed 40-hex-digit form.  Any other
    /// shape — wrong length, missing prefix, a non-hex character — is
    /// `InvalidAddress`.
    pub fn parse(s: &str) -> (r: Result<Address, ValidationError>)
        ensures
            r is Ok <==> valid_address_literal(s@),
            r is Ok ==> r->Ok_0@ == address_of(s@),
            r is Err ==> r == Err::<Address, ValidationError>(ValidationError::InvalidAddress),
    {
        let len = s.unicode_len();
        if len != 42 {
            return Err(ValidationError::InvalidAddress);
        }
        if s.get_char(0) != '0' || s.get_char(1) != 'x' {
            return Err(ValidationError::InvalidAddress);
        }
        let mut bytes: Vec<u8> = Vec::new();
        let mut i: usize = 0;
        while i < 20
            invariant
                0 <= i <= 20,
                s@.len() == 42,
                s@[0] == '0',
                s@[1] == 'x',
                bytes@.len() == i,
                forall|k: int|
                    0 <= k < i ==> is_hex_digit(#[trigger] s@[2 + 2 * k]) && is_hex_digit(
                        s@[2 + 2 * k + 1],
                    ) && bytes@[k] == (hex_digit_val(s@[2 + 2 * k]) * 16 + hex_digit_val(
                        s@[2 + 2 * k + 1],
                    )) as u8,
            decreases 20 - i,
        {
            let hi = match hex_val(s.get_char(2 + 2 * i)) {
                Some(v) => v,
                None => {
                    return Err(ValidationError::InvalidAddress);
                },
            };
            let lo = match hex_val(s.get_char(3 + 2 * i)) {
                Some(v) => v,
                None => {
                    return Err(ValidationError::InvalidAddress);
                },
            };
            proof {
                assert(is_hex_digit(s@[2 + 2 * (i as int)]));
                assert(is_hex_digit(s@[2 + 2 * (i as int) + 1]));
                assert(hi == hex_digit_val(s@[2 + 2 * (i as int)]));
                assert(lo == hex_digit_val(s@[2 + 2 * (i as int) + 1]));
                assert(hi <= 15 && lo <= 15);
            }
            bytes.push(hi * 16 + lo);
            i += 1;
        }
        proof {
            assert forall|j: int| 2 <= j < 42 implies is_hex_digit(#[trigger] s@[j]) by {
                let k = (j - 2) / 2;
                lemma_fundamental_div_mod(j - 2, 2);
                vstd::arithmetic::div_mod::lemma_mod_bound(j - 2, 2);
                assert(j - 2 == 2 * k + (j - 2) % 2);
                assert(0 <= k < 20);
                assert(is_hex_digit(s@[2 + 2 * k]));
                assert(is_hex_digit(s@[2 + 2 * k + 1]));
                if (j - 2) % 2 == 0 {
                    assert(j == 2 + 2 * k);
                } else {
                    assert(j == 2 + 2 * k + 1);
                }
            }
            assert(bytes@ =~= address_of(s@));
        }
        Ok(Address { bytes })
    }

    /// The address as its 20 raw bytes.
    pub fn to_bytes(&self) -> (r: Vec<u8>)
        ensures
            r@ == self@,
    {
        self.bytes.clone()
    }

    /// Renders the address in its canonical textual encoding, with
    /// lowercase hex digits.  Parsing the result gives the address's
    /// bytes back.
    pub fn to_hex_string(&self) -> (r: String)
        ensures
            valid_address_literal(r@),
            address_of(r@) == self@,
    {
        proof {
            use_type_invariant(self);
        }
        let mut s = String::new();
        proof {
            reveal_strlit("0x");
        }
        s.append("0x");
        let mut i: usize = 0;
        while i < 20
            invariant
                0 <= i <= 20,
                self.bytes@.len() == 20,
                s@.len() == 2 + 2 * i,
                s@[0] == '0',
                s@[1] == 'x',
                forall|k: int|
                    0 <= k < i ==> is_hex_digit(#[trigger] s@[2 + 2 * k]) && is_hex_digit(
                        s@[2 + 2 * k + 1],
                    ) && hex_digit_val(s@[2 + 2 * k]) * 16 + hex_digit_val(s@[2 + 2 * k + 1])
                        == self.bytes@[k],
            decreases 20 - i,
        {
            let b = self.bytes[i];
            let ghost before = s@;
            s.append(hex_digit_str(b / 16));
            s.append(hex_digit_str(b % 16));
            proof {
                lemma_fundamental_div_mod(b as int, 16);
                lemma_mod_bound(b as int, 16);
                assert(s@.len() == before.len() + 2);
                assert(s@[2 + 2 * (i as int)] == s@[before.len() as int]);
                assert(hex_digit_val(s@[2 + 2 * (i as int)]) == b / 16);
                assert(hex_digit_val(s@[2 + 2 * (i as int) + 1]) == b % 16);
                assert(forall|k: int| 0 <= k < before.len() ==> s@[k] == before[k]);
            }
            i += 1;
        }
        proof {
            assert forall|j: int| 2 <= j < 42 implies is_hex_digit(#[trigger] s@[j]) by {
                let k = (j - 2) / 2;
                lemma_fundamental_div_mod(j - 2, 2);
                vstd::arithmetic::div_mod::lemma_mod_bound(j - 2, 2);
                assert(j - 2 == 2 * k + (j - 2) % 2);
                assert(0 <= k < 20);
                assert(is_hex_digit(s@[2 + 2 * k]));
                assert(is_hex_digit(s@[2 + 2 * k + 1]));
                if (j - 2) % 2 == 0 {
                    assert(j == 2 + 2 * k);
                } else {
                    assert(j == 2 + 2 * k + 1);
                }
            }
            assert(address_of(s@) =~= self@);
        }
        s
    }
}

} // verus!
