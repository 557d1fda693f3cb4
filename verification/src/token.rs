//! Token kinds: the chain's native currency or a fungible (ERC20-style)
//! token.
//!
//! The kind decides whether a token address is required and whether the
//! call carries attached native value.  The textual vocabulary is
//! "eth" and "erc20", matched case-insensitively; anything else is an
//! error, never a silent default.  The wire codes 0 (native) and
//! 1 (fungible) match the contract's ABI encoding and must not change.

use vstd::prelude::*;
use crate::errors::ValidationError;

verus! {

/// Whether `c` equals the lowercase ASCII letter `l`, ignoring case.
pub open spec fn matches_lower(c: char, l: char) -> bool {
    c == l || (97 <= l as u32 <= 122 && c as u32 + 32 == l as u32)
}

/// Whether `s` spells "eth", case-insensitively.
pub open spec fn spells_eth(s: Seq<char>) -> bool {
    &&& s.len() == 3
    &&& matches_lower(s[0], 'e')
    &&& matches_lower(s[1], 't')
    &&& matches_lower(s[2], 'h')
}

/// Whether `s` spells "erc20", case-insensitively.
pub open spec fn spells_erc20(s: Seq<char>) -> bool {
    &&& s.len() == 5
    &&& matches_lower(s[0], 'e')
    &&& matches_lower(s[1], 'r')
    &&& matches_lower(s[2], 'c')
    &&& s[3] == '2'
    &&& s[4] == '0'
}

/// The kind of value an operation moves.
#[derive(Clone, Copy, Debug, PartialEq, Eq, Structural)]
pub enum TokenKind {
    /// The chain's native currency; moved by attaching value to the call.
    Native,
    /// A fungible token behind its own contract address; moved by
    /// pull/allowance semantics, never by attached value.
    Fungible,
}

/// The stable wire code of a kind: 0 for native, 1 for fungible,
/// exactly as the contract ABI encodes it.
pub open spec fn kind_code(k: TokenKind) -> u8 {
    match k {
        TokenKind::Native => 0,
        TokenKind::Fungible => 1,
    }
}

/// Whether `c` equals the lowercase letter `l` up to ASCII case.
fn char_matches_lower(c: char, l: char) -> (r: bool)
    requires
        97 <= l as u32 <= 122,
    ensures
        r == matches_lower(c, l),
{
    c == l || (c as u32) + 32 == (l as u32)
}

impl TokenKind {
    /// Parses the token-kind vocabulary, case-insensitively: "eth" is
    /// native, "erc20" is fungible, anything else is `UnknownTokenKind`.
    pub fn parse(s: &str) -> (r: Result<TokenKind, ValidationError>)
        ensures
            r == Ok::<TokenKind, ValidationError>(TokenKind::Native) <==> spells_eth(s@),
            r == Ok::<TokenKind, ValidationError>(TokenKind::Fungible) <==> spells_erc20(s@),
            r is Err <==> !spells_eth(s@) && !spells_erc20(s@),
            r is Err ==> r == Err::<TokenKind, ValidationError>(ValidationError::UnknownTokenKind),
    {
        let len = s.unicode_len();
        if len == 3 {
            if char_matches_lower(s.get_char(0), 'e') && char_matches_lower(s.get_char(1), 't')
                && char_matches_lower(s.get_char(2), 'h') {
                return Ok(TokenKind::Native);
            }
        } else if len == 5 {
            if char_matches_lower(s.get_char(0), 'e') && char_matches_lower(s.get_char(1), 'r')
                && char_matches_lower(s.get_char(2), 'c') && s.get_char(3) == '2' && s.get_char(4)
                == '0' {
                return Ok(TokenKind::Fungible);
            }
        }
        Err(ValidationError::UnknownTokenKind)
    }

    /// The stable wire code: native is 0, fungible is 1.
    pub fn code(&self) -> (r: u8)
        ensures
            r == kind_code(*self),
    {
        match self {
            TokenKind::Native => 0,
            TokenKind::Fungible => 1,
        }
    }
}

} // verus!
