//! Request validators: one per operation.
//!
//! Each validator consumes an already-deserialized payload of plain
//! values and produces either a fully-typed, contract-ready
//! `CallDescriptor` or a structured `ValidationError`.  Every
//! per-element conversion is checked; no input makes a validator panic.
//!
//! The abstract result of each validator is given by a spec function
//! (`disperse_native_spec` and friends); the validator's contract says
//! its result agrees with it exactly, error by error.

use vstd::prelude::*;
use crate::address::{Address, address_of, valid_address_literal};
use crate::amount::{Amount, amount_limit, dec_digits, dec_value};
use crate::errors::ValidationError;
use crate::token::{TokenKind, spells_erc20, spells_eth};

verus! {

/// Raw payload of the two disperse operations.
#[derive(Clone, Debug)]
pub struct DispersePayload {
    /// Address strings of the recipients.
    pub recipients: Vec<String>,
    /// Decimal amount strings, one per recipient.
    pub values: Vec<String>,
    /// Whether the values are percentages of a total rather than
    /// absolute per-recipient amounts.
    pub is_percentages: bool,
    /// Token contract address; required for the token variant only.
    pub token_address: Option<String>,
}

/// Raw payload of the commit operation.
#[derive(Clone, Debug)]
pub struct CommitPayload {
    /// "eth" or "erc20", case-insensitive.
    pub token_type: String,
    /// Token contract address; required iff the kind is fungible.
    pub token_address: Option<String>,
    /// Decimal amount string.
    pub amount: String,
}

/// Raw payload of the collect operation.
#[derive(Clone, Debug)]
pub struct CollectPayload {
    /// "eth" or "erc20", case-insensitive.
    pub token_type: String,
    /// Token contract address; the contract's signature requires it for
    /// every kind, the native one included.
    pub token_address: Option<String>,
    /// Address strings of the payers.
    pub payers: Vec<String>,
}

/// The validated, method-agnostic output of a validator; produced once,
/// consumed once by the dispatcher.
#[derive(Clone, Debug, PartialEq)]
pub enum CallDescriptor {
    /// Batch-disperse of native currency.
    DisperseNative { recipients: Vec<Address>, values: Vec<Amount>, is_percentage: bool },
    /// Batch-disperse of a fungible token.
    DisperseToken {
        token: Address,
        recipients: Vec<Address>,
        values: Vec<Amount>,
        is_percentage: bool,
    },
    /// Escrow commit; `token` is absent exactly for the native kind.
    Commit { kind: TokenKind, token: Option<Address>, amount: Amount },
    /// Escrow collect.
    Collect { kind: TokenKind, token: Address, payers: Vec<Address> },
}

/// The byte sequences of a list of addresses.
pub open spec fn views_of_addrs(vs: Seq<Address>) -> Seq<Seq<u8>> {
    Seq::new(vs.len(), |i: int| vs[i]@)
}

/// The numeric values of a list of amounts.
pub open spec fn views_of_amounts(vs: Seq<Amount>) -> Seq<nat> {
    Seq::new(vs.len(), |i: int| vs[i]@)
}

/// Parses a list of address strings; the first ill-formed element makes
/// the whole list `InvalidAddress`.
pub open spec fn parse_addresses_spec(ss: Seq<Seq<char>>) -> Result<Seq<Seq<u8>>, ValidationError>
    decreases ss.len(),
{
    if ss.len() == 0 {
        Ok(Seq::empty())
    } else {
        match parse_addresses_spec(ss.drop_last()) {
            Err(e) => Err(e),
            Ok(addrs) => if valid_address_literal(ss.last()) {
                Ok(addrs.push(address_of(ss.last())))
            } else {
                Err(ValidationError::InvalidAddress)
            },
        }
    }
}

/// Parses a list of amount strings; the first failing element decides
/// between `InvalidAmount` and `AmountOverflow`.
pub open spec fn parse_amounts_spec(ss: Seq<Seq<char>>) -> Result<Seq<nat>, ValidationError>
    decreases ss.len(),
{
    if ss.len() == 0 {
        Ok(Seq::empty())
    } else {
        match parse_amounts_spec(ss.drop_last()) {
            Err(e) => Err(e),
            Ok(vals) => if !dec_digits(ss.last()) {
                Err(ValidationError::InvalidAmount)
            } else if dec_value(ss.last()) >= amount_limit() {
                Err(ValidationError::AmountOverflow)
            } else {
                Ok(vals.push(dec_value(ss.last())))
            },
        }
    }
}

/// Once a prefix of the list fails to parse, the whole list fails the
/// same way.
proof fn lemma_parse_addresses_prefix_err(ss: Seq<Seq<char>>, i: int)
    requires
        0 <= i <= ss.len(),
        parse_addresses_spec(ss.take(i)) is Err,
    ensures
        parse_addresses_spec(ss) == parse_addresses_spec(ss.take(i)),
    decreases ss.len() - i,
{
    if i == ss.len() {
        assert(ss.take(i) =~= ss);
    } else {
        assert(ss.take(i + 1).drop_last() =~= ss.take(i));
        assert(ss.take(i + 1).len() != 0);
        lemma_parse_addresses_prefix_err(ss, i + 1);
    }
}

/// Once a prefix of the list fails to parse, the whole list fails the
/// same way.
proof fn lemma_parse_amounts_prefix_err(ss: Seq<Seq<char>>, i: int)
    requires
        0 <= i <= ss.len(),
        parse_amounts_spec(ss.take(i)) is Err,
    ensures
        parse_amounts_spec(ss) == parse_amounts_spec(ss.take(i)),
    decreases ss.len() - i,
{
    if i == ss.len() {
        assert(ss.take(i) =~= ss);
    } else {
        assert(ss.take(i + 1).drop_last() =~= ss.take(i));
        assert(ss.take(i + 1).len() != 0);
        lemma_parse_amounts_prefix_err(ss, i + 1);
    }
}

/// Parses every address string of `ss`, left to right, stopping at the
/// first ill-formed one.
fn parse_address_list(ss: &Vec<String>) -> (r: Result<Vec<Address>, ValidationError>)
    ensures
        match r {
            Ok(addrs) => parse_addresses_spec(ss.deep_view()) == Ok::<
                Seq<Seq<u8>>,
                ValidationError,
            >(views_of_addrs(addrs@)) && addrs@.len() == ss@.len(),
            Err(e) => parse_addresses_spec(ss.deep_view()) == Err::<Seq<Seq<u8>>, ValidationError>(
                e,
            ),
        },
{
    let ghost dv = ss.deep_view();
    let mut addrs: Vec<Address> = Vec::new();
    let mut i: usize = 0;
    proof {
        assert(dv.take(0) =~= Seq::<Seq<char>>::empty());
        assert(views_of_addrs(addrs@) =~= Seq::<Seq<u8>>::empty());
    }
    while i < ss.len()
        invariant
            0 <= i <= ss@.len(),
            dv == ss.deep_view(),
            addrs@.len() == i,
            parse_addresses_spec(dv.take(i as int)) == Ok::<Seq<Seq<u8>>, ValidationError>(
                views_of_addrs(addrs@),
            ),
        decreases ss@.len() - i,
    {
        proof {
            assert(dv.take(i + 1).drop_last() =~= dv.take(i as int));
            assert(dv.take(i + 1).last() == dv[i as int]);
            assert(dv[i as int] == ss@[i as int]@);
        }
        match Address::parse(ss[i].as_str()) {
            Ok(a) => {
                proof {
                    assert(views_of_addrs(addrs@.push(a)) =~= views_of_addrs(addrs@).push(a@));
                }
                addrs.push(a);
            },
            Err(e) => {
                proof {
                    lemma_parse_addresses_prefix_err(dv, i + 1);
                }
                return Err(e);
            },
        }
        i += 1;
    }
    proof {
        assert(dv.take(ss@.len() as int) =~= dv);
    }
    Ok(addrs)
}

/// Parses every amount string of `ss`, left to right, stopping at the
/// first failing one.
fn parse_amount_list(ss: &Vec<String>) -> (r: Result<Vec<Amount>, ValidationError>)
    ensures
        match r {
            Ok(vals) => parse_amounts_spec(ss.deep_view()) == Ok::<Seq<nat>, ValidationError>(
                views_of_amounts(vals@),
            ) && vals@.len() == ss@.len(),
            Err(e) => parse_amounts_spec(ss.deep_view()) == Err::<Seq<nat>, ValidationError>(e),
        },
{
    let ghost dv = ss.deep_view();
    let mut vals: Vec<Amount> = Vec::new();
    let mut i: usize = 0;
    proof {
        assert(dv.take(0) =~= Seq::<Seq<char>>::empty());
        assert(views_of_amounts(vals@) =~= Seq::<nat>::empty());
    }
    while i < ss.len()
        invariant
            0 <= i <= ss@.len(),
            dv == ss.deep_view(),
            vals@.len() == i,
            parse_amounts_spec(dv.take(i as int)) == Ok::<Seq<nat>, ValidationError>(
                views_of_amounts(vals@),
            ),
        decreases ss@.len() - i,
    {
        proof {
            assert(dv.take(i + 1).drop_last() =~= dv.take(i as int));
            assert(dv.take(i + 1).last() == dv[i as int]);
            assert(dv[i as int] == ss@[i as int]@);
        }
        match Amount::parse(ss[i].as_str()) {
            Ok(a) => {
                proof {
                    assert(views_of_amounts(vals@.push(a)) =~= views_of_amounts(vals@).push(a@));
                }
                vals.push(a);
            },
            Err(e) => {
                proof {
                    lemma_parse_amounts_prefix_err(dv, i + 1);
                }
                return Err(e);
            },
        }
        i += 1;
    }
    proof {
        assert(dv.take(ss@.len() as int) =~= dv);
    }
    Ok(vals)
}

/// Abstract result of native-disperse validation: the recipients' bytes
/// and the values, or the first error, checked in this order: length
/// mismatch, empty list, recipients, values.
pub open spec fn disperse_native_spec(rs: Seq<Seq<char>>, vs: Seq<Seq<char>>) -> Result<
    (Seq<Seq<u8>>, Seq<nat>),
    ValidationError,
> {
    if rs.len() != vs.len() {
        Err(ValidationError::LengthMismatch)
    } else if rs.len() == 0 {
        Err(ValidationError::EmptyRecipientList)
    } else {
        match parse_addresses_spec(rs) {
            Err(e) => Err(e),
            Ok(addrs) => match parse_amounts_spec(vs) {
                Err(e) => Err(e),
                Ok(vals) => Ok((addrs, vals)),
            },
        }
    }
}

/// Validates a native-disperse request.  `token_address` is not
/// required and is ignored.
pub fn validate_disperse_native(p: &DispersePayload) -> (r: Result<
    CallDescriptor,
    ValidationError,
>)
    ensures
        ({
            let spec_r = disperse_native_spec(p.recipients.deep_view(), p.values.deep_view());
            match r {
                Ok(d) => spec_r is Ok && (d matches CallDescriptor::DisperseNative {
                    recipients,
                    values,
                    is_percentage,
                } && views_of_addrs(recipients@) == spec_r->Ok_0.0 && views_of_amounts(values@)
                    == spec_r->Ok_0.1 && is_percentage == p.is_percentages),
                Err(e) => spec_r == Err::<(Seq<Seq<u8>>, Seq<nat>), ValidationError>(e),
            }
        }),
        p.recipients@.len() != p.values@.len() ==> r == Err::<CallDescriptor, ValidationError>(
            ValidationError::LengthMismatch,
        ),
{
    if p.recipients.len() != p.values.len() {
        return Err(ValidationError::LengthMismatch);
    }
    if p.recipients.len() == 0 {
        return Err(ValidationError::EmptyRecipientList);
    }
    let recipients = match parse_address_list(&p.recipients) {
        Ok(a) => a,
        Err(e) => {
            return Err(e);
        },
    };
    let values = match parse_amount_list(&p.values) {
        Ok(v) => v,
        Err(e) => {
            return Err(e);
        },
    };
    Ok(CallDescriptor::DisperseNative { recipients, values, is_percentage: p.is_percentages })
}

/// Abstract result of token-disperse validation: the token address, the
/// recipients' bytes and the values, or the first error, checked in this
/// order: length mismatch, empty list, token address, recipients, values.
pub open spec fn disperse_token_spec(
    rs: Seq<Seq<char>>,
    vs: Seq<Seq<char>>,
    ta: Option<Seq<char>>,
) -> Result<(Seq<u8>, Seq<Seq<u8>>, Seq<nat>), ValidationError> {
    if rs.len() != vs.len() {
        Err(ValidationError::LengthMismatch)
    } else if rs.len() == 0 {
        Err(ValidationError::EmptyRecipientList)
    } else {
        match ta {
            None => Err(ValidationError::MissingTokenAddress),
            Some(t) => if !valid_address_literal(t) {
                Err(ValidationError::InvalidAddress)
            } else {
                match parse_addresses_spec(rs) {
                    Err(e) => Err(e),
                    Ok(addrs) => match parse_amounts_spec(vs) {
                        Err(e) => Err(e),
                        Ok(vals) => Ok((address_of(t), addrs, vals)),
                    },
                }
            },
        }
    }
}

/// Validates a token-disperse request; the token address is required.
pub fn validate_disperse_token(p: &DispersePayload) -> (r: Result<CallDescriptor, ValidationError>)
    ensures
        ({
            let spec_r = disperse_token_spec(
                p.recipients.deep_view(),
                p.values.deep_view(),
                p.token_address.deep_view(),
            );
            match r {
                Ok(d) => spec_r is Ok && (d matches CallDescriptor::DisperseToken {
                    token,
                    recipients,
                    values,
                    is_percentage,
                } && token@ == spec_r->Ok_0.0 && views_of_addrs(recipients@) == spec_r->Ok_0.1
                    && views_of_amounts(values@) == spec_r->Ok_0.2 && is_percentage
                    == p.is_percentages),
                Err(e) => spec_r == Err::<(Seq<u8>, Seq<Seq<u8>>, Seq<nat>), ValidationError>(e),
            }
        }),
        p.recipients@.len() != p.values@.len() ==> r == Err::<CallDescriptor, ValidationError>(
            ValidationError::LengthMismatch,
        ),
{
    if p.recipients.len() != p.values.len() {
        return Err(ValidationError::LengthMismatch);
    }
    if p.recipients.len() == 0 {
        return Err(ValidationError::EmptyRecipientList);
    }
    let token = match &p.token_address {
        None => {
            return Err(ValidationError::MissingTokenAddress);
        },
        Some(t) => match Address::parse(t.as_str()) {
            Ok(a) => a,
            Err(e) => {
                return Err(e);
            },
        },
    };
    let recipients = match parse_address_list(&p.recipients) {
        Ok(a) => a,
        Err(e) => {
            return Err(e);
        },
    };
    let values = match parse_amount_list(&p.values) {
        Ok(v) => v,
        Err(e) => {
            return Err(e);
        },
    };
    Ok(
        CallDescriptor::DisperseToken {
            token,
            recipients,
            values,
            is_percentage: p.is_percentages,
        },
    )
}

/// Abstract result of commit validation: the kind, the token address
/// (absent exactly for the native kind, whatever the payload carried)
/// and the amount, or the first error, checked in this order: token
/// kind, amount, token address.
pub open spec fn commit_spec(tt: Seq<char>, ta: Option<Seq<char>>, am: Seq<char>) -> Result<
    (TokenKind, Option<Seq<u8>>, nat),
    ValidationError,
> {
    if !spells_eth(tt) && !spells_erc20(tt) {
        Err(ValidationError::UnknownTokenKind)
    } else {
        let kind = if spells_eth(tt) {
            TokenKind::Native
        } else {
            TokenKind::Fungible
        };
        if !dec_digits(am) {
            Err(ValidationError::InvalidAmount)
        } else if dec_value(am) >= amount_limit() {
            Err(ValidationError::AmountOverflow)
        } else if kind is Fungible {
            match ta {
                None => Err(ValidationError::MissingTokenAddress),
                Some(t) => if !valid_address_literal(t) {
                    Err(ValidationError::InvalidAddress)
                } else {
                    Ok((kind, Some(address_of(t)), dec_value(am)))
                },
            }
        } else {
            Ok((kind, None, dec_value(am)))
        }
    }
}

/// Validates a commit request.  For the native kind any supplied token
/// address is ignored; for the fungible kind it is required.
pub fn validate_commit(p: &CommitPayload) -> (r: Result<CallDescriptor, ValidationError>)
    ensures
        ({
            let spec_r = commit_spec(
                p.token_type.deep_view(),
                p.token_address.deep_view(),
                p.amount.deep_view(),
            );
            match r {
                Ok(d) => spec_r is Ok && (d matches CallDescriptor::Commit {
                    kind,
                    token,
                    amount,
                } && kind == spec_r->Ok_0.0 && (token matches Some(a) && spec_r->Ok_0.1
                    == Some(a@) || token is None && spec_r->Ok_0.1 is None) && amount@
                    == spec_r->Ok_0.2),
                Err(e) => spec_r == Err::<(TokenKind, Option<Seq<u8>>, nat), ValidationError>(e),
            }
        }),
{
    let kind = match TokenKind::parse(p.token_type.as_str()) {
        Ok(k) => k,
        Err(e) => {
            return Err(e);
        },
    };
    let amount = match Amount::parse(p.amount.as_str()) {
        Ok(a) => a,
        Err(e) => {
            return Err(e);
        },
    };
    match kind {
        TokenKind::Native => Ok(CallDescriptor::Commit { kind, token: None, amount }),
        TokenKind::Fungible => {
            let token = match &p.token_address {
                None => {
                    return Err(ValidationError::MissingTokenAddress);
                },
                Some(t) => match Address::parse(t.as_str()) {
                    Ok(a) => a,
                    Err(e) => {
                        return Err(e);
                    },
                },
            };
            Ok(CallDescriptor::Commit { kind, token: Some(token), amount })
        },
    }
}

/// Abstract result of collect validation: the kind, the token address
/// (required for every kind by the contract's fixed signature) and the
/// payers' bytes, or the first error, checked in this order: token
/// kind, token address, empty list, payers.
pub open spec fn collect_spec(
    tt: Seq<char>,
    ta: Option<Seq<char>>,
    payers: Seq<Seq<char>>,
) -> Result<(TokenKind, Seq<u8>, Seq<Seq<u8>>), ValidationError> {
    if !spells_eth(tt) && !spells_erc20(tt) {
        Err(ValidationError::UnknownTokenKind)
    } else {
        let kind = if spells_eth(tt) {
            TokenKind::Native
        } else {
            TokenKind::Fungible
        };
        match ta {
            None => Err(ValidationError::MissingTokenAddress),
            Some(t) => if !valid_address_literal(t) {
                Err(ValidationError::InvalidAddress)
            } else if payers.len() == 0 {
                Err(ValidationError::EmptyRecipientList)
            } else {
                match parse_addresses_spec(payers) {
                    Err(e) => Err(e),
                    Ok(list) => Ok((kind, address_of(t), list)),
                }
            },
        }
    }
}

/// Validates a collect request; the token address is required for every
/// kind, as the contract's fixed signature demands.
pub fn validate_collect(p: &CollectPayload) -> (r: Result<CallDescriptor, ValidationError>)
    ensures
        ({
            let spec_r = collect_spec(
                p.token_type.deep_view(),
                p.token_address.deep_view(),
                p.payers.deep_view(),
            );
            match r {
                Ok(d) => spec_r is Ok && (d matches CallDescriptor::Collect {
                    kind,
                    token,
                    payers,
                } && kind == spec_r->Ok_0.0 && token@ == spec_r->Ok_0.1 && views_of_addrs(payers@)
                    == spec_r->Ok_0.2),
                Err(e) => spec_r == Err::<(TokenKind, Seq<u8>, Seq<Seq<u8>>), ValidationError>(e),
            }
        }),
{
    let kind = match TokenKind::parse(p.token_type.as_str()) {
        Ok(k) => k,
        Err(e) => {
            return Err(e);
        },
    };
    let token = match &p.token_address {
        None => {
            return Err(ValidationError::MissingTokenAddress);
        },
        Some(t) => match Address::parse(t.as_str()) {
            Ok(a) => a,
            Err(e) => {
                return Err(e);
            },
        },
    };
    if p.payers.len() == 0 {
        return Err(ValidationError::EmptyRecipientList);
    }
    let payers = match parse_address_list(&p.payers) {
        Ok(a) => a,
        Err(e) => {
            return Err(e);
        },
    };
    Ok(CallDescriptor::Collect { kind, token, payers })
}

} // verus!
