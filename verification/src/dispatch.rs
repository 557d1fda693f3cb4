//! Call dispatcher: the pure mapping from a validated `CallDescriptor`
//! to one concrete contract invocation — method, argument tuple and
//! attached native value.
//!
//! The attached value of a native disperse is the sum of all values;
//! the sum is checked against the 256-bit word size and overflow
//! surfaces as `AmountOverflow`, never as a wrapped total.
//!
//! The `prepare_*` functions compose a validator with the dispatcher:
//! raw payload in, contract invocation out.

use vstd::prelude::*;
use crate::address::{Address, zero_address};
use crate::amount::{Amount, amount_limit};
use crate::errors::ValidationError;
use crate::token::{TokenKind, kind_code};
use crate::validate::{
    CallDescriptor,
    CollectPayload,
    CommitPayload,
    DispersePayload,
    collect_spec,
    commit_spec,
    disperse_native_spec,
    disperse_token_spec,
    validate_collect,
    validate_commit,
    validate_disperse_native,
    validate_disperse_token,
    views_of_addrs,
    views_of_amounts,
};

verus! {

/// The sum of a sequence of numbers.
pub open spec fn sum_nat(vs: Seq<nat>) -> nat
    decreases vs.len(),
{
    if vs.len() == 0 {
        0
    } else {
        sum_nat(vs.drop_last()) + vs.last()
    }
}

/// A sum is at least the sum of each of its prefixes.
proof fn lemma_sum_nat_prefix_le(vs: Seq<nat>, i: int)
    requires
        0 <= i <= vs.len(),
    ensures
        sum_nat(vs.take(i)) <= sum_nat(vs),
    decreases vs.len() - i,
{
    if i == vs.len() {
        assert(vs.take(i) =~= vs);
    } else {
        assert(vs.take(i + 1).drop_last() =~= vs.take(i));
        assert(sum_nat(vs.take(i + 1)) == sum_nat(vs.take(i)) + vs.take(i + 1).last());
        lemma_sum_nat_prefix_le(vs, i + 1);
    }
}

/// Sums a list of amounts, reporting `AmountOverflow` when the total
/// does not fit in 256 bits.
pub fn sum_amounts(vs: &Vec<Amount>) -> (r: Result<Amount, ValidationError>)
    ensures
        ({
            let total = sum_nat(views_of_amounts(vs@));
            match r {
                Ok(a) => a@ == total && total < amount_limit(),
                Err(e) => e == ValidationError::AmountOverflow && total >= amount_limit(),
            }
        }),
{
    let ghost vsn = views_of_amounts(vs@);
    let mut acc = Amount::zero();
    let mut i: usize = 0;
    proof {
        assert(vsn.take(0) =~= Seq::<nat>::empty());
    }
    while i < vs.len()
        invariant
            0 <= i <= vs@.len(),
            vsn == views_of_amounts(vs@),
            acc@ == sum_nat(vsn.take(i as int)),
        decreases vs@.len() - i,
    {
        proof {
            assert(vsn.take(i + 1).drop_last() =~= vsn.take(i as int));
            assert(vsn.take(i + 1).last() == vsn[i as int]);
            assert(vsn[i as int] == vs@[i as int]@);
        }
        match acc.checked_add(&vs[i]) {
            Some(a) => {
                acc = a;
            },
            None => {
                proof {
                    lemma_sum_nat_prefix_le(vsn, i + 1);
                }
                return Err(ValidationError::AmountOverflow);
            },
        }
        i += 1;
    }
    proof {
        assert(vsn.take(vs@.len() as int) =~= vsn);
    }
    Ok(acc)
}

/// One concrete invocation of the deployed contract: which method, with
/// which argument tuple, and how much native value rides along.
#[derive(Clone, Debug, PartialEq)]
pub enum ContractInvocation {
    /// `disperseETH(recipients, values, is_percentage)`, with the sum of
    /// the values attached.
    DisperseEth {
        recipients: Vec<Address>,
        values: Vec<Amount>,
        is_percentage: bool,
        attached_value: Amount,
    },
    /// `disperseERC20(token, recipients, values, is_percentage)`, with
    /// nothing attached.
    DisperseErc20 {
        token: Address,
        recipients: Vec<Address>,
        values: Vec<Amount>,
        is_percentage: bool,
    },
    /// `commit(kind_code, token_or_zero, amount)`, with `amount`
    /// attached exactly for the native kind.
    Commit { kind_code: u8, token: Address, amount: Amount, attached_value: Amount },
    /// `collect(kind_code, token, payers)`, with nothing attached.
    Collect { kind_code: u8, token: Address, payers: Vec<Address> },
}

/// The native value attached to an invocation; zero unless the variant
/// carries an explicit attached value.
pub open spec fn spec_attached_value(inv: ContractInvocation) -> nat {
    match inv {
        ContractInvocation::DisperseEth { attached_value, .. } => attached_value@,
        ContractInvocation::Commit { attached_value, .. } => attached_value@,
        _ => 0,
    }
}

impl ContractInvocation {
    /// The contract method this invocation calls, by its ABI name.
    pub fn method_name(&self) -> (r: &'static str)
        ensures
            self is DisperseEth ==> r@ == "disperseETH"@,
            self is DisperseErc20 ==> r@ == "disperseERC20"@,
            self is Commit ==> r@ == "commit"@,
            self is Collect ==> r@ == "collect"@,
    {
        match self {
            ContractInvocation::DisperseEth { .. } => "disperseETH",
            ContractInvocation::DisperseErc20 { .. } => "disperseERC20",
            ContractInvocation::Commit { .. } => "commit",
            ContractInvocation::Collect { .. } => "collect",
        }
    }

    /// The native value to attach to the call.
    pub fn attached_value(&self) -> (r: Amount)
        ensures
            r@ == spec_attached_value(*self),
    {
        match self {
            ContractInvocation::DisperseEth { attached_value, .. } => *attached_value,
            ContractInvocation::Commit { attached_value, .. } => *attached_value,
            ContractInvocation::DisperseErc20 { .. } => Amount::zero(),
            ContractInvocation::Collect { .. } => Amount::zero(),
        }
    }
}

/// Maps a validated descriptor to its contract invocation.  The only
/// possible failure is `AmountOverflow` while summing the attached
/// value of a native disperse.
pub fn dispatch(d: CallDescriptor) -> (r: Result<ContractInvocation, ValidationError>)
    ensures
        ({
            match d {
                CallDescriptor::DisperseNative { recipients, values, is_percentage } => {
                    let total = sum_nat(views_of_amounts(values@));
                    if total < amount_limit() {
                        r matches Ok(inv) && inv matches ContractInvocation::DisperseEth {
                            recipients: r2,
                            values: v2,
                            is_percentage: p2,
                            attached_value,
                        } && r2 == recipients && v2 == values && p2 == is_percentage
                            && attached_value@ == total
                    } else {
                        r == Err::<ContractInvocation, ValidationError>(
                            ValidationError::AmountOverflow,
                        )
                    }
                },
                CallDescriptor::DisperseToken { token, recipients, values, is_percentage } => (
                r matches Ok(inv) && inv matches ContractInvocation::DisperseErc20 {
                    token: t2,
                    recipients: r2,
                    values: v2,
                    is_percentage: p2,
                } && t2 == token && r2 == recipients && v2 == values && p2 == is_percentage),
                CallDescriptor::Commit { kind, token, amount } => (
                r matches Ok(inv) && inv matches ContractInvocation::Commit {
                    kind_code: c2,
                    token: t2,
                    amount: a2,
                    attached_value,
                } && c2 == kind_code(kind) && (match token {
                    Some(tok) => t2 == tok,
                    None => t2@ == zero_address(),
                }) && a2 == amount && attached_value@ == (if kind is Native {
                    amount@
                } else {
                    0nat
                })),
                CallDescriptor::Collect { kind, token, payers } => (
                r matches Ok(inv) && inv matches ContractInvocation::Collect {
                    kind_code: c2,
                    token: t2,
                    payers: p2,
                } && c2 == kind_code(kind) && t2 == token && p2 == payers),
            }
        }),
{
    match d {
        CallDescriptor::DisperseNative { recipients, values, is_percentage } => {
            let attached_value = match sum_amounts(&values) {
                Ok(a) => a,
                Err(e) => {
                    return Err(e);
                },
            };
            Ok(
                ContractInvocation::DisperseEth {
                    recipients,
                    values,
                    is_percentage,
                    attached_value,
                },
            )
        },
        CallDescriptor::DisperseToken { token, recipients, values, is_percentage } => Ok(
            ContractInvocation::DisperseErc20 { token, recipients, values, is_percentage },
        ),
        CallDescriptor::Commit { kind, token, amount } => {
            let token_or_zero = match token {
                Some(t) => t,
                None => Address::zero(),
            };
            let attached_value = match kind {
                TokenKind::Native => amount,
                TokenKind::Fungible => Amount::zero(),
            };
            Ok(
                ContractInvocation::Commit {
                    kind_code: kind.code(),
                    token: token_or_zero,
                    amount,
                    attached_value,
                },
            )
        },
        CallDescriptor::Collect { kind, token, payers } => Ok(
            ContractInvocation::Collect { kind_code: kind.code(), token, payers },
        ),
    }
}

/// Validates and dispatches a native-disperse request in one step.
pub fn prepare_disperse_native(p: &DispersePayload) -> (r: Result<
    ContractInvocation,
    ValidationError,
>)
    ensures
        ({
            let spec_r = disperse_native_spec(p.recipients.deep_view(), p.values.deep_view());
            match spec_r {
                Err(e) => r == Err::<ContractInvocation, ValidationError>(e),
                Ok(av) => {
                    let total = sum_nat(av.1);
                    if total >= amount_limit() {
                        r == Err::<ContractInvocation, ValidationError>(
                            ValidationError::AmountOverflow,
                        )
                    } else {
                        r matches Ok(inv) && inv matches ContractInvocation::DisperseEth {
                            recipients,
                            values,
                            is_percentage,
                            attached_value,
                        } && views_of_addrs(recipients@) == av.0 && views_of_amounts(values@)
                            == av.1 && is_percentage == p.is_percentages && attached_value@
                            == total
                    }
                },
            }
        }),
        p.recipients@.len() != p.values@.len() ==> r == Err::<ContractInvocation, ValidationError>(
            ValidationError::LengthMismatch,
        ),
{
    match validate_disperse_native(p) {
        Ok(d) => dispatch(d),
        Err(e) => Err(e),
    }
}

/// Validates and dispatches a token-disperse request in one step.
pub fn prepare_disperse_token(p: &DispersePayload) -> (r: Result<
    ContractInvocation,
    ValidationError,
>)
    ensures
        ({
            let spec_r = disperse_token_spec(
                p.recipients.deep_view(),
                p.values.deep_view(),
                p.token_address.deep_view(),
            );
            match spec_r {
                Err(e) => r == Err::<ContractInvocation, ValidationError>(e),
                Ok(av) => r matches Ok(inv) && inv matches ContractInvocation::DisperseErc20 {
                    token,
                    recipients,
                    values,
                    is_percentage,
                } && token@ == av.0 && views_of_addrs(recipients@) == av.1 && views_of_amounts(
                    values@,
                ) == av.2 && is_percentage == p.is_percentages,
            }
        }),
        p.recipients@.len() != p.values@.len() ==> r == Err::<ContractInvocation, ValidationError>(
            ValidationError::LengthMismatch,
        ),
{
    match validate_disperse_token(p) {
        Ok(d) => dispatch(d),
        Err(e) => Err(e),
    }
}

/// Validates and dispatches a commit request in one step.
pub fn prepare_commit(p: &CommitPayload) -> (r: Result<ContractInvocation, ValidationError>)
    ensures
        ({
            let spec_r = commit_spec(
                p.token_type.deep_view(),
                p.token_address.deep_view(),
                p.amount.deep_view(),
            );
            match spec_r {
                Err(e) => r == Err::<ContractInvocation, ValidationError>(e),
                Ok(av) => r matches Ok(inv) && inv matches ContractInvocation::Commit {
                    kind_code: c2,
                    token,
                    amount,
                    attached_value,
                } && c2 == kind_code(av.0) && token@ == (match av.1 {
                    Some(b) => b,
                    None => zero_address(),
                }) && amount@ == av.2 && attached_value@ == (if av.0 is Native {
                    av.2
                } else {
                    0nat
                }),
            }
        }),
{
    match validate_commit(p) {
        Ok(d) => dispatch(d),
        Err(e) => Err(e),
    }
}

/// Validates and dispatches a collect request in one step.
pub fn prepare_collect(p: &CollectPayload) -> (r: Result<ContractInvocation, ValidationError>)
    ensures
        ({
            let spec_r = collect_spec(
                p.token_type.deep_view(),
                p.token_address.deep_view(),
                p.payers.deep_view(),
            );
            match spec_r {
                Err(e) => r == Err::<ContractInvocation, ValidationError>(e),
                Ok(av) => r matches Ok(inv) && inv matches ContractInvocation::Collect {
                    kind_code: c2,
                    token,
                    payers,
                } && c2 == kind_code(av.0) && token@ == av.1 && views_of_addrs(payers@) == av.2,
            }
        }),
{
    match validate_collect(p) {
        Ok(d) => dispatch(d),
        Err(e) => Err(e),
    }
}

} // verus!
