//! The failures that the library reports.

use crate::account::{Account, AccountView};
use crate::date::{Date, Ymd};
use crate::decimal::{Dec, Decimal};
use vstd::prelude::*;

verus! {

/// A validation failure. Every failure is deterministic: the same input
/// fails in the same way.
#[derive(Clone, Debug, PartialEq, Eq)]
pub enum Error {
    /// The first segment of an account name is not a root name.
    InvalidAccountType,
    /// A booking method token is not one of the known tokens.
    UnknownBookingToken,
    /// An amount lacks its number or its currency.
    IncompleteConversion,
    /// The weights of a transaction do not sum to zero in `currency`.
    UnbalancedTransaction { currency: String, residual: Decimal },
    /// The amount or currency of an elided posting cannot be inferred.
    AmbiguousAutobalance,
    /// Several lots match a reduction and the booking method does not choose.
    AmbiguousBooking,
    /// A reduction asks for more units than the matching lots hold, or for
    /// units at a cost at which the account holds none: it would leave a
    /// negative number of units held at cost.
    NegativeHeldAtCost,
    /// The account holds no lot of the reduced commodity at cost.
    NoMatchingLot,
    /// A cost or price number is negative.
    NegativeCostOrPrice,
    /// An exact result does not fit the decimal range.
    Overflow,
}

/// Mathematical model of an [`Error`].
pub enum ErrorModel {
    InvalidAccountType,
    UnknownBookingToken,
    IncompleteConversion,
    UnbalancedTransaction { currency: Seq<char>, residual: Dec },
    AmbiguousAutobalance,
    AmbiguousBooking,
    NegativeHeldAtCost,
    NoMatchingLot,
    NegativeCostOrPrice,
    Overflow,
}

impl View for Error {
    type V = ErrorModel;

    open spec fn view(&self) -> ErrorModel {
        match self {
            Error::InvalidAccountType => ErrorModel::InvalidAccountType,
            Error::UnknownBookingToken => ErrorModel::UnknownBookingToken,
            Error::IncompleteConversion => ErrorModel::IncompleteConversion,
            Error::UnbalancedTransaction { currency, residual } => ErrorModel::UnbalancedTransaction {
                currency: currency@,
                residual: residual@,
            },
            Error::AmbiguousAutobalance => ErrorModel::AmbiguousAutobalance,
            Error::AmbiguousBooking => ErrorModel::AmbiguousBooking,
            Error::NegativeHeldAtCost => ErrorModel::NegativeHeldAtCost,
            Error::NoMatchingLot => ErrorModel::NoMatchingLot,
            Error::NegativeCostOrPrice => ErrorModel::NegativeCostOrPrice,
            Error::Overflow => ErrorModel::Overflow,
        }
    }
}

/// A failure of one transaction: the day of the transaction and, where one
/// posting caused the failure, the place and the account of that posting. A
/// failure of the transaction as a whole names no posting.
#[derive(Clone, Debug, PartialEq, Eq)]
pub struct Failure {
    pub date: Date,
    pub posting: Option<usize>,
    pub account: Option<Account>,
    pub error: Error,
}

/// Mathematical model of a [`Failure`].
pub struct FailureModel {
    pub date: Ymd,
    pub posting: Option<usize>,
    pub account: Option<AccountView>,
    pub error: ErrorModel,
}

impl View for Failure {
    type V = FailureModel;

    open spec fn view(&self) -> FailureModel {
        FailureModel {
            date: self.date@,
            posting: self.posting,
            account: match self.account {
                Some(a) => Some(a@),
                None => None,
            },
            error: self.error@,
        }
    }
}

} // verus!
