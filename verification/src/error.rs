//! The ways an operation of this contract can fail.

use vstd::prelude::*;

verus! {

/// Spec-level image of a [`ContractError`], used by the contracts of the
/// handlers to say exactly which error an input produces.
pub enum ContractErrorView {
    InvalidAddress,
    Unauthorized,
    NoCoinsSent,
    TooManyCoins,
    OnlyTwoAllowed,
    DenomsNotSupported(Seq<Seq<char>>),
    InsufficientBalance(Seq<char>),
    StateLoadError,
}

/// Every failure an operation can end in.  Each is terminal for the current
/// operation: a handler that returns an error leaves the ledger store exactly
/// as it found it.
#[derive(Clone, Debug, PartialEq, Eq)]
pub enum ContractError {
    /// The owner identity resolved at instantiation is malformed (empty).
    InvalidAddress {},
    /// The caller is not the configured owner.
    Unauthorized {},
    /// No funds were attached to a deposit.
    NoCoinsSent {},
    /// More than two funds entries were attached to a deposit.
    TooManyCoins {},
    /// Exactly one funds entry was attached; deposits require exactly two.
    OnlyTwoAllowed {},
    /// One or more attached denominations are outside the whitelist; carries
    /// the offending denominations in encounter order, not deduplicated.
    DenomsNotSupported { denoms: Vec<String> },
    /// A withdrawal target denomination has no tracked balance.
    InsufficientBalance { denom: String },
    /// The configuration record is absent: the store was never instantiated.
    StateLoadError {},
}

impl View for ContractError {
    type V = ContractErrorView;

    open spec fn view(&self) -> ContractErrorView {
        match self {
            ContractError::InvalidAddress {} => ContractErrorView::InvalidAddress,
            ContractError::Unauthorized {} => ContractErrorView::Unauthorized,
            ContractError::NoCoinsSent {} => ContractErrorView::NoCoinsSent,
            ContractError::TooManyCoins {} => ContractErrorView::TooManyCoins,
            ContractError::OnlyTwoAllowed {} => ContractErrorView::OnlyTwoAllowed,
            ContractError::DenomsNotSupported { denoms } => ContractErrorView::DenomsNotSupported(
                denoms.deep_view(),
            ),
            ContractError::InsufficientBalance { denom } => ContractErrorView::InsufficientBalance(
                denom@,
            ),
            ContractError::StateLoadError {} => ContractErrorView::StateLoadError,
        }
    }
}

} // verus!
