//! The value types that cross the boundary between the host environment and
//! the contract logic: operation messages, attached funds, and the structured
//! outcome a successful handler hands back.

use vstd::prelude::*;

verus! {

/// A quantity of one fungible denomination, either attached to a call as
/// funds or carried by an outbound transfer instruction.
#[derive(Clone, Debug, PartialEq, Eq)]
pub struct Coin {
    pub denom: String,
    pub amount: u128,
}

/// Spec-level image of a [`Coin`].
#[verifier::ext_equal]
pub struct CoinView {
    pub denom: Seq<char>,
    pub amount: u128,
}

impl View for Coin {
    type V = CoinView;

    open spec fn view(&self) -> CoinView {
        CoinView { denom: self.denom@, amount: self.amount }
    }
}

impl DeepView for Coin {
    type V = CoinView;

    open spec fn deep_view(&self) -> CoinView {
        self.view()
    }
}

/// The identity that invoked an operation, together with the funds the host
/// escrowed and attached to the call.
#[derive(Clone, Debug, PartialEq, Eq)]
pub struct MessageInfo {
    pub sender: String,
    pub funds: Vec<Coin>,
}

/// Spec-level image of a [`MessageInfo`].
#[verifier::ext_equal]
pub struct MessageInfoView {
    pub sender: Seq<char>,
    pub funds: Seq<CoinView>,
}

impl View for MessageInfo {
    type V = MessageInfoView;

    open spec fn view(&self) -> MessageInfoView {
        MessageInfoView { sender: self.sender@, funds: self.funds.deep_view() }
    }
}

/// The one-time setup message: an optional explicit owner (defaulting to the
/// caller) and the pair of accepted denominations.
#[derive(Clone, Debug, PartialEq, Eq)]
pub struct InstantiateMsg {
    pub owner: Option<String>,
    pub accepted_denoms: [String; 2],
}

/// Spec-level image of an [`InstantiateMsg`].
#[verifier::ext_equal]
pub struct InstantiateMsgView {
    pub owner: Option<Seq<char>>,
    pub accepted_denoms: Seq<Seq<char>>,
}

impl View for InstantiateMsg {
    type V = InstantiateMsgView;

    open spec fn view(&self) -> InstantiateMsgView {
        InstantiateMsgView {
            owner: match self.owner {
                Some(o) => Some(o@),
                None => None,
            },
            accepted_denoms: self.accepted_denoms.deep_view(),
        }
    }
}

/// An operation request against an instantiated contract.
#[derive(Clone, Debug, PartialEq, Eq)]
pub enum ExecuteMsg {
    /// Book the funds attached to the call into the pool balances.
    Deposit {},
    /// Emit a transfer instruction for the full tracked balance of the two
    /// given denominations to `to_addr`.
    Withdraw { denoms: [String; 2], to_addr: String },
}

/// Spec-level image of an [`ExecuteMsg`].
pub enum ExecuteMsgView {
    Deposit,
    Withdraw { denoms: Seq<Seq<char>>, to_addr: Seq<char> },
}

impl View for ExecuteMsg {
    type V = ExecuteMsgView;

    open spec fn view(&self) -> ExecuteMsgView {
        match self {
            ExecuteMsg::Deposit {} => ExecuteMsgView::Deposit,
            ExecuteMsg::Withdraw { denoms, to_addr } => ExecuteMsgView::Withdraw {
                denoms: denoms.deep_view(),
                to_addr: to_addr@,
            },
        }
    }
}

/// One key/value pair of a handler's observable output.
#[derive(Clone, Debug, PartialEq, Eq)]
pub struct Attribute {
    pub key: String,
    pub value: String,
}

impl View for Attribute {
    type V = (Seq<char>, Seq<char>);

    open spec fn view(&self) -> (Seq<char>, Seq<char>) {
        (self.key@, self.value@)
    }
}

impl DeepView for Attribute {
    type V = (Seq<char>, Seq<char>);

    open spec fn deep_view(&self) -> (Seq<char>, Seq<char>) {
        self.view()
    }
}

impl Attribute {
    /// Build one attribute from a key and a value.
    pub fn new(key: &str, value: &str) -> (a: Attribute)
        ensures
            a@ == (key@, value@),
    {
        Attribute { key: key.to_owned(), value: value.to_owned() }
    }
}

/// An outbound transfer instruction: move `amount` to `to_address`.  The
/// handlers construct it; executing it — actually moving the assets — is the
/// host's job.
#[derive(Clone, Debug, PartialEq, Eq)]
pub enum BankMsg {
    Send { to_address: String, amount: Vec<Coin> },
}

/// Spec-level image of a [`BankMsg`].
#[verifier::ext_equal]
pub struct BankMsgView {
    pub to_address: Seq<char>,
    pub amount: Seq<CoinView>,
}

impl View for BankMsg {
    type V = BankMsgView;

    open spec fn view(&self) -> BankMsgView {
        match self {
            BankMsg::Send { to_address, amount } => BankMsgView {
                to_address: to_address@,
                amount: amount.deep_view(),
            },
        }
    }
}

impl DeepView for BankMsg {
    type V = BankMsgView;

    open spec fn deep_view(&self) -> BankMsgView {
        self.view()
    }
}

/// The success record of a handler: observable attributes plus the outbound
/// messages the host must execute.
#[derive(Clone, Debug, PartialEq, Eq)]
pub struct Response {
    pub attributes: Vec<Attribute>,
    pub messages: Vec<BankMsg>,
}

/// Spec-level image of a [`Response`].
#[verifier::ext_equal]
pub struct ResponseView {
    pub attributes: Seq<(Seq<char>, Seq<char>)>,
    pub messages: Seq<BankMsgView>,
}

impl View for Response {
    type V = ResponseView;

    open spec fn view(&self) -> ResponseView {
        ResponseView {
            attributes: self.attributes.deep_view(),
            messages: self.messages.deep_view(),
        }
    }
}

} // verus!
