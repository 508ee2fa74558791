//! The handlers: one-time instantiation, the access-control gate, deposit
//! bookkeeping and withdrawal.  Each takes the ledger store as an explicit
//! argument and is a single atomic transition: on any error the store is
//! left exactly as it was found.
//!
//! Each handler's contract equates its result, and the store it leaves
//! behind, with a spec-level transition function over the store's view; the
//! laws at the end of this module are proved of those transition functions.

use vstd::prelude::*;

use crate::error::{ContractError, ContractErrorView};
use crate::msg::{
    Attribute, BankMsg, BankMsgView, Coin, CoinView, ExecuteMsg, ExecuteMsgView, InstantiateMsg,
    InstantiateMsgView, MessageInfo, MessageInfoView, Response, ResponseView,
};
use crate::state::{Config, ConfigView, LedgerStore, LedgerStoreView, PoolBalance};

verus! {

broadcast use vstd::array::group_array_axioms;

/// The spec image of a handler result.
pub open spec fn result_view(r: Result<Response, ContractError>) -> Result<
    ResponseView,
    ContractErrorView,
> {
    match r {
        Ok(resp) => Ok(resp@),
        Err(e) => Err(e@),
    }
}

/// The owner identity an instantiation resolves to: the explicit owner when
/// one is given, else the caller.
pub open spec fn resolved_owner(msg: InstantiateMsgView, sender: Seq<char>) -> Seq<char> {
    match msg.owner {
        Some(o) => o,
        None => sender,
    }
}

/// The transition made by [`instantiate`]: an empty resolved owner is
/// rejected as malformed; otherwise the configuration record is written,
/// unconditionally, and the action and resolved owner are reported.
pub open spec fn spec_instantiate(
    s: LedgerStoreView,
    sender: Seq<char>,
    msg: InstantiateMsgView,
) -> (LedgerStoreView, Result<ResponseView, ContractErrorView>) {
    let owner = resolved_owner(msg, sender);
    if owner.len() == 0 {
        (s, Err(ContractErrorView::InvalidAddress))
    } else {
        (
            LedgerStoreView {
                config: Some(ConfigView { owner, accepted_denoms: msg.accepted_denoms }),
                balances: s.balances,
            },
            Ok(
                ResponseView {
                    attributes: seq![("action"@, "instantiate"@), ("owner"@, owner)],
                    messages: Seq::empty(),
                },
            ),
        )
    }
}

/// The attached denominations that are not whitelisted, in encounter order,
/// not deduplicated.
pub open spec fn unaccepted_denoms(cfg: ConfigView, funds: Seq<CoinView>) -> Seq<Seq<char>>
    decreases funds.len(),
{
    if funds.len() == 0 {
        Seq::empty()
    } else {
        let rest = unaccepted_denoms(cfg, funds.drop_last());
        if cfg.accepts(funds.last().denom) {
            rest
        } else {
            rest.push(funds.last().denom)
        }
    }
}

/// The validation verdict for a deposit of `funds` under configuration
/// `cfg`.  The order of the checks decides which error surfaces first.
pub open spec fn deposit_verdict(cfg: ConfigView, funds: Seq<CoinView>) -> Result<
    (),
    ContractErrorView,
> {
    if funds.len() < 1 {
        Err(ContractErrorView::NoCoinsSent)
    } else if funds.len() > 2 {
        Err(ContractErrorView::TooManyCoins)
    } else if funds.len() < 2 {
        Err(ContractErrorView::OnlyTwoAllowed)
    } else if unaccepted_denoms(cfg, funds).len() >= 1 {
        Err(ContractErrorView::DenomsNotSupported(unaccepted_denoms(cfg, funds)))
    } else {
        Ok(())
    }
}

/// The balance tracked for `denom` in a balance map; zero when absent.
pub open spec fn balance_in(m: Map<Seq<char>, u128>, denom: Seq<char>) -> u128 {
    if m.contains_key(denom) {
        m[denom]
    } else {
        0
    }
}

/// One deposit booked into a balance map: the denomination's tracked balance
/// grows by `amount`, starting from zero when it had no entry.
pub open spec fn credited(m: Map<Seq<char>, u128>, denom: Seq<char>, amount: u128) -> Map<
    Seq<char>,
    u128,
> {
    m.insert(denom, ((balance_in(m, denom) + amount) as u128))
}

/// All attached deposits booked, in encounter order.
pub open spec fn credited_all(m: Map<Seq<char>, u128>, funds: Seq<CoinView>) -> Map<
    Seq<char>,
    u128,
>
    decreases funds.len(),
{
    if funds.len() == 0 {
        m
    } else {
        credited(credited_all(m, funds.drop_last()), funds.last().denom, funds.last().amount)
    }
}

/// No single booking of `funds`, made in order, overflows the 128-bit
/// balance width.
pub open spec fn deposit_fits(m: Map<Seq<char>, u128>, funds: Seq<CoinView>) -> bool
    decreases funds.len(),
{
    if funds.len() == 0 {
        true
    } else {
        &&& deposit_fits(m, funds.drop_last())
        &&& balance_in(credited_all(m, funds.drop_last()), funds.last().denom)
            + funds.last().amount <= u128::MAX
    }
}

/// The transition made by [`execute_deposit`]: the validation verdict and,
/// on success, the store with every attached deposit booked.
pub open spec fn spec_execute_deposit(s: LedgerStoreView, funds: Seq<CoinView>) -> (
    LedgerStoreView,
    Result<ResponseView, ContractErrorView>,
) {
    match s.config {
        None => (s, Err(ContractErrorView::StateLoadError)),
        Some(cfg) => match deposit_verdict(cfg, funds) {
            Err(e) => (s, Err(e)),
            Ok(_) => (
                LedgerStoreView { config: s.config, balances: credited_all(s.balances, funds) },
                Ok(
                    ResponseView {
                        attributes: seq![("action"@, "deposit"@)],
                        messages: Seq::empty(),
                    },
                ),
            ),
        },
    }
}

/// The outcome of [`execute_withdraw`]: the first requested denomination
/// without a tracked balance aborts the operation; otherwise exactly one
/// transfer instruction carries both full tracked balances, in the requested
/// order, to the destination.  The store is never changed.
pub open spec fn spec_execute_withdraw(
    s: LedgerStoreView,
    denoms: Seq<Seq<char>>,
    to_addr: Seq<char>,
) -> Result<ResponseView, ContractErrorView>
    recommends
        denoms.len() == 2,
{
    if !s.balances.contains_key(denoms[0]) {
        Err(ContractErrorView::InsufficientBalance(denoms[0]))
    } else if !s.balances.contains_key(denoms[1]) {
        Err(ContractErrorView::InsufficientBalance(denoms[1]))
    } else {
        Ok(
            ResponseView {
                attributes: seq![("action"@, "withdraw"@)],
                messages: seq![
                    BankMsgView {
                        to_address: to_addr,
                        amount: seq![
                            CoinView { denom: denoms[0], amount: s.balances[denoms[0]] },
                            CoinView { denom: denoms[1], amount: s.balances[denoms[1]] },
                        ],
                    },
                ],
            },
        )
    }
}

/// The transition made by [`execute`]: the access gate in front of the two
/// handlers.  A non-owner caller never observes a handler-specific error,
/// only `Unauthorized`.
pub open spec fn spec_execute(
    s: LedgerStoreView,
    info: MessageInfoView,
    msg: ExecuteMsgView,
) -> (LedgerStoreView, Result<ResponseView, ContractErrorView>) {
    match s.config {
        None => (s, Err(ContractErrorView::StateLoadError)),
        Some(cfg) => if cfg.owner != info.sender {
            (s, Err(ContractErrorView::Unauthorized))
        } else {
            match msg {
                ExecuteMsgView::Deposit => spec_execute_deposit(s, info.funds),
                ExecuteMsgView::Withdraw { denoms, to_addr } => (
                    s,
                    spec_execute_withdraw(s, denoms, to_addr),
                ),
            }
        },
    }
}

/// One-time setup: resolves the owner (defaulting to the caller), rejects an
/// empty owner identity as malformed, and writes the configuration record
/// unconditionally.  Identity validation beyond non-emptiness is
/// host-specific and is the host's duty before this call.
pub fn instantiate(store: &mut LedgerStore, sender: &str, msg: InstantiateMsg) -> (r: Result<
    Response,
    ContractError,
>)
    ensures
        ({
            let (s2, res) = spec_instantiate(old(store)@, sender@, msg@);
            &&& final(store)@ == s2
            &&& result_view(r) == res
        }),
        r is Ok ==> final(store)@.config is Some && final(store)@.config->0.wf(),
{
    let admin: String = match msg.owner {
        Some(o) => o,
        None => sender.to_owned(),
    };
    if admin.as_str().is_empty() {
        return Err(ContractError::InvalidAddress {});
    }
    let config = Config { owner: admin.clone(), accepted_denoms: msg.accepted_denoms };
    store.save_config(config);
    let mut attributes: Vec<Attribute> = Vec::new();
    attributes.push(Attribute::new("action", "instantiate"));
    attributes.push(Attribute::new("owner", admin.as_str()));
    let resp = Response { attributes, messages: Vec::new() };
    proof {
        let (s2, res) = spec_instantiate(old(store)@, sender@, msg@);
        assert(resp@.attributes =~= res->Ok_0.attributes);
        assert(resp@.messages =~= res->Ok_0.messages);
        assert(resp@ =~~= res->Ok_0);
        assert(store@ =~~= s2);
    }
    Ok(resp)
}

/// Over a pair of accepted denominations, membership is a plain two-way
/// comparison.
proof fn lemma_accepts_pair(cfg: ConfigView, d: Seq<char>)
    requires
        cfg.accepted_denoms.len() == 2,
    ensures
        cfg.accepts(d) <==> (d == cfg.accepted_denoms[0] || d == cfg.accepted_denoms[1]),
{
    if cfg.accepts(d) {
        let i = choose|i: int|
            0 <= i < cfg.accepted_denoms.len() && cfg.accepted_denoms[i] == d;
        assert(i == 0 || i == 1);
    }
    if d == cfg.accepted_denoms[0] {
        assert(cfg.accepted_denoms.contains(d));
    }
    if d == cfg.accepted_denoms[1] {
        assert(cfg.accepted_denoms.contains(d));
    }
}

/// Extending the scanned prefix by one coin extends the offending list by
/// that coin's denomination exactly when it is not accepted.
proof fn lemma_unaccepted_step(cfg: ConfigView, s: Seq<CoinView>, k: int)
    requires
        0 <= k < s.len(),
    ensures
        unaccepted_denoms(cfg, s.take(k + 1)) == if cfg.accepts(s[k].denom) {
            unaccepted_denoms(cfg, s.take(k))
        } else {
            unaccepted_denoms(cfg, s.take(k)).push(s[k].denom)
        },
{
    let t = s.take(k + 1);
    assert(t.drop_last() =~= s.take(k));
    assert(t.last() == s[k]);
}

/// Booking one more coin of the prefix is one application of [`credited`].
proof fn lemma_credited_all_step(m: Map<Seq<char>, u128>, s: Seq<CoinView>, k: int)
    requires
        0 <= k < s.len(),
    ensures
        credited_all(m, s.take(k + 1)) == credited(
            credited_all(m, s.take(k)),
            s[k].denom,
            s[k].amount,
        ),
{
    let t = s.take(k + 1);
    assert(t.drop_last() =~= s.take(k));
    assert(t.last() == s[k]);
}

/// When the whole deposit fits, each single booking fits as it is made.
proof fn lemma_deposit_fits_at(m: Map<Seq<char>, u128>, s: Seq<CoinView>, k: int)
    requires
        deposit_fits(m, s),
        0 <= k < s.len(),
    ensures
        balance_in(credited_all(m, s.take(k)), s[k].denom) + s[k].amount <= u128::MAX,
    decreases s.len(),
{
    if k == s.len() - 1 {
        assert(s.take(k) =~= s.drop_last());
    } else {
        assert(s.drop_last().take(k) =~= s.take(k));
        assert(s.drop_last()[k] == s[k]);
        lemma_deposit_fits_at(m, s.drop_last(), k);
    }
}

/// Validates the funds attached to the call — empty, single and oversized
/// fund sets are rejected, then any non-whitelisted denomination — and books
/// every deposit into the store.  The only mutating outcome is full success;
/// any error leaves the store unchanged.
///
/// A booking that would push a tracked balance past the 128-bit range is
/// ruled out by precondition; the host must refuse such a call instead of
/// letting the balance wrap.
pub fn execute_deposit(store: &mut LedgerStore, info: MessageInfo) -> (r: Result<
    Response,
    ContractError,
>)
    requires
        (old(store)@.config is Some && deposit_verdict(old(store)@.config->0, info@.funds) is Ok)
            ==> deposit_fits(old(store)@.balances, info@.funds),
    ensures
        ({
            let (s2, res) = spec_execute_deposit(old(store)@, info@.funds);
            &&& final(store)@ == s2
            &&& result_view(r) == res
        }),
{
    let config = match store.load_config() {
        Ok(c) => c,
        Err(e) => {
            return Err(e);
        },
    };
    let ghost cfg: ConfigView = config@;
    let ghost funds_dv: Seq<CoinView> = info.funds.deep_view();
    let funds_len = info.funds.len();

    if funds_len < 1 {
        return Err(ContractError::NoCoinsSent {});
    }
    if funds_len > 2 {
        return Err(ContractError::TooManyCoins {});
    }
    if funds_len < 2 {
        return Err(ContractError::OnlyTwoAllowed {});
    }

    let mut unaccepted: Vec<String> = Vec::new();
    proof {
        assert(funds_dv.take(0) =~= Seq::<CoinView>::empty());
        assert(unaccepted.deep_view() =~= Seq::<Seq<char>>::empty());
    }
    let mut i: usize = 0;
    while i < funds_len
        invariant
            0 <= i <= funds_len,
            funds_len == info.funds@.len(),
            funds_dv == info.funds.deep_view(),
            cfg.accepted_denoms.len() == 2,
            cfg == config@,
            unaccepted.deep_view() == unaccepted_denoms(cfg, funds_dv.take(i as int)),
        decreases funds_len - i,
    {
        let coin = &info.funds[i];
        let accepted = coin.denom.as_str().eq(config.accepted_denoms[0].as_str())
            || coin.denom.as_str().eq(config.accepted_denoms[1].as_str());
        proof {
            lemma_accepts_pair(cfg, coin@.denom);
            lemma_unaccepted_step(cfg, funds_dv, i as int);
            assert(funds_dv[i as int] == coin@);
        }
        if !accepted {
            let ghost before: Seq<Seq<char>> = unaccepted.deep_view();
            unaccepted.push(coin.denom.clone());
            proof {
                assert(unaccepted.deep_view() =~= before.push(coin@.denom));
            }
        }
        i += 1;
    }
    proof {
        assert(funds_dv.take(funds_len as int) =~= funds_dv);
    }

    let unaccepted_denoms_len = unaccepted.len();
    if unaccepted_denoms_len >= 1 {
        return Err(ContractError::DenomsNotSupported { denoms: unaccepted });
    }

    proof {
        assert(unaccepted.deep_view().len() == 0);
        assert(deposit_verdict(cfg, funds_dv) is Ok);
        assert(deposit_fits(old(store)@.balances, funds_dv));
        assert(funds_dv.take(0) =~= Seq::<CoinView>::empty());
    }
    let ghost m0: Map<Seq<char>, u128> = store@.balances;
    let mut i: usize = 0;
    while i < funds_len
        invariant
            0 <= i <= funds_len,
            funds_len == info.funds@.len(),
            funds_dv == info.funds.deep_view(),
            deposit_fits(m0, funds_dv),
            m0 == old(store)@.balances,
            store@.config == old(store)@.config,
            store@.balances == credited_all(m0, funds_dv.take(i as int)),
        decreases funds_len - i,
    {
        let coin = &info.funds[i];
        proof {
            assert(funds_dv[i as int] == coin@);
            lemma_deposit_fits_at(m0, funds_dv, i as int);
            lemma_credited_all_step(m0, funds_dv, i as int);
        }
        let denom_pool_balance = store.may_load_balance(coin.denom.as_str());
        let updated = match denom_pool_balance {
            Some(denom_balance) => PoolBalance { amount: denom_balance.amount + coin.amount },
            None => PoolBalance { amount: coin.amount },
        };
        store.save_balance(coin.denom.clone(), updated);
        i += 1;
    }
    proof {
        assert(funds_dv.take(funds_len as int) =~= funds_dv);
    }

    let mut attributes: Vec<Attribute> = Vec::new();
    attributes.push(Attribute::new("action", "deposit"));
    let resp = Response { attributes, messages: Vec::new() };
    proof {
        let (s2, res) = spec_execute_deposit(old(store)@, info@.funds);
        assert(store@ =~~= s2);
        assert(resp@.attributes =~= res->Ok_0.attributes);
        assert(resp@.messages =~= res->Ok_0.messages);
        assert(resp@ =~~= res->Ok_0);
    }
    Ok(resp)
}

/// Reads the full tracked balances of the two requested denominations, in
/// the requested order, and builds one transfer instruction carrying both to
/// `to_addr`; the first denomination without a tracked balance aborts the
/// whole operation.  The destination is passed through unvalidated.
///
/// The tracked balances are not cleared or decremented here: the handler
/// only reads them.  A second withdrawal before the host has recorded the
/// disbursement would therefore emit the same instruction again; zeroing the
/// balances once the transfer is executed is deliberately left as the host's
/// decision.
pub fn execute_withdraw(store: &LedgerStore, denoms: [String; 2], to_addr: String) -> (r: Result<
    Response,
    ContractError,
>)
    ensures
        result_view(r) == spec_execute_withdraw(store@, denoms.deep_view(), to_addr@),
{
    let b0 = match store.may_load_balance(denoms[0].as_str()) {
        Some(b) => b,
        None => {
            return Err(ContractError::InsufficientBalance { denom: denoms[0].clone() });
        },
    };
    let b1 = match store.may_load_balance(denoms[1].as_str()) {
        Some(b) => b,
        None => {
            return Err(ContractError::InsufficientBalance { denom: denoms[1].clone() });
        },
    };
    let mut amount: Vec<Coin> = Vec::new();
    amount.push(Coin { denom: denoms[0].clone(), amount: b0.amount });
    amount.push(Coin { denom: denoms[1].clone(), amount: b1.amount });
    let msg = BankMsg::Send { to_address: to_addr, amount };
    let mut attributes: Vec<Attribute> = Vec::new();
    attributes.push(Attribute::new("action", "withdraw"));
    let mut messages: Vec<BankMsg> = Vec::new();
    messages.push(msg);
    let resp = Response { attributes, messages };
    proof {
        let res = spec_execute_withdraw(store@, denoms.deep_view(), to_addr@);
        assert(resp@.messages[0].amount =~= res->Ok_0.messages[0].amount);
        assert(resp@.messages[0] =~~= res->Ok_0.messages[0]);
        assert(resp@.attributes =~= res->Ok_0.attributes);
        assert(resp@.messages =~~= res->Ok_0.messages);
        assert(resp@ =~~= res->Ok_0);
    }
    Ok(resp)
}

/// The single entry point for operations against an instantiated contract:
/// loads the configuration, rejects any caller but the configured owner with
/// `Unauthorized`, and dispatches to the deposit or withdraw handler.
pub fn execute(store: &mut LedgerStore, info: MessageInfo, msg: ExecuteMsg) -> (r: Result<
    Response,
    ContractError,
>)
    requires
        (old(store)@.config is Some && old(store)@.config->0.owner == info@.sender && msg@
            is Deposit && deposit_verdict(old(store)@.config->0, info@.funds) is Ok)
            ==> deposit_fits(old(store)@.balances, info@.funds),
    ensures
        ({
            let (s2, res) = spec_execute(old(store)@, info@, msg@);
            &&& final(store)@ == s2
            &&& result_view(r) == res
        }),
{
    let is_admin = match sender_is_owner(store, info.sender.as_str()) {
        Ok(b) => b,
        Err(e) => {
            return Err(e);
        },
    };
    if !is_admin {
        return Err(ContractError::Unauthorized {});
    }
    match msg {
        ExecuteMsg::Deposit {} => execute_deposit(store, info),
        ExecuteMsg::Withdraw { denoms, to_addr } => execute_withdraw(store, denoms, to_addr),
    }
}

/// Loads the configuration and reports whether `sender` is the configured
/// owner.  Fails with `StateLoadError` only when the store was never
/// instantiated.
pub fn sender_is_owner(store: &LedgerStore, sender: &str) -> (r: Result<bool, ContractError>)
    ensures
        match store@.config {
            Some(cfg) => r matches Ok(b) && b == (cfg.owner == sender@),
            None => r matches Err(e) && e@ == ContractErrorView::StateLoadError,
        },
{
    let cfg = match store.load_config() {
        Ok(c) => c,
        Err(e) => {
            return Err(e);
        },
    };
    let can = cfg.is_owner(sender);
    Ok(can)
}

/// A denomination appears in the offending list iff some attached coin
/// carries it and it is not a member of the accepted pair.
pub proof fn lemma_unaccepted_denoms_members(cfg: ConfigView, funds: Seq<CoinView>)
    ensures
        forall|d: Seq<char>|
            #[trigger] unaccepted_denoms(cfg, funds).contains(d) <==> (!cfg.accepts(d) && exists|
                i: int,
            |
                0 <= i < funds.len() && funds[i].denom == d),
    decreases funds.len(),
{
    let u = unaccepted_denoms(cfg, funds);
    if funds.len() == 0 {
    } else {
        let prefix = funds.drop_last();
        let last = funds.last();
        lemma_unaccepted_denoms_members(cfg, prefix);
        let rest = unaccepted_denoms(cfg, prefix);
        assert forall|d: Seq<char>|
            #[trigger] u.contains(d) <==> (!cfg.accepts(d) && exists|i: int|
                0 <= i < funds.len() && funds[i].denom == d) by {
            if !cfg.accepts(last.denom) {
                if u.contains(d) {
                    let i = choose|i: int| 0 <= i < u.len() && u[i] == d;
                    if i < rest.len() {
                        assert(rest[i] == d);
                        assert(rest.contains(d));
                    } else {
                        assert(d == last.denom);
                    }
                }
                if rest.contains(d) {
                    let i = choose|i: int| 0 <= i < rest.len() && rest[i] == d;
                    assert(u[i] == d);
                    assert(u.contains(d));
                }
                if d == last.denom {
                    assert(u[u.len() - 1] == d);
                    assert(u.contains(d));
                }
            }
            if exists|i: int| 0 <= i < prefix.len() && prefix[i].denom == d {
                let i = choose|i: int| 0 <= i < prefix.len() && prefix[i].denom == d;
                assert(funds[i].denom == d);
            }
            if last.denom == d {
                assert(funds[funds.len() - 1].denom == d);
            }
            if exists|i: int| 0 <= i < funds.len() && funds[i].denom == d {
                let i = choose|i: int| 0 <= i < funds.len() && funds[i].denom == d;
                if i < funds.len() - 1 {
                    assert(prefix[i].denom == d);
                } else {
                    assert(last.denom == d);
                }
            }
        }
    }
}

/// Idempotent-whitelist law: when two funds entries are attached, the
/// deposit passes validation iff every attached denomination is a member of
/// the accepted pair; any unaccepted denomination makes it fail with
/// `DenomsNotSupported` carrying exactly the offending denominations, in
/// encounter order, and no balance changes.
pub proof fn lemma_whitelist(s: LedgerStoreView, cfg: ConfigView, funds: Seq<CoinView>)
    requires
        s.config == Some(cfg),
        funds.len() == 2,
    ensures
        deposit_verdict(cfg, funds) is Ok <==> (forall|i: int|
            0 <= i < funds.len() ==> cfg.accepts(#[trigger] funds[i].denom)),
        unaccepted_denoms(cfg, funds).len() > 0 ==> spec_execute_deposit(s, funds) == (
            s,
            Err::<ResponseView, ContractErrorView>(
                ContractErrorView::DenomsNotSupported(unaccepted_denoms(cfg, funds)),
            ),
        ),
        forall|d: Seq<char>|
            #[trigger] unaccepted_denoms(cfg, funds).contains(d) <==> (!cfg.accepts(d) && exists|
                i: int,
            |
                0 <= i < funds.len() && funds[i].denom == d),
{
    lemma_unaccepted_denoms_members(cfg, funds);
    let u = unaccepted_denoms(cfg, funds);
    if forall|i: int| 0 <= i < funds.len() ==> cfg.accepts(#[trigger] funds[i].denom) {
        if u.len() > 0 {
            assert(u.contains(u[0]));
            assert(false);
        }
    }
    if deposit_verdict(cfg, funds) is Ok {
        assert forall|i: int| 0 <= i < funds.len() implies cfg.accepts(
            #[trigger] funds[i].denom,
        ) by {
            if !cfg.accepts(funds[i].denom) {
                assert(u.contains(funds[i].denom));
            }
        }
    }
}

/// Cardinality law: a deposit passes validation iff the funds set has
/// exactly two entries, all accepted; zero entries give `NoCoinsSent`, one
/// gives `OnlyTwoAllowed`, more than two give `TooManyCoins`.
pub proof fn lemma_deposit_cardinality(cfg: ConfigView, funds: Seq<CoinView>)
    ensures
        deposit_verdict(cfg, funds) is Ok <==> (funds.len() == 2 && unaccepted_denoms(
            cfg,
            funds,
        ).len() == 0),
        funds.len() == 0 ==> deposit_verdict(cfg, funds) == Err::<(), ContractErrorView>(
            ContractErrorView::NoCoinsSent,
        ),
        funds.len() == 1 ==> deposit_verdict(cfg, funds) == Err::<(), ContractErrorView>(
            ContractErrorView::OnlyTwoAllowed,
        ),
        funds.len() > 2 ==> deposit_verdict(cfg, funds) == Err::<(), ContractErrorView>(
            ContractErrorView::TooManyCoins,
        ),
{
}

/// Accumulation law: booking amount `a` and then amount `b` of one
/// denomination raises its tracked balance by exactly `a + b`, and the two
/// orders leave identical balances.
pub proof fn lemma_accumulation(m: Map<Seq<char>, u128>, denom: Seq<char>, a: u128, b: u128)
    requires
        balance_in(m, denom) + a + b <= u128::MAX,
    ensures
        balance_in(credited(credited(m, denom, a), denom, b), denom) == balance_in(m, denom) + a
            + b,
        credited(credited(m, denom, a), denom, b) == credited(credited(m, denom, b), denom, a),
{
    assert(credited(credited(m, denom, a), denom, b) =~= credited(
        credited(m, denom, b),
        denom,
        a,
    ));
}

/// Bookings of two distinct denominations commute.
pub proof fn lemma_credited_commutes(
    m: Map<Seq<char>, u128>,
    d0: Seq<char>,
    a: u128,
    d1: Seq<char>,
    b: u128,
)
    requires
        d0 != d1,
    ensures
        credited(credited(m, d0, a), d1, b) == credited(credited(m, d1, b), d0, a),
{
    assert(credited(credited(m, d0, a), d1, b) =~= credited(credited(m, d1, b), d0, a));
}

/// Booking a two-coin deposit is one [`credited`] application per coin, in
/// encounter order.
proof fn lemma_credited_all_two(m: Map<Seq<char>, u128>, funds: Seq<CoinView>)
    requires
        funds.len() == 2,
    ensures
        credited_all(m, funds) == credited(
            credited(m, funds[0].denom, funds[0].amount),
            funds[1].denom,
            funds[1].amount,
        ),
{
    let p = funds.drop_last();
    assert(p.len() == 1);
    assert(p.drop_last() =~= Seq::<CoinView>::empty());
    assert(credited_all(m, p.drop_last()) == m);
    assert(p.last() == funds[0]);
    assert(funds.last() == funds[1]);
    assert(credited_all(m, p) == credited(m, funds[0].denom, funds[0].amount));
    assert(funds.drop_last() == p);
}

/// Accumulation law at the deposit level: a successful two-coin deposit
/// grows each deposited denomination's tracked balance by exactly what was
/// deposited for it — by the sum of both amounts when the two coins share
/// one denomination — and touches no other denomination.
pub proof fn lemma_deposit_balances(m: Map<Seq<char>, u128>, funds: Seq<CoinView>)
    requires
        funds.len() == 2,
        deposit_fits(m, funds),
    ensures
        funds[0].denom != funds[1].denom ==> balance_in(credited_all(m, funds), funds[0].denom)
            == balance_in(m, funds[0].denom) + funds[0].amount,
        balance_in(credited_all(m, funds), funds[1].denom) == balance_in(m, funds[1].denom) + (
        if funds[0].denom == funds[1].denom {
            funds[0].amount as int
        } else {
            0
        }) + funds[1].amount,
        forall|d: Seq<char>|
            d != funds[0].denom && d != funds[1].denom ==> balance_in(
                #[trigger] credited_all(m, funds),
                d,
            ) == balance_in(m, d),
{
    lemma_credited_all_two(m, funds);
    lemma_deposit_fits_at(m, funds, 0);
    lemma_deposit_fits_at(m, funds, 1);
    assert(funds.take(0) =~= Seq::<CoinView>::empty());
    assert(credited_all(m, funds.take(0)) == m);
    lemma_credited_all_step(m, funds, 0);
}

/// Access law: with a configuration present, any operation invoked by a
/// caller other than the configured owner fails with `Unauthorized` and
/// leaves the store unchanged, whatever the request was.
pub proof fn lemma_non_owner_rejected(
    s: LedgerStoreView,
    cfg: ConfigView,
    info: MessageInfoView,
    msg: ExecuteMsgView,
)
    requires
        s.config == Some(cfg),
        info.sender != cfg.owner,
    ensures
        spec_execute(s, info, msg) == (
            s,
            Err::<ResponseView, ContractErrorView>(ContractErrorView::Unauthorized),
        ),
{
}

/// Withdrawal-completeness law: the first requested denomination without a
/// tracked balance, in the requested order, decides the error; with both
/// present, exactly one transfer instruction is emitted, carrying both full
/// tracked balances to the destination.
pub proof fn lemma_withdraw_completeness(
    s: LedgerStoreView,
    denoms: Seq<Seq<char>>,
    to_addr: Seq<char>,
)
    requires
        denoms.len() == 2,
    ensures
        !s.balances.contains_key(denoms[0]) ==> spec_execute_withdraw(s, denoms, to_addr)
            == Err::<ResponseView, ContractErrorView>(
            ContractErrorView::InsufficientBalance(denoms[0]),
        ),
        s.balances.contains_key(denoms[0]) && !s.balances.contains_key(denoms[1])
            ==> spec_execute_withdraw(s, denoms, to_addr) == Err::<
            ResponseView,
            ContractErrorView,
        >(ContractErrorView::InsufficientBalance(denoms[1])),
        s.balances.contains_key(denoms[0]) && s.balances.contains_key(denoms[1]) ==> ({
            let res = spec_execute_withdraw(s, denoms, to_addr);
            &&& res is Ok
            &&& res->Ok_0.messages.len() == 1
            &&& res->Ok_0.messages[0].to_address == to_addr
            &&& res->Ok_0.messages[0].amount.len() == 2
            &&& res->Ok_0.messages[0].amount[0].denom == denoms[0]
            &&& res->Ok_0.messages[0].amount[0].amount == s.balances[denoms[0]]
            &&& res->Ok_0.messages[0].amount[1].denom == denoms[1]
            &&& res->Ok_0.messages[0].amount[1].amount == s.balances[denoms[1]]
        }),
{
}

} // verus!
