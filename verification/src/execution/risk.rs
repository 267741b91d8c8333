//! The risk guard of the paper runner: the checks that stand between an
//! eligible signal and a paper order, in the order they are applied.
use vstd::prelude::*;

use crate::events::Binary64;
use crate::text::{decimal, decimal_text, owned, same_text, strs};

verus! {

/// Limits on paper trading; amounts travel as binary64 encodings.
#[derive(Debug, Clone, PartialEq, Eq)]
pub struct PaperRiskGuardConfig {
    pub max_open_positions: Option<usize>,
    pub max_total_notional_exposure: Option<Binary64>,
    pub max_exposure_per_market: Option<Binary64>,
    pub max_orders_per_market: Option<usize>,
    pub block_same_market_same_outcome_if_open: bool,
}

impl Default for PaperRiskGuardConfig {
    fn default() -> (r: Self)
        ensures
            r.max_open_positions is None,
            r.max_total_notional_exposure is None,
            r.max_exposure_per_market is None,
            r.max_orders_per_market is None,
            !r.block_same_market_same_outcome_if_open,
    {
        PaperRiskGuardConfig {
            max_open_positions: None,
            max_total_notional_exposure: None,
            max_exposure_per_market: None,
            max_orders_per_market: None,
            block_same_market_same_outcome_if_open: false,
        }
    }
}

#[derive(Debug, Clone, Copy, PartialEq, Eq, Structural)]
pub enum PaperRiskGuardDecision {
    Allowed,
    BlockedMaxOpenPositions,
    BlockedMaxTotalExposure,
    BlockedMarketExposure,
    BlockedDuplicateMarketOutcome,
    BlockedMarketOrderLimit,
}

#[derive(Debug, Clone, PartialEq, Eq)]
pub struct PaperRiskGuardOutcome {
    pub decision: PaperRiskGuardDecision,
    pub reason: Option<String>,
}

/// What the guard reads of the paper book for one request: the open positions
/// as (market, outcome) pairs, the market of each paper order, and the verdict
/// of each exposure limit on the projected exposure (the reason text when the
/// limit is exceeded). The exposures are sums of binary64 amounts and are
/// compared where they are computed.
#[derive(Debug, Clone, PartialEq, Eq)]
pub struct PaperRiskFacts {
    pub open_positions: Vec<(String, String)>,
    pub order_markets: Vec<String>,
    pub total_exposure_exceeded: Option<String>,
    pub market_exposure_exceeded: Option<String>,
}

pub struct PaperRiskFactsView {
    pub open_positions: Seq<(Seq<char>, Seq<char>)>,
    pub order_markets: Seq<Seq<char>>,
    pub total_exposure_exceeded: Option<Seq<char>>,
    pub market_exposure_exceeded: Option<Seq<char>>,
}

impl View for PaperRiskFacts {
    type V = PaperRiskFactsView;

    open spec fn view(&self) -> PaperRiskFactsView {
        PaperRiskFactsView {
            open_positions: self.open_positions@.map_values(|p: (String, String)| (p.0@, p.1@)),
            order_markets: strs(self.order_markets@),
            total_exposure_exceeded: crate::text::opt_view(self.total_exposure_exceeded),
            market_exposure_exceeded: crate::text::opt_view(self.market_exposure_exceeded),
        }
    }
}

pub struct PaperRiskGuardOutcomeView {
    pub decision: PaperRiskGuardDecision,
    pub reason: Option<Seq<char>>,
}

impl View for PaperRiskGuardOutcome {
    type V = PaperRiskGuardOutcomeView;

    open spec fn view(&self) -> PaperRiskGuardOutcomeView {
        PaperRiskGuardOutcomeView { decision: self.decision, reason: crate::text::opt_view(self.reason) }
    }
}

pub open spec fn has_open_position(open: Seq<(Seq<char>, Seq<char>)>, market: Seq<char>, outcome: Seq<char>) -> bool {
    open.contains((market, outcome))
}

/// How many paper orders are on a market.
pub open spec fn orders_on(markets: Seq<Seq<char>>, market: Seq<char>) -> nat
    decreases markets.len(),
{
    if markets.len() == 0 {
        0
    } else {
        orders_on(markets.drop_last(), market) + if markets.last() == market {
            1nat
        } else {
            0nat
        }
    }
}

pub open spec fn blocked_with(d: PaperRiskGuardDecision, reason: Seq<char>) -> PaperRiskGuardOutcomeView {
    PaperRiskGuardOutcomeView { decision: d, reason: Some(reason) }
}

/// What the guard decides: open positions first, then total exposure, market
/// exposure, an open position on the same market and outcome, and the number
/// of orders on the market; the first limit hit blocks the request.
pub open spec fn risk_verdict(
    facts: PaperRiskFactsView,
    market: Seq<char>,
    outcome: Seq<char>,
    config: PaperRiskGuardConfig,
) -> PaperRiskGuardOutcomeView {
    let open = facts.open_positions;
    let has_open = has_open_position(open, market, outcome);
    let orders = orders_on(facts.order_markets, market);
    if config.max_open_positions is Some && !has_open && open.len() >= config.max_open_positions->0 {
        blocked_with(
            PaperRiskGuardDecision::BlockedMaxOpenPositions,
            "open_positions="@ + decimal(open.len()) + " max_open_positions="@ + decimal(
                config.max_open_positions->0 as nat,
            ),
        )
    } else if config.max_total_notional_exposure is Some && facts.total_exposure_exceeded is Some {
        blocked_with(PaperRiskGuardDecision::BlockedMaxTotalExposure, facts.total_exposure_exceeded->0)
    } else if config.max_exposure_per_market is Some && facts.market_exposure_exceeded is Some {
        blocked_with(PaperRiskGuardDecision::BlockedMarketExposure, facts.market_exposure_exceeded->0)
    } else if config.block_same_market_same_outcome_if_open && has_open {
        blocked_with(
            PaperRiskGuardDecision::BlockedDuplicateMarketOutcome,
            "open position already exists for market="@ + market + " outcome="@ + outcome,
        )
    } else if config.max_orders_per_market is Some && orders >= config.max_orders_per_market->0 {
        blocked_with(
            PaperRiskGuardDecision::BlockedMarketOrderLimit,
            "orders_for_market="@ + decimal(orders) + " max_orders_per_market="@ + decimal(
                config.max_orders_per_market->0 as nat,
            ),
        )
    } else {
        PaperRiskGuardOutcomeView { decision: PaperRiskGuardDecision::Allowed, reason: None }
    }
}

fn open_position_on(open: &Vec<(String, String)>, market: &str, outcome: &str) -> (r: bool)
    ensures
        r == has_open_position(open@.map_values(|p: (String, String)| (p.0@, p.1@)), market@, outcome@),
{
    let ghost v = open@.map_values(|p: (String, String)| (p.0@, p.1@));
    let mut i: usize = 0;
    while i < open.len()
        invariant
            i <= open.len(),
            v == open@.map_values(|p: (String, String)| (p.0@, p.1@)),
            forall|j: int| 0 <= j < i ==> v[j] != (market@, outcome@),
        decreases open.len() - i,
    {
        if same_text(open[i].0.as_str(), market) && same_text(open[i].1.as_str(), outcome) {
            proof {
                assert(v[i as int] == (market@, outcome@));
            }
            return true;
        }
        i = i + 1;
    }
    false
}

fn count_orders_on(markets: &Vec<String>, market: &str) -> (r: usize)
    ensures
        r == orders_on(strs(markets@), market@),
{
    let ghost v = strs(markets@);
    let mut n: usize = 0;
    let mut i: usize = 0;
    proof {
        assert(v.take(0) =~= Seq::<Seq<char>>::empty());
    }
    while i < markets.len()
        invariant
            i <= markets.len(),
            v == strs(markets@),
            n == orders_on(v.take(i as int), market@),
            n <= i,
        decreases markets.len() - i,
    {
        proof {
            assert(v.take(i as int + 1).drop_last() =~= v.take(i as int));
        }
        if same_text(markets[i].as_str(), market) {
            n = n + 1;
        }
        i = i + 1;
    }
    proof {
        assert(v.take(markets.len() as int) =~= v);
    }
    n
}

/// Applies the guard's checks to a request for `market` and `outcome`.
pub fn evaluate_paper_risk_checks(
    facts: &PaperRiskFacts,
    market: &str,
    outcome: &str,
    config: &PaperRiskGuardConfig,
) -> (r: PaperRiskGuardOutcome)
    ensures
        r@ == risk_verdict(facts@, market@, outcome@, *config),
{
    let has_open = open_position_on(&facts.open_positions, market, outcome);
    let orders = count_orders_on(&facts.order_markets, market);
    let open_count = facts.open_positions.len();
    match config.max_open_positions {
        Some(limit) => {
            if !has_open && open_count >= limit {
                let mut m = owned("open_positions=");
                let a = decimal_text(open_count);
                m.append(a.as_str());
                m.append(" max_open_positions=");
                let b = decimal_text(limit);
                m.append(b.as_str());
                return PaperRiskGuardOutcome {
                    decision: PaperRiskGuardDecision::BlockedMaxOpenPositions,
                    reason: Some(m),
                };
            }
        },
        None => {},
    }
    if config.max_total_notional_exposure.is_some() {
        match &facts.total_exposure_exceeded {
            Some(t) => {
                return PaperRiskGuardOutcome {
                    decision: PaperRiskGuardDecision::BlockedMaxTotalExposure,
                    reason: Some(t.clone()),
                };
            },
            None => {},
        }
    }
    if config.max_exposure_per_market.is_some() {
        match &facts.market_exposure_exceeded {
            Some(t) => {
                return PaperRiskGuardOutcome {
                    decision: PaperRiskGuardDecision::BlockedMarketExposure,
                    reason: Some(t.clone()),
                };
            },
            None => {},
        }
    }
    if config.block_same_market_same_outcome_if_open && has_open {
        let mut m = owned("open position already exists for market=");
        m.append(market);
        m.append(" outcome=");
        m.append(outcome);
        return PaperRiskGuardOutcome {
            decision: PaperRiskGuardDecision::BlockedDuplicateMarketOutcome,
            reason: Some(m),
        };
    }
    match config.max_orders_per_market {
        Some(limit) => {
            if orders >= limit {
                let mut m = owned("orders_for_market=");
                let a = decimal_text(orders);
                m.append(a.as_str());
                m.append(" max_orders_per_market=");
                let b = decimal_text(limit);
                m.append(b.as_str());
                return PaperRiskGuardOutcome {
                    decision: PaperRiskGuardDecision::BlockedMarketOrderLimit,
                    reason: Some(m),
                };
            }
        },
        None => {},
    }
    PaperRiskGuardOutcome { decision: PaperRiskGuardDecision::Allowed, reason: None }
}

/// A request the guard allows carries no reason; one it blocks always does.
pub proof fn lemma_blocked_requests_carry_a_reason(
    facts: PaperRiskFactsView,
    market: Seq<char>,
    outcome: Seq<char>,
    config: PaperRiskGuardConfig,
)
    ensures
        (risk_verdict(facts, market, outcome, config).decision == PaperRiskGuardDecision::Allowed)
            <==> risk_verdict(facts, market, outcome, config).reason is None,
{
}

/// With no limit configured the guard allows every request.
pub proof fn lemma_unlimited_guard_allows(facts: PaperRiskFactsView, market: Seq<char>, outcome: Seq<char>)
    ensures
        risk_verdict(
            facts,
            market,
            outcome,
            PaperRiskGuardConfig {
                max_open_positions: None,
                max_total_notional_exposure: None,
                max_exposure_per_market: None,
                max_orders_per_market: None,
                block_same_market_same_outcome_if_open: false,
            },
        ).decision == PaperRiskGuardDecision::Allowed,
{
}


/// The max-open-positions limit counts only new positions: a request on a
/// market and outcome already held is never blocked by it, and a request that
/// would open a new position when the open positions have reached the limit
/// always is.
pub proof fn lemma_open_limit_counts_new_positions(
    facts: PaperRiskFactsView,
    market: Seq<char>,
    outcome: Seq<char>,
    config: PaperRiskGuardConfig,
)
    ensures
        (exists|i: int| 0 <= i < facts.open_positions.len() && facts.open_positions[i] == (market, outcome))
            ==> risk_verdict(facts, market, outcome, config).decision != PaperRiskGuardDecision::BlockedMaxOpenPositions,
        (forall|i: int| 0 <= i < facts.open_positions.len() ==> facts.open_positions[i] != (market, outcome))
            && config.max_open_positions is Some && facts.open_positions.len() >= config.max_open_positions->0 ==> risk_verdict(
            facts,
            market,
            outcome,
            config,
        ).decision == PaperRiskGuardDecision::BlockedMaxOpenPositions,
        risk_verdict(facts, market, outcome, config).decision == PaperRiskGuardDecision::BlockedMaxOpenPositions ==> (
        config.max_open_positions is Some && facts.open_positions.len() >= config.max_open_positions->0),
{
    if exists|i: int| 0 <= i < facts.open_positions.len() && facts.open_positions[i] == (market, outcome) {
        let i = choose|i: int| 0 <= i < facts.open_positions.len() && facts.open_positions[i] == (market, outcome);
        assert(facts.open_positions.contains((market, outcome)));
    }
}


proof fn lemma_orders_on_counts(markets: Seq<Seq<char>>, market: Seq<char>)
    ensures
        orders_on(markets, market) == markets.filter(|m: Seq<char>| m == market).len(),
    decreases markets.len(),
{
    reveal(Seq::filter);
    if markets.len() > 0 {
        lemma_orders_on_counts(markets.drop_last(), market);
    }
}

/// The guard allows a request exactly when no configured limit is hit: the
/// open positions are under their limit or the request adds to a position
/// already held; no exposure limit that is set was exceeded; no position is
/// open on the same market and outcome when that blocks; and the orders on the
/// market are under their limit. Only an allowed request has no reason.
pub proof fn lemma_allowed_when_no_limit_is_hit(
    facts: PaperRiskFactsView,
    market: Seq<char>,
    outcome: Seq<char>,
    config: PaperRiskGuardConfig,
)
    ensures
        (risk_verdict(facts, market, outcome, config).decision == PaperRiskGuardDecision::Allowed) <==> {
            let held = exists|i: int| 0 <= i < facts.open_positions.len() && facts.open_positions[i] == (market, outcome);
            let orders = facts.order_markets.filter(|m: Seq<char>| m == market).len();
            &&& (config.max_open_positions is Some && !held ==> facts.open_positions.len()
                < config.max_open_positions->0)
            &&& (config.max_total_notional_exposure is Some ==> facts.total_exposure_exceeded is None)
            &&& (config.max_exposure_per_market is Some ==> facts.market_exposure_exceeded is None)
            &&& !(config.block_same_market_same_outcome_if_open && held)
            &&& (config.max_orders_per_market is Some ==> orders < config.max_orders_per_market->0)
        },
        (risk_verdict(facts, market, outcome, config).reason is None) <==> (risk_verdict(
            facts,
            market,
            outcome,
            config,
        ).decision == PaperRiskGuardDecision::Allowed),
{
    lemma_orders_on_counts(facts.order_markets, market);
    if exists|i: int| 0 <= i < facts.open_positions.len() && facts.open_positions[i] == (market, outcome) {
        let i = choose|i: int| 0 <= i < facts.open_positions.len() && facts.open_positions[i] == (market, outcome);
        assert(facts.open_positions.contains((market, outcome)));
    }
}

} // verus!
