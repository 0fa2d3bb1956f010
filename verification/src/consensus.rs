//! What successful traders hold, beside the watched positions.

use crate::lists::{count_where, lemma_count_step, lemma_picked_step, picked};
use crate::position::{
    find_token, first_of_token, lemma_first_of_token, models, ConsensusData, ConsensusSnapshot, TrackedPosition,
};
use crate::scanner::CONSENSUS_MAX_AGE_MS;
use vstd::prelude::*;

verus! {

/// A trader of a market.
#[derive(Debug)]
pub struct ConsensusTrader {
    pub outcome: String,
    pub is_arbitrage: bool,
}

/// The market part of a consensus reply.  The fields that end in `bits` hold
/// floating-point numbers by their bit patterns.
#[derive(Debug)]
pub struct ConsensusMarket {
    pub consensus_pct: i32,
    pub top_trader_count: i32,
    pub active_trader_count: i32,
    pub total_value_bits: u64,
    pub outcome_probability_bits: Vec<u64>,
    pub top_traders: Vec<ConsensusTrader>,
}

/// The signal part of a consensus reply.
#[derive(Debug)]
pub struct ConsensusMlSignal {
    pub signal: String,
    pub edge_bits: u64,
    pub confidence_label: String,
    pub risk_score_bits: u64,
}

/// Whether a trader counts for an outcome: those who only arbitrage do not.
pub open spec fn counts_for(outcome: Seq<char>) -> spec_fn(ConsensusTrader) -> bool {
    |t: ConsensusTrader| t.outcome@ == outcome && !t.is_arbitrage
}

/// Counts the traders for an outcome.
fn count_traders(traders: &Vec<ConsensusTrader>, outcome: &str) -> (r: i32)
    requires
        traders@.len() <= i32::MAX,
    ensures
        r == count_where(traders@, counts_for(outcome@)),
{
    let wanted = outcome.to_owned();
    let ghost p = counts_for(outcome@);
    let mut count: i32 = 0;
    let mut i: usize = 0;
    proof {
        assert(traders@.take(0) =~= Seq::empty());
    }
    while i < traders.len()
        invariant
            i <= traders@.len() <= i32::MAX,
            wanted@ == outcome@,
            p == counts_for(outcome@),
            count == count_where(traders@.take(i as int), p),
            count <= i,
        decreases traders@.len() - i,
    {
        proof {
            lemma_count_step(traders@, p, i as int);
        }
        if traders[i].outcome == wanted && !traders[i].is_arbitrage {
            count += 1;
        }
        i += 1;
    }
    proof {
        assert(traders@.take(i as int) =~= traders@);
    }
    count
}

/// The bit pattern of the number zero.
pub const ZERO_BITS: u64 = 0;

/// Makes the figures from a reply.  A missing market counts as an empty one, and
/// a missing signal as none.
pub fn consensus_snapshot(
    market: &Option<ConsensusMarket>,
    ml_signal: &Option<ConsensusMlSignal>,
    now_ms: u64,
) -> (r: ConsensusSnapshot)
    requires
        market matches Some(m) ==> m.top_traders@.len() <= i32::MAX,
    ensures
        r.timestamp_ms == now_ms,
        match *market {
            Some(m) => {
                &&& r.consensus_pct == m.consensus_pct
                &&& r.top_trader_count == m.top_trader_count
                &&& r.active_trader_count == m.active_trader_count
                &&& r.total_value_bits == m.total_value_bits
                &&& r.yes_count == count_where(m.top_traders@, counts_for("Yes"@))
                &&& r.no_count == count_where(m.top_traders@, counts_for("No"@))
                &&& r.market_prob_bits == (if m.outcome_probability_bits@.len() > 0 {
                    m.outcome_probability_bits@[0]
                } else {
                    ZERO_BITS
                })
            },
            None => {
                &&& r.consensus_pct == 0
                &&& r.top_trader_count == 0
                &&& r.active_trader_count == 0
                &&& r.total_value_bits == ZERO_BITS
                &&& r.yes_count == 0
                &&& r.no_count == 0
                &&& r.market_prob_bits == ZERO_BITS
            },
        },
        match *ml_signal {
            Some(s) => {
                &&& r.ml_signal == s.signal
                &&& r.ml_edge_bits == s.edge_bits
                &&& r.ml_confidence == s.confidence_label
                &&& r.ml_risk_bits == s.risk_score_bits
            },
            None => {
                &&& r.ml_signal@ == "N/A"@
                &&& r.ml_edge_bits == ZERO_BITS
                &&& r.ml_confidence@ == "none"@
                &&& r.ml_risk_bits == ZERO_BITS
            },
        },
{
    let mut snapshot = ConsensusSnapshot {
        consensus_pct: 0,
        yes_count: 0,
        no_count: 0,
        total_value_bits: ZERO_BITS,
        market_prob_bits: ZERO_BITS,
        ml_signal: "N/A".to_owned(),
        ml_edge_bits: ZERO_BITS,
        ml_confidence: "none".to_owned(),
        ml_risk_bits: ZERO_BITS,
        top_trader_count: 0,
        active_trader_count: 0,
        timestamp_ms: now_ms,
    };
    if let Some(m) = market {
        snapshot.consensus_pct = m.consensus_pct;
        snapshot.top_trader_count = m.top_trader_count;
        snapshot.active_trader_count = m.active_trader_count;
        snapshot.total_value_bits = m.total_value_bits;
        snapshot.yes_count = count_traders(&m.top_traders, "Yes");
        snapshot.no_count = count_traders(&m.top_traders, "No");
        if m.outcome_probability_bits.len() > 0 {
            snapshot.market_prob_bits = m.outcome_probability_bits[0];
        }
    }
    if let Some(s) = ml_signal {
        snapshot.ml_signal = s.signal.clone();
        snapshot.ml_edge_bits = s.edge_bits;
        snapshot.ml_confidence = s.confidence_label.clone();
        snapshot.ml_risk_bits = s.risk_score_bits;
    }
    snapshot
}

/// Whether the figures are due: there are none for the first position, or they
/// are too old.
pub fn should_fetch_consensus(positions: &Vec<TrackedPosition>, now_ms: u64) -> (r: bool)
    ensures
        r == (positions@.len() > 0 && positions@[0].consensus is Some ==> now_ms
            >= positions@[0].consensus->0.current.timestamp_ms + CONSENSUS_MAX_AGE_MS),
        r == (positions@.len() > 0 && positions@[0].consensus is Some ==> now_ms
            >= positions@[0].consensus->0.current.timestamp_ms + 55_000),
{
    if positions.len() == 0 {
        return true;
    }
    match &positions[0].consensus {
        Some(data) => now_ms >= data.current.timestamp_ms && now_ms - data.current.timestamp_ms
            >= CONSENSUS_MAX_AGE_MS,
        None => true,
    }
}

/// The token and the market of a watched position whose market is known.
pub open spec fn market_of_watched() -> spec_fn(int, TrackedPosition) -> Option<(String, String)> {
    |i: int, p: TrackedPosition|
        if p.status is Active && p.condition_id@.len() > 0 {
            Some((p.token_id, p.condition_id))
        } else {
            None
        }
}

/// The tokens and markets whose figures are to be fetched.
pub fn positions_for_consensus(positions: &Vec<TrackedPosition>) -> (r: Vec<(String, String)>)
    ensures
        r@ == picked(positions@, market_of_watched()),
{
    let ghost pick = market_of_watched();
    let mut out: Vec<(String, String)> = Vec::new();
    let mut i: usize = 0;
    proof {
        assert(positions@.take(0) =~= Seq::empty());
    }
    while i < positions.len()
        invariant
            i <= positions@.len(),
            pick == market_of_watched(),
            out@ == picked(positions@.take(i as int), pick),
        decreases positions@.len() - i,
    {
        proof {
            lemma_picked_step(positions@, pick, i as int);
        }
        let p = &positions[i];
        if p.status.is_active() && !p.condition_id.as_str().is_empty() {
            out.push((p.token_id.clone(), p.condition_id.clone()));
        }
        i += 1;
    }
    proof {
        assert(positions@.take(i as int) =~= positions@);
    }
    out
}

/// Whether the first position of a token has no figures yet.
pub open spec fn lacks_figures(positions: Seq<TrackedPosition>, token: Seq<char>) -> bool {
    match first_of_token(models(positions), token) {
        Some(i) => positions[i].consensus is None,
        None => false,
    }
}

/// Looks whether the first position of a token has no figures yet.
pub fn needs_entry_figures(positions: &Vec<TrackedPosition>, token: &String) -> (r: bool)
    ensures
        r == lacks_figures(positions@, token@),
{
    match find_token(positions, token) {
        Some(i) => positions[i].consensus.is_none(),
        None => false,
    }
}

/// The positions once figures of a token have come.  The first time the entry
/// figures are those stored, or the current ones where none are; later only the
/// current figures change.
pub open spec fn with_figures(
    positions: Seq<TrackedPosition>,
    token: Seq<char>,
    current: ConsensusSnapshot,
    stored_entry: Option<ConsensusSnapshot>,
) -> Seq<TrackedPosition> {
    match first_of_token(models(positions), token) {
        Some(i) => positions.update(
            i,
            TrackedPosition {
                consensus: Some(
                    match positions[i].consensus {
                        None => ConsensusData {
                            entry: match stored_entry {
                                Some(e) => e,
                                None => current,
                            },
                            current,
                        },
                        Some(data) => ConsensusData { entry: data.entry, current },
                    },
                ),
                ..positions[i]
            },
        ),
        None => positions,
    }
}

/// Takes in figures of a token.  The entry figures to be stored are handed back
/// where the position had none.
pub fn apply_consensus(
    positions: &mut Vec<TrackedPosition>,
    token: &String,
    current: ConsensusSnapshot,
    stored_entry: Option<ConsensusSnapshot>,
) -> (r: Option<ConsensusSnapshot>)
    ensures
        final(positions)@ == with_figures(old(positions)@, token@, current, stored_entry),
        r == (if lacks_figures(old(positions)@, token@) {
            Some(
                match stored_entry {
                    Some(e) => e,
                    None => current,
                },
            )
        } else {
            None
        }),
{
    match find_token(positions, token) {
        Some(i) => {
            let known_entry = match &positions[i].consensus {
                Some(data) => Some(data.entry.duplicate()),
                None => None,
            };
            match known_entry {
                Some(entry) => {
                    positions[i].consensus = Some(ConsensusData { entry, current });
                    assert(positions@ =~= with_figures(
                        old(positions)@,
                        token@,
                        current,
                        stored_entry,
                    ));
                    None
                },
                None => {
                    let entry = match stored_entry {
                        Some(e) => e,
                        None => current.duplicate(),
                    };
                    let to_store = entry.duplicate();
                    positions[i].consensus = Some(ConsensusData { entry, current });
                    assert(positions@ =~= with_figures(
                        old(positions)@,
                        token@,
                        current,
                        stored_entry,
                    ));
                    Some(to_store)
                },
            }
        },
        None => None,
    }
}

/// Entry figures never change once a position has them.
pub proof fn law_entry_figures_are_kept(
    positions: Seq<TrackedPosition>,
    token: Seq<char>,
    current: ConsensusSnapshot,
    stored_entry: Option<ConsensusSnapshot>,
    i: int,
)
    requires
        0 <= i < positions.len(),
        positions[i].consensus is Some,
    ensures
        with_figures(positions, token, current, stored_entry)[i].consensus is Some,
        with_figures(positions, token, current, stored_entry)[i].consensus->0.entry
            == positions[i].consensus->0.entry,
{
    lemma_first_of_token(models(positions), token);
}

/// A trader counts for an outcome exactly where they hold it and do not only
/// arbitrage.
pub proof fn law_arbitrage_does_not_count(t: ConsensusTrader, outcome: Seq<char>)
    ensures
        counts_for(outcome)(t) <==> t.outcome@ == outcome && !t.is_arbitrage,
{
}

/// Figures are fetched for every watched position whose market is known, by its
/// token and market, and for no other.
pub proof fn law_figures_are_fetched_for_watched_markets(p: TrackedPosition, i: int)
    ensures
        p.status is Active && p.condition_id@.len() > 0 ==> market_of_watched()(i, p) == Some(
            (p.token_id, p.condition_id),
        ),
        !(p.status is Active) || p.condition_id@.len() == 0 ==> market_of_watched()(i, p) is None,
{
}

/// Figures go to the first position of their token and to no other.  The first
/// that come are its entry figures, unless some are stored; later ones change the
/// current figures only.  Nothing else of a position changes.
pub proof fn law_figures_go_to_the_first_of_their_token(
    positions: Seq<TrackedPosition>,
    token: Seq<char>,
    current: ConsensusSnapshot,
    stored_entry: Option<ConsensusSnapshot>,
    i: int,
)
    requires
        0 <= i < positions.len(),
    ensures
        ({
            let after = with_figures(positions, token, current, stored_entry);
            let is_first = positions[i].token_id@ == token && (forall|j: int|
                0 <= j < i ==> (#[trigger] positions[j]).token_id@ != token);
            &&& after.len() == positions.len()
            &&& !is_first ==> after[i] == positions[i]
            &&& is_first ==> {
                &&& after[i] == (TrackedPosition { consensus: after[i].consensus, ..positions[i] })
                &&& after[i].consensus is Some
                &&& after[i].consensus->0.current == current
                &&& positions[i].consensus matches Some(data) ==> after[i].consensus->0.entry
                    == data.entry
                &&& positions[i].consensus is None && stored_entry is Some
                    ==> after[i].consensus->0.entry == stored_entry->0
                &&& positions[i].consensus is None && stored_entry is None
                    ==> after[i].consensus->0.entry == current
            }
            &&& is_first ==> (lacks_figures(positions, token) <==> positions[i].consensus is None)
        }),
{
    lemma_first_of_token(models(positions), token);
    assert forall|j: int| 0 <= j < positions.len() implies (#[trigger] models(
        positions,
    )[j]).token_id == positions[j].token_id@ by {}
    if positions[i].token_id@ == token {
        assert(models(positions)[i].token_id == token);
        if exists|j: int| 0 <= j < i && (#[trigger] positions[j]).token_id@ == token {
            let j = choose|j: int| 0 <= j < i && (#[trigger] positions[j]).token_id@ == token;
            assert(models(positions)[j].token_id == token);
        }
    }
}

/// A token without a position lacks no figures, and figures of it change nothing.
pub proof fn law_figures_of_unknown_tokens_are_dropped(
    positions: Seq<TrackedPosition>,
    token: Seq<char>,
    current: ConsensusSnapshot,
    stored_entry: Option<ConsensusSnapshot>,
)
    requires
        forall|j: int| 0 <= j < positions.len() ==> (#[trigger] positions[j]).token_id@ != token,
    ensures
        with_figures(positions, token, current, stored_entry) == positions,
        !lacks_figures(positions, token),
{
    lemma_first_of_token(models(positions), token);
    assert forall|j: int| 0 <= j < positions.len() implies (#[trigger] models(
        positions,
    )[j]).token_id == positions[j].token_id@ by {}
}

} // verus!
