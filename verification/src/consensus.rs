//! Multi-exchange consensus rules that do not touch prices: the
//! exchange/symbol weight keys, the regime tally across exchanges, the BTC
//! context rule and the latch that keeps a symbol's consensus side from
//! flapping.
use vstd::prelude::*;
use vstd::string::*;
use crate::keyed::KeyedStore;
use crate::text::{ascii_lower, chars_eq, chars_eq_str, chars_of, lower_chars};

verus! {

/// Cycles a new side must be observed before the latch switches to it.
pub const CONSENSUS_SIDE_CONFIRMATION_CYCLES: u8 = 2;

/// `exchange:symbol`, the key of the analytics weights.
pub fn score_key(exchange: &str, symbol: &str) -> (r: String)
    ensures
        r@ == exchange@ + ":"@ + symbol@,
{
    let mut r = String::from_str(exchange);
    r.append(":");
    r.append(symbol);
    r
}

/// A consensus needs at least one exchange signal: with none, the error
/// `no exchange signal available for <symbol>`.
pub fn require_exchange_signals(symbol: &str, count: usize) -> (r: Result<(), String>)
    ensures
        count > 0 <==> r is Ok,
        r matches Err(m) ==> m@ == "no exchange signal available for "@ + symbol@,
{
    if count == 0 {
        let mut m = String::from_str("no exchange signal available for ");
        m.append(symbol);
        Err(m)
    } else {
        Ok(())
    }
}

/// Weights per `exchange:symbol` key, with `exchange:*` as the exchange-wide
/// entry.
pub struct ScoreWeights<W> {
    pub store: KeyedStore<W>,
}

impl<W: Copy> ScoreWeights<W> {
    pub open spec fn wf(&self) -> bool {
        self.store.wf()
    }

    pub open spec fn view(&self) -> Map<Seq<char>, W> {
        self.store.view()
    }

    pub fn new() -> (r: Self)
        ensures
            r.wf(),
            r.view() == Map::<Seq<char>, W>::empty(),
    {
        ScoreWeights { store: KeyedStore::new() }
    }

    /// Records the weight for `exchange:symbol` (later records win).
    pub fn insert(&mut self, exchange: &str, symbol: &str, w: W)
        requires
            old(self).wf(),
        ensures
            final(self).wf(),
            final(self).view() == old(self).view().insert(exchange@ + ":"@ + symbol@, w),
    {
        let k = score_key(exchange, symbol);
        self.store.insert(k, w);
    }

    /// The weight that applies to `exchange` on `symbol`: the symbol's own
    /// entry, else the exchange-wide `*` entry.
    pub fn weight_for(&self, exchange: &str, symbol: &str) -> (r: Option<W>)
        requires
            self.wf(),
        ensures
            ({
                let own = exchange@ + ":"@ + symbol@;
                let wide = exchange@ + ":"@ + "*"@;
                r == if self.view().dom().contains(own) {
                    Some(self.view()[own])
                } else if self.view().dom().contains(wide) {
                    Some(self.view()[wide])
                } else {
                    None
                }
            }),
    {
        let own = score_key(exchange, symbol);
        match self.store.get(own.as_str()) {
            Some(w) => Some(*w),
            None => {
                let wide = score_key(exchange, "*");
                match self.store.get(wide.as_str()) {
                    Some(w) => Some(*w),
                    None => None,
                }
            },
        }
    }
}

/// How many entries equal `x`.
pub open spec fn count_of(s: Seq<Seq<char>>, x: Seq<char>) -> nat
    decreases s.len(),
{
    if s.len() == 0 {
        0
    } else {
        count_of(s.drop_last(), x) + if s.last() == x {
            1nat
        } else {
            0nat
        }
    }
}

pub proof fn lemma_count_le_len(s: Seq<Seq<char>>, x: Seq<char>)
    ensures
        count_of(s, x) <= s.len(),
    decreases s.len(),
{
    if s.len() > 0 {
        lemma_count_le_len(s.drop_last(), x);
    }
}

/// Regime counts across the exchanges and the side they agree on.
pub struct RegimeTally {
    pub bullish: i64,
    pub bearish: i64,
    pub exchanges: i64,
    pub side: &'static str,
}

/// The consensus side: `bullish` or `bearish` only when every exchange
/// says so, `neutral` otherwise.
pub open spec fn consensus_side_spec(bull: nat, bear: nat, n: nat) -> Seq<char> {
    if bull == n {
        "bullish"@
    } else if bear == n {
        "bearish"@
    } else {
        "neutral"@
    }
}

pub fn tally_regimes(regimes: &Vec<String>) -> (r: RegimeTally)
    requires
        regimes@.len() <= i64::MAX,
    ensures
        ({
            let s = regimes@.map_values(|x: String| x@);
            &&& r.bullish == count_of(s, "bullish"@)
            &&& r.bearish == count_of(s, "bearish"@)
            &&& r.exchanges == regimes@.len()
            &&& r.side@ == consensus_side_spec(
                count_of(s, "bullish"@),
                count_of(s, "bearish"@),
                regimes@.len(),
            )
        }),
{
    let ghost s = regimes@.map_values(|x: String| x@);
    let mut bull: i64 = 0;
    let mut bear: i64 = 0;
    for i in 0..regimes.len()
        invariant
            regimes@.len() <= i64::MAX,
            s == regimes@.map_values(|x: String| x@),
            bull == count_of(s.take(i as int), "bullish"@),
            bear == count_of(s.take(i as int), "bearish"@),
            bull <= i,
            bear <= i,
    {
        let c = chars_of(regimes[i].as_str());
        assert(s.take(i + 1).drop_last() == s.take(i as int));
        assert(s.take(i + 1).last() == regimes@[i as int]@);
        proof {
            lemma_count_le_len(s.take(i as int), "bullish"@);
            lemma_count_le_len(s.take(i as int), "bearish"@);
        }
        if chars_eq_str(&c, "bullish") {
            bull = bull + 1;
            proof {
                reveal_strlit("bullish");
                reveal_strlit("bearish");
                assert("bullish"@[2] != "bearish"@[2]);
            }
        } else if chars_eq_str(&c, "bearish") {
            bear = bear + 1;
        }
    }
    assert(s.take(regimes@.len() as int) == s);
    let n = regimes.len() as i64;
    let side = if bull == n {
        "bullish"
    } else if bear == n {
        "bearish"
    } else {
        "neutral"
    };
    RegimeTally { bullish: bull, bearish: bear, exchanges: n, side }
}

/// Every entry is `x` exactly when all the entries are counted as `x`.
pub proof fn lemma_count_all(s: Seq<Seq<char>>, x: Seq<char>)
    ensures
        count_of(s, x) == s.len() <==> (forall|i: int| 0 <= i < s.len() ==> s[i] == x),
    decreases s.len(),
{
    lemma_count_le_len(s, x);
    if s.len() > 0 {
        let p = s.drop_last();
        lemma_count_all(p, x);
        lemma_count_le_len(p, x);
        if forall|i: int| 0 <= i < s.len() ==> s[i] == x {
            assert forall|i: int| 0 <= i < p.len() implies p[i] == x by {
                assert(p[i] == s[i]);
            }
            assert(s.last() == s[s.len() - 1]);
        }
        if count_of(s, x) == s.len() {
            assert(s.last() == x);
            assert forall|i: int| 0 <= i < s.len() implies s[i] == x by {
                if i < p.len() {
                    assert(p[i] == s[i]);
                }
            }
        }
    }
}

/// The tally's side is unanimous or neutral: `bullish` exactly when every
/// exchange reports `bullish`, `bearish` exactly when there is at least one
/// exchange and every one reports `bearish`, and `neutral` whenever the
/// exchanges do not all agree on one of the two. A majority is not enough.
pub proof fn law_consensus_side_is_unanimous(s: Seq<Seq<char>>)
    ensures
        ({
            let side = consensus_side_spec(count_of(s, "bullish"@), count_of(s, "bearish"@), s.len());
            &&& side == "bullish"@ <==> (forall|i: int| 0 <= i < s.len() ==> s[i] == "bullish"@)
            &&& side == "bearish"@ <==> (s.len() > 0 && forall|i: int|
                0 <= i < s.len() ==> s[i] == "bearish"@)
            &&& side == "neutral"@ <==> (!(forall|i: int| 0 <= i < s.len() ==> s[i] == "bullish"@)
                && !(forall|i: int| 0 <= i < s.len() ==> s[i] == "bearish"@))
        }),
{
    reveal_strlit("bullish");
    reveal_strlit("bearish");
    reveal_strlit("neutral");
    lemma_count_all(s, "bullish"@);
    lemma_count_all(s, "bearish"@);
    assert("bullish"@[2] != "bearish"@[2]);
    assert("bullish"@[0] != "neutral"@[0]);
    assert("bearish"@[0] != "neutral"@[0]);
    if s.len() > 0 {
        if forall|i: int| 0 <= i < s.len() ==> s[i] == "bearish"@ {
            assert(s[0] == "bearish"@);
            assert(s[0] != "bullish"@);
        }
    }
}

/// BTC's own signal takes no BTC context; every other symbol does
/// (compared ignoring ASCII case).
pub fn btc_context_applies(symbol: &str) -> (r: bool)
    ensures
        r == (ascii_lower(symbol@) != ascii_lower("BTCUSDT"@)),
{
    let a = chars_of(symbol);
    let la = lower_chars(&a);
    let b = chars_of("BTCUSDT");
    let lb = lower_chars(&b);
    !chars_eq(&la, &lb)
}

/// Latch state of one symbol.
pub struct LatchState {
    pub stable_side: String,
    pub pending_side: String,
    pub pending_count: u8,
}

pub struct LatchView {
    pub stable: Seq<char>,
    pub pending: Seq<char>,
    pub count: u8,
}

pub open spec fn latch_view(s: LatchState) -> LatchView {
    LatchView { stable: s.stable_side@, pending: s.pending_side@, count: s.pending_count }
}

/// One observation of the latch: the same side as the stable one resets
/// the pending count; another side must be seen on consecutive cycles until
/// the count reaches the confirmation threshold, and seeing a third side
/// restarts the count. A symbol seen for the first time latches at once.
pub open spec fn latch_next(prior: Option<LatchView>, observed: Seq<char>) -> LatchView {
    let e = match prior {
        Some(p) => p,
        None => LatchView { stable: observed, pending: observed, count: 0 },
    };
    if observed == e.stable {
        LatchView { stable: e.stable, pending: observed, count: 0 }
    } else {
        let (pending, count) = if observed == e.pending {
            (e.pending, if e.count < 255 {
                (e.count + 1) as u8
            } else {
                255u8
            })
        } else {
            (observed, 1u8)
        };
        if count >= 2 {
            LatchView { stable: observed, pending: observed, count: 0 }
        } else {
            LatchView { stable: e.stable, pending, count }
        }
    }
}

/// Consensus-side latches per symbol.
pub struct ConsensusLatch {
    pub store: KeyedStore<LatchState>,
}

impl ConsensusLatch {
    pub open spec fn wf(&self) -> bool {
        self.store.wf()
    }

    pub open spec fn view(&self) -> Map<Seq<char>, LatchView> {
        self.store.view().map_values(|s: LatchState| latch_view(s))
    }

    pub fn new() -> (r: Self)
        ensures
            r.wf(),
            r.view() == Map::<Seq<char>, LatchView>::empty(),
    {
        let r = ConsensusLatch { store: KeyedStore::new() };
        assert(r.view() =~= Map::<Seq<char>, LatchView>::empty());
        r
    }

    /// Feeds the side observed for `symbol` this cycle and returns the side
    /// to publish (the latched one).
    pub fn stabilize(&mut self, symbol: &str, observed: &str) -> (r: String)
        requires
            old(self).wf(),
        ensures
            final(self).wf(),
            ({
                let prior = if old(self).view().dom().contains(symbol@) {
                    Some(old(self).view()[symbol@])
                } else {
                    None
                };
                let next = latch_next(prior, observed@);
                &&& final(self).view() == old(self).view().insert(symbol@, next)
                &&& r@ == next.stable
            }),
    {
        let ghost pre = self.view();
        let ghost prior = if pre.dom().contains(symbol@) {
            Some(pre[symbol@])
        } else {
            None
        };
        let obs = chars_of(observed);
        let cur = self.store.remove(symbol);
        let e = match cur {
            Some(st) => st,
            None => LatchState {
                stable_side: String::from_str(observed),
                pending_side: String::from_str(observed),
                pending_count: 0,
            },
        };
        let ghost ev = match prior {
            Some(p) => p,
            None => LatchView { stable: observed@, pending: observed@, count: 0 },
        };
        assert(latch_view(e) == ev);
        let stable = chars_of(e.stable_side.as_str());
        let next = if chars_eq(&obs, &stable) {
            LatchState {
                stable_side: e.stable_side,
                pending_side: String::from_str(observed),
                pending_count: 0,
            }
        } else {
            let pend = chars_of(e.pending_side.as_str());
            let (pending_side, count) = if chars_eq(&obs, &pend) {
                let c: u8 = if e.pending_count < 255 {
                    e.pending_count + 1
                } else {
                    255
                };
                (e.pending_side, c)
            } else {
                (String::from_str(observed), 1u8)
            };
            if count >= CONSENSUS_SIDE_CONFIRMATION_CYCLES {
                LatchState {
                    stable_side: String::from_str(observed),
                    pending_side: String::from_str(observed),
                    pending_count: 0,
                }
            } else {
                LatchState { stable_side: e.stable_side, pending_side, pending_count: count }
            }
        };
        assert(latch_view(next) == latch_next(prior, observed@));
        let out = next.stable_side.clone();
        let ghost mid = self.store.view();
        self.store.insert(String::from_str(symbol), next);
        proof {
            assert(self.view() =~= pre.insert(symbol@, latch_next(prior, observed@)));
        }
        out
    }
}

/// Seeing the same new side on two consecutive cycles always latches it,
/// whatever the latch held before.
pub proof fn law_latch_two_cycles_confirm(prior: Option<LatchView>, side: Seq<char>)
    ensures
        latch_next(Some(latch_next(prior, side)), side).stable == side,
{
}

/// A single cycle with a new side does not switch the latch unless that
/// side was already pending.
pub proof fn law_latch_one_cycle_holds(prior: LatchView, side: Seq<char>)
    requires
        side != prior.stable,
        side != prior.pending || prior.count == 0,
    ensures
        latch_next(Some(prior), side).stable == prior.stable,
{
}

/// Observing the latched side keeps it and clears any pending switch.
pub proof fn law_latch_same_side_resets(prior: LatchView)
    ensures
        latch_next(Some(prior), prior.stable) == (LatchView {
            stable: prior.stable,
            pending: prior.stable,
            count: 0,
        }),
{
}

} // verus!
