//! Alignment of one-minute candle series across exchanges: only closed
//! candles count, only the timestamps every exchange has are kept, and of
//! those the latest 200, so that every series covers the same minutes.
//!
//! A candle is a timestamp (epoch milliseconds, its open time) and a payload
//! that this module does not read.
use vstd::prelude::*;
use vstd::string::*;
use crate::numeric::{decimal_digits, format_u128};
use crate::symbols::{from_first, has_key, order_by_open_time, strictly_increasing};
use crate::text::string_from_chars;

verus! {

/// Candles a series must keep after alignment.
pub const REQUIRED_CANDLE_COUNT: usize = 200;

/// Length of a candle, in milliseconds.
pub const CANDLE_INTERVAL_MS: i64 = 60_000;

/// A candle is closed when it has a positive open time and its minute has
/// ended by `now`.
pub open spec fn is_closed(t: i64, now: i64) -> bool {
    t > 0 && t + 60000 <= now
}

pub open spec fn closed_pred<T>(now: i64) -> spec_fn((i64, T)) -> bool {
    |c: (i64, T)| is_closed(c.0, now)
}

/// The closed candles of a series, in series order.
pub open spec fn closed_of<T>(s: Seq<(i64, T)>, now: i64) -> Seq<(i64, T)> {
    s.filter(closed_pred(now))
}

pub open spec fn has_ts<T>(s: Seq<(i64, T)>, t: i64) -> bool {
    exists|i: int| 0 <= i < s.len() && s[i].0 == t
}

/// `t` opens a closed candle in every series.
pub open spec fn in_all<T>(ss: Seq<Vec<(i64, T)>>, now: i64, t: i64) -> bool {
    forall|k: int| 0 <= k < ss.len() ==> has_ts(closed_of(#[trigger] ss[k]@, now), t)
}

/// The timestamps that every series has a closed candle at.
pub open spec fn common_set<T>(ss: Seq<Vec<(i64, T)>>, now: i64) -> Set<i64> {
    Set::new(|t: i64| in_all(ss, now, t))
}

pub open spec fn increasing(s: Seq<i64>) -> bool {
    forall|a: int, b: int| 0 <= a < b < s.len() ==> s[a] < s[b]
}

/// `keep` is the latest 200 timestamps of `c`, in increasing order.
pub open spec fn is_latest(keep: Seq<i64>, c: Set<i64>) -> bool {
    &&& keep.len() == 200
    &&& increasing(keep)
    &&& forall|j: int| 0 <= j < keep.len() ==> c.contains(#[trigger] keep[j])
    &&& forall|t: i64| c.contains(t) && !keep.contains(t) ==> t < keep[0]
}

pub open spec fn keep_pred<T>(keep: Seq<i64>) -> spec_fn((i64, T)) -> bool {
    |c: (i64, T)| keep.contains(c.0)
}

/// How many closed candles of a series fall on kept timestamps.
pub open spec fn keep_count<T>(s: Seq<(i64, T)>, now: i64, keep: Seq<i64>) -> nat {
    closed_of(s, now).filter(keep_pred(keep)).len()
}

pub open spec fn all_long<T>(ss: Seq<Vec<(i64, T)>>, now: i64) -> bool {
    forall|k: int| 0 <= k < ss.len() ==> closed_of(#[trigger] ss[k]@, now).len() >= 200
}

/// Series `k` is the first with fewer than 200 closed candles.
pub open spec fn first_short<T>(ss: Seq<Vec<(i64, T)>>, now: i64, k: int) -> bool {
    &&& 0 <= k < ss.len()
    &&& closed_of(ss[k]@, now).len() < 200
    &&& forall|j: int| 0 <= j < k ==> closed_of(#[trigger] ss[j]@, now).len() >= 200
}

/// Series `k` is the first whose closed candles do not fall on the kept
/// timestamps exactly once each.
pub open spec fn first_mismatch<T>(ss: Seq<Vec<(i64, T)>>, now: i64, keep: Seq<i64>, k: int) -> bool {
    &&& 0 <= k < ss.len()
    &&& keep_count(ss[k]@, now, keep) != 200
    &&& forall|j: int| 0 <= j < k ==> keep_count(#[trigger] ss[j]@, now, keep) == 200
}

/// Why alignment failed.
#[derive(Debug, Clone, Copy, PartialEq, Eq, Structural)]
pub enum AlignError {
    NoSnapshots,
    /// A series has fewer than 200 closed candles.
    ClosedIncomplete { index: usize, got: usize },
    /// Fewer than 200 timestamps are common to all series.
    CommonIncomplete { got: usize },
    /// A series does not have exactly one candle per kept timestamp.
    CountMismatch { index: usize, got: usize },
}

fn closed_rows<T: Copy>(s: &Vec<(i64, T)>, now: i64) -> (r: Vec<(i64, T)>)
    requires
        forall|i: int| 0 <= i < s@.len() ==> (#[trigger] s@[i]).0 <= i64::MAX - 60000,
    ensures
        r@ == closed_of(s@, now),
{
    broadcast use vstd::seq_lib::group_filter_ensures;

    let mut r: Vec<(i64, T)> = Vec::new();
    let mut i: usize = 0;
    while i < s.len()
        invariant
            i <= s.len(),
            forall|j: int| 0 <= j < s@.len() ==> (#[trigger] s@[j]).0 <= i64::MAX - 60000,
            r@ == closed_of(s@.take(i as int), now),
        decreases s.len() - i,
    {
        let c = s[i];
        proof {
            assert(s@.take(i + 1) == s@.take(i as int).push(c));
            s@.take(i as int).lemma_filter_push(c, closed_pred::<T>(now));
        }
        if c.0 > 0 && c.0 + 60000 <= now {
            r.push(c);
        }
        i = i + 1;
    }
    assert(s@.take(s.len() as int) == s@);
    r
}

fn has_ts_exec<T>(s: &Vec<(i64, T)>, t: i64) -> (r: bool)
    ensures
        r == has_ts(s@, t),
{
    let mut i: usize = 0;
    while i < s.len()
        invariant
            i <= s.len(),
            forall|j: int| 0 <= j < i ==> s@[j].0 != t,
        decreases s.len() - i,
    {
        if s[i].0 == t {
            return true;
        }
        i = i + 1;
    }
    false
}

fn first_at<T>(s: &Vec<(i64, T)>, t: i64) -> (r: usize)
    requires
        has_ts(s@, t),
    ensures
        r < s@.len(),
        s@[r as int].0 == t,
{
    let mut i: usize = 0;
    while i < s.len()
        invariant
            i <= s.len(),
            has_ts(s@, t),
            forall|j: int| 0 <= j < i ==> s@[j].0 != t,
        decreases s.len() - i,
    {
        if s[i].0 == t {
            return i;
        }
        i = i + 1;
    }
    proof {
        let j = choose|j: int| 0 <= j < s@.len() && s@[j].0 == t;
        assert(s@[j].0 != t);
    }
    0
}

fn contains_i64(v: &Vec<i64>, t: i64) -> (r: bool)
    ensures
        r == v@.contains(t),
{
    let mut i: usize = 0;
    while i < v.len()
        invariant
            i <= v.len(),
            forall|j: int| 0 <= j < i ==> v@[j] != t,
        decreases v.len() - i,
    {
        if v[i] == t {
            return true;
        }
        i = i + 1;
    }
    false
}

/// The distinct timestamps of a series, in increasing order.
fn distinct_times<T>(s: &Vec<(i64, T)>) -> (r: Vec<i64>)
    ensures
        increasing(r@),
        forall|t: i64| r@.contains(t) <==> has_ts(s@, t),
{
    let mut keys: Vec<(i64, ())> = Vec::new();
    let mut i: usize = 0;
    while i < s.len()
        invariant
            i <= s.len(),
            keys@.len() == i,
            forall|j: int| 0 <= j < i ==> (#[trigger] keys@[j]).0 == s@[j].0,
        decreases s.len() - i,
    {
        keys.push((s[i].0, ()));
        i = i + 1;
    }
    let ghost ks = keys@;
    let ordered = order_by_open_time(keys);
    let mut r: Vec<i64> = Vec::new();
    let mut j: usize = 0;
    while j < ordered.len()
        invariant
            j <= ordered@.len(),
            strictly_increasing(ordered@),
            r@.len() == j,
            forall|a: int| 0 <= a < j ==> (#[trigger] r@[a]) == ordered@[a].0,
        decreases ordered.len() - j,
    {
        r.push(ordered[j].0);
        j = j + 1;
    }
    proof {
        assert forall|t: i64| r@.contains(t) implies has_ts(s@, t) by {
            let a = choose|a: int| 0 <= a < r@.len() && r@[a] == t;
            assert(from_first(ks, ordered@[a]));
            let b = choose|b: int| crate::symbols::first_with_key(ks, b) && ks[b] == ordered@[a];
            assert(s@[b].0 == t);
        }
        assert forall|t: i64| has_ts(s@, t) implies r@.contains(t) by {
            let b = choose|b: int| 0 <= b < s@.len() && s@[b].0 == t;
            assert(has_key(ordered@, ks[b].0));
            let a = choose|a: int| 0 <= a < ordered@.len() && ordered@[a].0 == ks[b].0;
            assert(r@[a] == t);
        }
    }
    r
}

/// Whether every series of `closed` has a candle at `t`.
fn in_every<T>(closed: &Vec<Vec<(i64, T)>>, t: i64) -> (r: bool)
    ensures
        r == (forall|k: int| 0 <= k < closed@.len() ==> has_ts(#[trigger] closed@[k]@, t)),
{
    let mut k: usize = 0;
    while k < closed.len()
        invariant
            k <= closed.len(),
            forall|j: int| 0 <= j < k ==> has_ts(#[trigger] closed@[j]@, t),
        decreases closed.len() - k,
    {
        if !has_ts_exec(&closed[k], t) {
            return false;
        }
        k = k + 1;
    }
    true
}

fn count_kept<T>(s: &Vec<(i64, T)>, keep: &Vec<i64>) -> (r: usize)
    ensures
        r == s@.filter(keep_pred(keep@)).len(),
{
    broadcast use vstd::seq_lib::group_filter_ensures;

    let mut n: usize = 0;
    let mut i: usize = 0;
    while i < s.len()
        invariant
            i <= s.len(),
            n == s@.take(i as int).filter(keep_pred(keep@)).len(),
        decreases s.len() - i,
    {
        proof {
            assert(s@.take(i + 1) == s@.take(i as int).push(s@[i as int]));
            s@.take(i as int).lemma_filter_push(s@[i as int], keep_pred::<T>(keep@));
            s@.take(i as int).filter(keep_pred::<T>(keep@)).lemma_filter_len(
                keep_pred::<T>(keep@),
            );
            s@.take(i as int).lemma_filter_len(keep_pred::<T>(keep@));
        }
        if contains_i64(keep, s[i].0) {
            n = n + 1;
        }
        i = i + 1;
    }
    assert(s@.take(s.len() as int) == s@);
    n
}

/// Aligns the series: each keeps its closed candles, the timestamps every
/// series has are collected, and the latest 200 of them are kept. On success
/// returns those timestamps and, per series, its candle at each of them in
/// increasing time, so every series covers the same minutes. Fails, in this
/// order of checks, when there is no series, when a series has fewer than
/// 200 closed candles, when fewer than 200 timestamps are common, and when a
/// series has more than one candle at a kept timestamp.
#[verifier::rlimit(40)]
pub fn align_candles<T: Copy>(series: &Vec<Vec<(i64, T)>>, now_ms: i64) -> (r: Result<
    (Vec<i64>, Vec<Vec<(i64, T)>>),
    AlignError,
>)
    requires
        forall|k: int, i: int|
            0 <= k < series@.len() && 0 <= i < series@[k]@.len() ==> (#[trigger] series@[k]@[i]).0
                <= i64::MAX - 60000,
    ensures
        match r {
            Err(AlignError::NoSnapshots) => series@.len() == 0,
            Err(AlignError::ClosedIncomplete { index, got }) => {
                &&& first_short(series@, now_ms, index as int)
                &&& got == closed_of(series@[index as int]@, now_ms).len()
            },
            Err(AlignError::CommonIncomplete { got }) => {
                &&& series@.len() > 0
                &&& all_long(series@, now_ms)
                &&& got == common_set(series@, now_ms).len()
                &&& got < 200
            },
            Err(AlignError::CountMismatch { index, got }) => {
                &&& series@.len() > 0
                &&& all_long(series@, now_ms)
                &&& common_set(series@, now_ms).len() >= 200
                &&& exists|keep: Seq<i64>|
                    #![trigger is_latest(keep, common_set(series@, now_ms))]
                    is_latest(keep, common_set(series@, now_ms)) && first_mismatch(
                        series@,
                        now_ms,
                        keep,
                        index as int,
                    ) && got == keep_count(series@[index as int]@, now_ms, keep)
            },
            Ok((keep, out)) => {
                &&& series@.len() > 0
                &&& all_long(series@, now_ms)
                &&& common_set(series@, now_ms).len() >= 200
                &&& is_latest(keep@, common_set(series@, now_ms))
                &&& forall|k: int|
                    0 <= k < series@.len() ==> keep_count(#[trigger] series@[k]@, now_ms, keep@)
                        == 200
                &&& out@.len() == series@.len()
                &&& forall|k: int| 0 <= k < out@.len() ==> (#[trigger] out@[k])@.len() == 200
                &&& forall|k: int, j: int|
                    0 <= k < out@.len() && 0 <= j < 200 ==> (#[trigger] out@[k]@[j]).0 == keep@[j]
                        && closed_of(series@[k]@, now_ms).contains(out@[k]@[j])
            },
        },
{
    let n = series.len();
    if n == 0 {
        return Err(AlignError::NoSnapshots);
    }
    let mut closed: Vec<Vec<(i64, T)>> = Vec::new();
    let mut k: usize = 0;
    while k < n
        invariant
            n == series@.len(),
            k <= n,
            forall|a: int, i: int|
                0 <= a < series@.len() && 0 <= i < series@[a]@.len() ==> (#[trigger] series@[a]@[i]).0
                    <= i64::MAX - 60000,
            closed@.len() == k,
            forall|a: int| 0 <= a < k ==> (#[trigger] closed@[a])@ == closed_of(series@[a]@, now_ms),
            forall|a: int| 0 <= a < k ==> closed_of(#[trigger] series@[a]@, now_ms).len() >= 200,
        decreases n - k,
    {
        let c = closed_rows(&series[k], now_ms);
        if c.len() < REQUIRED_CANDLE_COUNT {
            return Err(AlignError::ClosedIncomplete { index: k, got: c.len() });
        }
        closed.push(c);
        k = k + 1;
    }
    let cand = distinct_times(&closed[0]);
    let mut common: Vec<i64> = Vec::new();
    let mut idx: usize = 0;
    while idx < cand.len()
        invariant
            n == series@.len(),
            n > 0,
            closed@.len() == n,
            forall|a: int| 0 <= a < n ==> (#[trigger] closed@[a])@ == closed_of(series@[a]@, now_ms),
            idx <= cand@.len(),
            increasing(cand@),
            forall|t: i64| cand@.contains(t) <==> has_ts(closed@[0]@, t),
            increasing(common@),
            forall|j: int| 0 <= j < common@.len() ==> exists|b: int|
                0 <= b < idx && cand@[b] == #[trigger] common@[j],
            forall|t: i64|
                common@.contains(t) <==> (cand@.take(idx as int).contains(t) && in_all(
                    series@,
                    now_ms,
                    t,
                )),
        decreases cand.len() - idx,
    {
        let t = cand[idx];
        let keep_it = in_every(&closed, t);
        let ghost before = common@;
        proof {
            assert(cand@.take(idx + 1) == cand@.take(idx as int).push(t));
            assert(keep_it == in_all(series@, now_ms, t)) by {
                if keep_it {
                    assert forall|a: int| 0 <= a < series@.len() implies has_ts(
                        closed_of(#[trigger] series@[a]@, now_ms),
                        t,
                    ) by {
                        assert(has_ts(closed@[a]@, t));
                    }
                } else {
                    let a = choose|a: int| 0 <= a < closed@.len() && !has_ts(#[trigger] closed@[a]@, t);
                    assert(!has_ts(closed_of(series@[a]@, now_ms), t));
                }
            }
        }
        if keep_it {
            common.push(t);
            proof {
                assert forall|a: int, b: int| 0 <= a < b < common@.len() implies common@[a] < common@[b] by {
                    if b == common@.len() - 1 {
                        let c = choose|c: int| 0 <= c < idx && cand@[c] == before[a];
                        assert(cand@[c] < cand@[idx as int]);
                    } else {
                        assert(before[a] < before[b]);
                    }
                }
                assert forall|j: int| 0 <= j < common@.len() implies exists|b: int|
                    0 <= b < idx + 1 && cand@[b] == #[trigger] common@[j] by {
                    if j == common@.len() - 1 {
                        assert(cand@[idx as int] == common@[j]);
                    } else {
                        assert(common@[j] == before[j]);
                        let c = choose|c: int| 0 <= c < idx && cand@[c] == before[j];
                        assert(cand@[c] == common@[j]);
                    }
                }
                assert forall|x: i64|
                    common@.contains(x) <==> (cand@.take(idx + 1).contains(x) && in_all(
                        series@,
                        now_ms,
                        x,
                    )) by {
                    let pre = cand@.take(idx + 1);
                    let pre0 = cand@.take(idx as int);
                    if common@.contains(x) {
                        if x == t {
                            assert(pre[idx as int] == t);
                        } else {
                            let j = choose|j: int| 0 <= j < common@.len() && common@[j] == x;
                            assert(before[j] == x);
                            assert(before.contains(x));
                            let j2 = choose|j2: int| 0 <= j2 < pre0.len() && #[trigger] pre0[j2] == x;
                            assert(pre[j2] == x);
                        }
                    }
                    if pre.contains(x) && in_all(series@, now_ms, x) {
                        if x == t {
                            assert(common@[common@.len() - 1] == t);
                        } else {
                            let j = choose|j: int| 0 <= j < pre.len() && #[trigger] pre[j] == x;
                            assert(j < idx);
                            assert(pre0[j] == x);
                            assert(pre0.contains(x));
                            assert(before.contains(x));
                            let j3 = choose|j3: int| 0 <= j3 < before.len() && before[j3] == x;
                            assert(common@[j3] == x);
                        }
                    }
                }
            }
        } else {
            proof {
                assert forall|x: i64|
                    common@.contains(x) <==> (cand@.take(idx + 1).contains(x) && in_all(
                        series@,
                        now_ms,
                        x,
                    )) by {
                    if cand@.take(idx + 1).contains(x) && x != t {
                        let pre = cand@.take(idx + 1);
                        let j = choose|j: int| 0 <= j < pre.len() && #[trigger] pre[j] == x;
                        assert(cand@.take(idx as int)[j] == x);
                    }
                }
                assert forall|j: int| 0 <= j < common@.len() implies exists|b: int|
                    0 <= b < idx + 1 && cand@[b] == #[trigger] common@[j] by {
                    let c = choose|c: int| 0 <= c < idx && cand@[c] == common@[j];
                }
            }
        }
        idx = idx + 1;
    }
    proof {
        assert(cand@.take(cand@.len() as int) == cand@);
        lemma_common_set_is(series@, now_ms, common@, closed@[0]@);
    }
    let m = common.len();
    if m < REQUIRED_CANDLE_COUNT {
        return Err(AlignError::CommonIncomplete { got: m });
    }
    let mut keep: Vec<i64> = Vec::new();
    let mut p: usize = m - REQUIRED_CANDLE_COUNT;
    while p < m
        invariant
            m == common@.len(),
            m >= 200,
            m - 200 <= p <= m,
            keep@ == common@.subrange(m - 200, p as int),
        decreases m - p,
    {
        keep.push(common[p]);
        p = p + 1;
    }
    proof {
        lemma_latest(common@, keep@, common_set(series@, now_ms));
    }
    let mut j: usize = 0;
    while j < n
        invariant
            n == series@.len(),
            closed@.len() == n,
            forall|a: int| 0 <= a < n ==> (#[trigger] closed@[a])@ == closed_of(series@[a]@, now_ms),
            n > 0,
            all_long(series@, now_ms),
            common_set(series@, now_ms).len() >= 200,
            is_latest(keep@, common_set(series@, now_ms)),
            j <= n,
            forall|a: int| 0 <= a < j ==> keep_count(#[trigger] series@[a]@, now_ms, keep@) == 200,
        decreases n - j,
    {
        let cnt = count_kept(&closed[j], &keep);
        if cnt != REQUIRED_CANDLE_COUNT {
            proof {
                assert(first_mismatch(series@, now_ms, keep@, j as int));
                assert(is_latest(keep@, common_set(series@, now_ms)));
            }
            return Err(AlignError::CountMismatch { index: j, got: cnt });
        }
        j = j + 1;
    }
    let mut out: Vec<Vec<(i64, T)>> = Vec::new();
    let mut a: usize = 0;
    while a < n
        invariant
            n == series@.len(),
            closed@.len() == n,
            forall|b: int| 0 <= b < n ==> (#[trigger] closed@[b])@ == closed_of(series@[b]@, now_ms),
            keep@.len() == 200,
            forall|q: int| 0 <= q < 200 ==> common_set(series@, now_ms).contains(#[trigger] keep@[q]),
            a <= n,
            out@.len() == a,
            forall|b: int| 0 <= b < a ==> (#[trigger] out@[b])@.len() == 200,
            forall|b: int, q: int|
                0 <= b < a && 0 <= q < 200 ==> (#[trigger] out@[b]@[q]).0 == keep@[q]
                    && closed_of(series@[b]@, now_ms).contains(out@[b]@[q]),
        decreases n - a,
    {
        let mut row: Vec<(i64, T)> = Vec::new();
        let mut q: usize = 0;
        while q < REQUIRED_CANDLE_COUNT
            invariant
                n == series@.len(),
                a < n,
                closed@.len() == n,
                closed@[a as int]@ == closed_of(series@[a as int]@, now_ms),
                keep@.len() == 200,
                forall|x: int| 0 <= x < 200 ==> common_set(series@, now_ms).contains(#[trigger] keep@[x]),
                q <= 200,
                row@.len() == q,
                forall|x: int| 0 <= x < q ==> (#[trigger] row@[x]).0 == keep@[x]
                    && closed@[a as int]@.contains(row@[x]),
            decreases 200 - q,
        {
            let t = keep[q];
            proof {
                assert(common_set(series@, now_ms).contains(keep@[q as int]));
                assert(in_all(series@, now_ms, t));
                assert(has_ts(closed_of(series@[a as int]@, now_ms), t));
            }
            let i = first_at(&closed[a], t);
            let c = closed[a][i];
            row.push(c);
            proof {
                assert(closed@[a as int]@[i as int] == c);
            }
            q = q + 1;
        }
        out.push(row);
        a = a + 1;
    }
    Ok((keep, out))
}

proof fn lemma_common_set_is<T>(
    ss: Seq<Vec<(i64, T)>>,
    now: i64,
    common: Seq<i64>,
    first: Seq<(i64, T)>,
)
    requires
        ss.len() > 0,
        first == closed_of(ss[0]@, now),
        increasing(common),
        forall|t: i64| common.contains(t) <==> (has_ts(first, t) && in_all(ss, now, t)),
    ensures
        common_set(ss, now) == common.to_set(),
        common_set(ss, now).len() == common.len(),
{
    assert forall|t: i64| common_set(ss, now).contains(t) <==> common.to_set().contains(t) by {
        if in_all(ss, now, t) {
            assert(has_ts(closed_of(ss[0]@, now), t));
        }
    }
    assert(common_set(ss, now) =~= common.to_set());
    assert(common.no_duplicates()) by {
        assert forall|a: int, b: int| 0 <= a < common.len() && 0 <= b < common.len() && a != b implies common[a] != common[b] by {
            if a < b {
                assert(common[a] < common[b]);
            } else {
                assert(common[b] < common[a]);
            }
        }
    }
    common.unique_seq_to_set();
}

proof fn lemma_latest(common: Seq<i64>, keep: Seq<i64>, c: Set<i64>)
    requires
        common.len() >= 200,
        increasing(common),
        c == common.to_set(),
        keep == common.subrange(common.len() - 200, common.len() as int),
    ensures
        is_latest(keep, c),
{
    let base = common.len() - 200;
    assert forall|j: int| 0 <= j < keep.len() implies c.contains(#[trigger] keep[j]) by {
        assert(keep[j] == common[base + j]);
    }
    assert forall|t: i64| c.contains(t) && !keep.contains(t) implies t < keep[0] by {
        let i = choose|i: int| 0 <= i < common.len() && common[i] == t;
        if i >= base {
            assert(keep[i - base] == t);
        } else {
            assert(common[i] < common[base]);
        }
    }
}

proof fn lemma_increasing_no_dup(a: Seq<i64>)
    requires
        increasing(a),
    ensures
        a.no_duplicates(),
        a.to_set().len() == a.len(),
{
    assert forall|i: int, j: int| 0 <= i < a.len() && 0 <= j < a.len() && i != j implies a[i]
        != a[j] by {
        if i < j {
            assert(a[i] < a[j]);
        } else {
            assert(a[j] < a[i]);
        }
    }
    a.unique_seq_to_set();
}

/// Two increasing sequences with the same elements are equal.
proof fn lemma_increasing_same_set(a: Seq<i64>, b: Seq<i64>)
    requires
        increasing(a),
        increasing(b),
        a.to_set() == b.to_set(),
    ensures
        a == b,
    decreases a.len(),
{
    if a.len() == 0 {
        if b.len() > 0 {
            assert(b.to_set().contains(b[0]));
        }
        assert(a =~= b);
    } else {
        assert(a.to_set().contains(a[0]));
        assert(b.len() > 0) by {
            assert(b.to_set().contains(a[0]));
        }
        assert(a[0] == b[0]) by {
            assert(b.to_set().contains(a[0]));
            let i = choose|i: int| 0 <= i < b.len() && b[i] == a[0];
            assert(a.to_set().contains(b[0]));
            let j = choose|j: int| 0 <= j < a.len() && a[j] == b[0];
            if i > 0 {
                assert(b[0] < b[i]);
            }
            if j > 0 {
                assert(a[0] < a[j]);
            }
        }
        let a1 = a.drop_first();
        let b1 = b.drop_first();
        assert(a1.to_set() =~= b1.to_set()) by {
            assert forall|x: i64| a1.to_set().contains(x) implies b1.to_set().contains(x) by {
                let i = choose|i: int| 0 <= i < a1.len() && a1[i] == x;
                assert(a[i + 1] == x);
                assert(a[0] < a[i + 1]);
                assert(b.to_set().contains(x));
                let j = choose|j: int| 0 <= j < b.len() && b[j] == x;
                assert(j > 0);
                assert(b1[j - 1] == x);
            }
            assert forall|x: i64| b1.to_set().contains(x) implies a1.to_set().contains(x) by {
                let i = choose|i: int| 0 <= i < b1.len() && b1[i] == x;
                assert(b[i + 1] == x);
                assert(b[0] < b[i + 1]);
                assert(a.to_set().contains(x));
                let j = choose|j: int| 0 <= j < a.len() && a[j] == x;
                assert(j > 0);
                assert(a1[j - 1] == x);
            }
        }
        lemma_increasing_same_set(a1, b1);
        assert(b1.len() == a1.len());
        assert(b.len() == a.len());
        assert(a =~= b) by {
            assert forall|i: int| 0 <= i < a.len() implies a[i] == b[i] by {
                if i > 0 {
                    assert(a[i] == a1[i - 1]);
                    assert(b[i] == b1[i - 1]);
                }
            }
        }
    }
}

/// The elements of a latest-200 sequence: the timestamps of `c` from its
/// first element on.
proof fn lemma_latest_set(k: Seq<i64>, c: Set<i64>)
    requires
        is_latest(k, c),
    ensures
        k.to_set() == c.filter(|t: i64| t >= k[0]),
{
    assert forall|t: i64| k.to_set().contains(t) <==> c.filter(|t: i64| t >= k[0]).contains(t) by {
        if k.to_set().contains(t) {
            let i = choose|i: int| 0 <= i < k.len() && k[i] == t;
            if i > 0 {
                assert(k[0] < k[i]);
            }
            assert(c.contains(k[i]));
        }
        if c.contains(t) && t >= k[0] && !k.contains(t) {
            assert(t < k[0]);
        }
    }
    assert(k.to_set() =~= c.filter(|t: i64| t >= k[0]));
}

/// There is one latest-200 sequence of a set: the timestamps kept, and hence
/// what alignment returns or which series it reports, are determined by the
/// input.
pub proof fn law_latest_is_unique(k1: Seq<i64>, k2: Seq<i64>, c: Set<i64>)
    requires
        is_latest(k1, c),
        is_latest(k2, c),
    ensures
        k1 == k2,
{
    lemma_latest_set(k1, c);
    lemma_latest_set(k2, c);
    lemma_increasing_no_dup(k1);
    lemma_increasing_no_dup(k2);
    assert(k1[0] == k2[0]) by {
        if k1[0] < k2[0] {
            assert(k2.to_set().subset_of(k1.to_set().remove(k1[0]))) by {
                assert forall|t: i64| k2.to_set().contains(t) implies k1.to_set().remove(
                    k1[0],
                ).contains(t) by {
                    assert(c.filter(|t: i64| t >= k2[0]).contains(t));
                    assert(c.filter(|t: i64| t >= k1[0]).contains(t));
                }
            }
            assert(k1.to_set().contains(k1[0]));
            vstd::set_lib::lemma_len_subset(k2.to_set(), k1.to_set().remove(k1[0]));
        } else if k2[0] < k1[0] {
            assert(k1.to_set().subset_of(k2.to_set().remove(k2[0]))) by {
                assert forall|t: i64| k1.to_set().contains(t) implies k2.to_set().remove(
                    k2[0],
                ).contains(t) by {
                    assert(c.filter(|t: i64| t >= k1[0]).contains(t));
                    assert(c.filter(|t: i64| t >= k2[0]).contains(t));
                }
            }
            assert(k2.to_set().contains(k2[0]));
            vstd::set_lib::lemma_len_subset(k1.to_set(), k2.to_set().remove(k2[0]));
        }
    }
    assert(k1.to_set() =~= k2.to_set());
    lemma_increasing_same_set(k1, k2);
}

/// The text of an alignment error, as the market-data service logs it;
/// `source` names the series an error is about.
pub open spec fn align_error_text(symbol: Seq<char>, source: Seq<char>, e: AlignError) -> Seq<char> {
    match e {
        AlignError::NoSnapshots => symbol + " no exchange snapshots available"@,
        AlignError::ClosedIncomplete { got, .. } => source + " "@ + symbol
            + " closed candles incomplete: expected at least 200, got "@ + decimal_digits(
            got as nat,
        ),
        AlignError::CommonIncomplete { got } => symbol
            + " aligned closed candles incomplete across exchanges: expected at least 200, got "@
            + decimal_digits(got as nat),
        AlignError::CountMismatch { got, .. } => source + " "@ + symbol
            + " aligned candle count mismatch: expected 200, got "@ + decimal_digits(got as nat),
    }
}

pub fn align_error_message(symbol: &str, source: &str, e: AlignError) -> (r: String)
    ensures
        r@ == align_error_text(symbol@, source@, e),
{
    match e {
        AlignError::NoSnapshots => {
            let mut s = String::from_str(symbol);
            s.append(" no exchange snapshots available");
            s
        },
        AlignError::ClosedIncomplete { got, .. } => {
            let mut s = String::from_str(source);
            s.append(" ");
            s.append(symbol);
            s.append(" closed candles incomplete: expected at least 200, got ");
            let d = string_from_chars(&format_u128(got as u128));
            s.append(d.as_str());
            s
        },
        AlignError::CommonIncomplete { got } => {
            let mut s = String::from_str(symbol);
            s.append(" aligned closed candles incomplete across exchanges: expected at least 200, got ");
            let d = string_from_chars(&format_u128(got as u128));
            s.append(d.as_str());
            s
        },
        AlignError::CountMismatch { got, .. } => {
            let mut s = String::from_str(source);
            s.append(" ");
            s.append(symbol);
            s.append(" aligned candle count mismatch: expected 200, got ");
            let d = string_from_chars(&format_u128(got as u128));
            s.append(d.as_str());
            s
        },
    }
}

} // verus!
