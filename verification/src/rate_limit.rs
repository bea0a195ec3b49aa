//! The API's in-memory sliding-window rate limiter and the rule that picks
//! the client identity a request is counted against.
use vstd::prelude::*;
use vstd::string::*;
use crate::keyed::KeyedStore;
use crate::text::{chars_of, split_chars, split_on, string_from_chars, trim, trim_chars};

verus! {

/// Index of the first timestamp after `cutoff`, or the length when none is.
pub open spec fn first_after(s: Seq<u64>, cutoff: int) -> int
    decreases s.len(),
{
    if s.len() == 0 {
        0
    } else if s[0] > cutoff {
        0
    } else {
        1 + first_after(s.drop_first(), cutoff)
    }
}

pub proof fn lemma_first_after(s: Seq<u64>, cutoff: int)
    ensures
        0 <= first_after(s, cutoff) <= s.len(),
        forall|i: int| 0 <= i < first_after(s, cutoff) ==> s[i] <= cutoff,
        first_after(s, cutoff) < s.len() ==> s[first_after(s, cutoff)] > cutoff,
    decreases s.len(),
{
    if s.len() > 0 && s[0] <= cutoff {
        lemma_first_after(s.drop_first(), cutoff);
        assert forall|i: int| 0 <= i < first_after(s, cutoff) implies s[i] <= cutoff by {
            if i > 0 {
                assert(s[i] == s.drop_first()[i - 1]);
            }
        }
    }
}

/// A window reaching back before the clock's start drops nothing: every
/// timestamp is after a negative cutoff.
pub proof fn lemma_nothing_before_start(s: Seq<u64>, cutoff: int)
    requires
        cutoff < 0,
    ensures
        first_after(s, cutoff) == 0,
        s.skip(first_after(s, cutoff)) == s,
{
    assert(s.skip(0) =~= s);
}

/// Request timestamps (milliseconds of a monotonic clock) of one client.
pub struct SlidingWindow {
    pub timestamps: Vec<u64>,
}

impl SlidingWindow {
    pub fn new() -> (r: Self)
        ensures
            r.timestamps@ == Seq::<u64>::empty(),
    {
        SlidingWindow { timestamps: Vec::new() }
    }

    /// Drops the leading timestamps up to the first one after
    /// `now_ms - window_ms`.
    pub fn purge(&mut self, now_ms: u64, window_ms: u64)
        requires
            window_ms <= now_ms,
        ensures
            final(self).timestamps@ == old(self).timestamps@.skip(
                first_after(old(self).timestamps@, now_ms - window_ms),
            ),
    {
        let cutoff = now_ms - window_ms;
        let n = self.timestamps.len();
        let mut keep: usize = 0;
        assert(self.timestamps@.skip(0) == self.timestamps@);
        while keep < n && self.timestamps[keep] <= cutoff
            invariant
                n == self.timestamps@.len(),
                keep <= n,
                first_after(self.timestamps@, cutoff as int) == keep + first_after(
                    self.timestamps@.skip(keep as int),
                    cutoff as int,
                ),
            decreases n - keep,
        {
            assert(self.timestamps@.skip(keep as int).drop_first() == self.timestamps@.skip(
                keep + 1,
            ));
            keep = keep + 1;
        }
        let mut rest: Vec<u64> = Vec::new();
        let mut i: usize = keep;
        while i < n
            invariant
                keep <= i <= n,
                n == self.timestamps@.len(),
                rest@ == self.timestamps@.subrange(keep as int, i as int),
            decreases n - i,
        {
            rest.push(self.timestamps[i]);
            assert(self.timestamps@.subrange(keep as int, i + 1) == self.timestamps@.subrange(
                keep as int,
                i as int,
            ).push(self.timestamps@[i as int]));
            i = i + 1;
        }
        assert(rest@ == self.timestamps@.skip(keep as int));
        self.timestamps = rest;
    }

    pub fn len(&self) -> (r: usize)
        ensures
            r == self.timestamps@.len(),
    {
        self.timestamps.len()
    }

    pub fn push(&mut self, now_ms: u64)
        ensures
            final(self).timestamps@ == old(self).timestamps@.push(now_ms),
    {
        self.timestamps.push(now_ms);
    }
}

/// In-memory rate limiter: at most `max_requests` per client within the
/// last `window_secs`.
pub struct RateLimiter {
    pub max_requests: usize,
    pub window_secs: u64,
    pub buckets: KeyedStore<SlidingWindow>,
}

/// A client's timestamps after purging and, when allowed, after counting
/// the request.
pub open spec fn bucket_after(prior: Seq<u64>, now_ms: u64, window_ms: int, max: usize) -> (
    bool,
    Seq<u64>,
) {
    let kept = prior.skip(first_after(prior, now_ms - window_ms));
    if kept.len() >= max {
        (false, kept)
    } else {
        (true, kept.push(now_ms))
    }
}

impl RateLimiter {
    pub open spec fn wf(&self) -> bool {
        self.buckets.wf()
    }

    pub open spec fn bucket(&self, key: Seq<char>) -> Seq<u64> {
        if self.buckets.view().dom().contains(key) {
            self.buckets.view()[key].timestamps@
        } else {
            Seq::empty()
        }
    }

    /// No client holds more timestamps than the limit.
    pub open spec fn within_limit(&self) -> bool {
        forall|k: Seq<char>| #[trigger]
            self.buckets.view().dom().contains(k) ==> self.buckets.view()[k].timestamps@.len()
                <= self.max_requests
    }

    pub fn new(max_requests: usize, window_secs: u64) -> (r: Self)
        ensures
            r.wf(),
            r.within_limit(),
            r.max_requests == max_requests,
            r.window_secs == window_secs,
            r.buckets.view() == Map::<Seq<char>, SlidingWindow>::empty(),
    {
        RateLimiter { max_requests, window_secs, buckets: KeyedStore::new() }
    }

    /// Counts a request of `key` at `now_ms` and says whether it is allowed:
    /// old timestamps leave the window first, then the request is allowed
    /// and recorded only if fewer than `max_requests` remain.
    pub fn check_and_consume(&mut self, key: &str, now_ms: u64) -> (r: bool)
        requires
            old(self).wf(),
        ensures
            final(self).wf(),
            final(self).max_requests == old(self).max_requests,
            final(self).window_secs == old(self).window_secs,
            ({
                let (allowed, kept) = bucket_after(
                    old(self).bucket(key@),
                    now_ms,
                    old(self).window_secs * 1000,
                    old(self).max_requests,
                );
                &&& r == allowed
                &&& final(self).buckets.view().dom().contains(key@)
                &&& final(self).bucket(key@) == kept
                &&& final(self).buckets.view().remove(key@) == old(self).buckets.view().remove(
                    key@,
                )
            }),
            old(self).within_limit() ==> final(self).within_limit(),
    {
        let ghost window_ms: int = self.window_secs * 1000;
        let ghost pre = self.buckets.view();
        let mut entry = match self.buckets.remove(key) {
            Some(w) => w,
            None => SlidingWindow::new(),
        };
        proof {
            lemma_first_after(entry.timestamps@, now_ms - window_ms);
        }
        match self.window_secs.checked_mul(1000) {
            Some(w) => {
                if w <= now_ms {
                    entry.purge(now_ms, w);
                } else {
                    proof {
                        lemma_nothing_before_start(entry.timestamps@, now_ms - window_ms);
                    }
                }
            },
            None => {
                proof {
                    lemma_nothing_before_start(entry.timestamps@, now_ms - window_ms);
                }
            },
        }
        let allowed = entry.len() < self.max_requests;
        if allowed {
            entry.push(now_ms);
        }
        let ghost e = entry;
        self.buckets.insert(String::from_str(key), entry);
        proof {
            assert(self.buckets.view() == pre.remove(key@).insert(key@, e));
            assert(self.buckets.view().remove(key@) =~= pre.remove(key@));
            if old(self).within_limit() {
                assert forall|k: Seq<char>| #[trigger]
                    self.buckets.view().dom().contains(k) implies self.buckets.view()[k].timestamps@.len()
                    <= self.max_requests by {
                    if k != key@ {
                        assert(pre.dom().contains(k));
                    } else {
                        let prior = old(self).bucket(key@);
                        let f = first_after(prior, now_ms - window_ms);
                        lemma_first_after(prior, now_ms - window_ms);
                    }
                }
            }
        }
        allowed
    }
}

/// With the limit kept, a request is refused exactly when `max_requests`
/// requests of the same client already fall within the window, and the
/// client never holds more than `max_requests` of them.
pub proof fn law_rate_limit_never_exceeded(prior: Seq<u64>, now_ms: u64, window_ms: int, max: usize)
    requires
        prior.len() <= max,
    ensures
        bucket_after(prior, now_ms, window_ms, max).1.len() <= max,
        !bucket_after(prior, now_ms, window_ms, max).0 <==> prior.skip(
            first_after(prior, now_ms - window_ms),
        ).len() >= max,
{
    lemma_first_after(prior, now_ms - window_ms);
}

/// A client's requests older than the window stop counting against it.
pub proof fn law_old_requests_expire(prior: Seq<u64>, now_ms: u64, window_ms: int, max: usize)
    requires
        forall|i: int| 0 <= i < prior.len() ==> prior[i] <= now_ms - window_ms,
        max > 0,
    ensures
        bucket_after(prior, now_ms, window_ms, max) == (true, seq![now_ms]),
{
    lemma_first_after(prior, now_ms - window_ms);
    let f = first_after(prior, now_ms - window_ms);
    assert(f == prior.len());
    assert(prior.skip(f) =~= Seq::<u64>::empty());
    assert(Seq::<u64>::empty().push(now_ms) =~= seq![now_ms]);
}

/// A refused request records nothing: the client keeps only what was
/// already in its window. And once every request it had recorded is older
/// than the window, its next request is allowed again and is then the only
/// one counted.
pub proof fn law_refusal_records_nothing_then_expires(
    prior: Seq<u64>,
    t1: u64,
    t2: u64,
    window_ms: int,
    max: usize,
)
    requires
        t1 <= t2,
        max > 0,
        !bucket_after(prior, t1, window_ms, max).0,
        forall|i: int| 0 <= i < prior.len() ==> prior[i] <= t2 - window_ms,
    ensures
        bucket_after(prior, t1, window_ms, max).1 == prior.skip(first_after(prior, t1 - window_ms)),
        bucket_after(bucket_after(prior, t1, window_ms, max).1, t2, window_ms, max) == (
            true,
            seq![t2],
        ),
{
    lemma_first_after(prior, t1 - window_ms);
    let f = first_after(prior, t1 - window_ms);
    let kept = prior.skip(f);
    assert forall|i: int| 0 <= i < kept.len() implies kept[i] <= t2 - window_ms by {
        assert(kept[i] == prior[i + f]);
    }
    law_old_requests_expire(kept, t2, window_ms, max);
}

/// The peer address of a request.
pub enum RemoteIp {
    V4(u8, u8, u8, u8),
    V6([u16; 8]),
}

/// A peer address and its textual form (as `IpAddr`'s `Display` writes it).
pub struct RemoteAddr {
    pub ip: RemoteIp,
    pub ip_text: String,
}

/// Addresses inside the cluster: private or loopback IPv4, loopback or
/// unique-local (fc00::/7) IPv6.
pub open spec fn is_trusted_proxy_spec(ip: RemoteIp) -> bool {
    match ip {
        RemoteIp::V4(a, b, _, _) => a == 10 || (a == 172 && 16 <= b <= 31) || (a == 192 && b
            == 168) || a == 127,
        RemoteIp::V6(s) => (s@[0] == 0 && s@[1] == 0 && s@[2] == 0 && s@[3] == 0 && s@[4] == 0
            && s@[5] == 0 && s@[6] == 0 && s@[7] == 1) || (0xfc00 <= s@[0] <= 0xfdff),
    }
}

pub fn is_trusted_proxy(ip: &RemoteIp) -> (r: bool)
    ensures
        r == is_trusted_proxy_spec(*ip),
{
    match ip {
        RemoteIp::V4(a, b, _, _) => *a == 10 || (*a == 172 && 16 <= *b && *b <= 31) || (*a == 192
            && *b == 168) || *a == 127,
        RemoteIp::V6(s) => (s[0] == 0 && s[1] == 0 && s[2] == 0 && s[3] == 0 && s[4] == 0 && s[5]
            == 0 && s[6] == 0 && s[7] == 1) || (0xfc00 <= s[0] && s[0] <= 0xfdff),
    }
}

/// The bucket key of a request: `unknown` without a peer address; for a
/// peer inside the cluster, the first (trimmed, non-blank) entry of
/// `X-Forwarded-For`; otherwise the peer address.
pub open spec fn client_key_spec(addr: Option<&RemoteAddr>, forwarded: Option<&str>) -> Seq<char> {
    match addr {
        None => "unknown"@,
        Some(a) => if is_trusted_proxy_spec(a.ip) && forwarded.is_some() && trim(
            split_on(forwarded.unwrap()@, ',')[0],
        ).len() > 0 {
            trim(split_on(forwarded.unwrap()@, ',')[0])
        } else {
            a.ip_text@
        },
    }
}

pub fn client_key(addr: Option<&RemoteAddr>, forwarded: Option<&str>) -> (r: String)
    ensures
        r@ == client_key_spec(addr, forwarded),
{
    match addr {
        None => String::from_str("unknown"),
        Some(a) => {
            if is_trusted_proxy(&a.ip) {
                if let Some(h) = forwarded {
                    let c = chars_of(h);
                    let parts = split_chars(&c, ',');
                    proof {
                        crate::text::lemma_split_nonempty(h@, ',');
                    }
                    let first = trim_chars(&parts[0]);
                    if first.len() > 0 {
                        return string_from_chars(&first);
                    }
                }
            }
            a.ip_text.clone()
        },
    }
}

/// A peer outside the cluster is counted under its own address whatever
/// `X-Forwarded-For` it sends, so it cannot change its identity per request.
pub proof fn law_external_client_cannot_forge(
    addr: &RemoteAddr,
    forwarded_a: Option<&str>,
    forwarded_b: Option<&str>,
)
    requires
        !is_trusted_proxy_spec(addr.ip),
    ensures
        client_key_spec(Some(addr), forwarded_a) == addr.ip_text@,
        client_key_spec(Some(addr), forwarded_a) == client_key_spec(Some(addr), forwarded_b),
{
}

} // verus!
