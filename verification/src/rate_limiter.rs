//! Limits how many requests are made within a period.
//!
//! Points in time are given in nanoseconds since some fixed moment.

use std::collections::VecDeque;

use vstd::prelude::*;

verus! {

/// The requests that still count at `now`: those from the first on that is not
/// longer ago than the period.
pub open spec fn pruned(history: Seq<u64>, now: u64, period: u64) -> Seq<u64>
    decreases history.len(),
{
    if history.len() > 0 && now - history[0] > period {
        pruned(history.skip(1), now, period)
    } else {
        history
    }
}

/// Points in time in the order in which they come.
pub open spec fn ascending(times: Seq<u64>) -> bool {
    forall|i: int, j: int| 0 <= i <= j < times.len() ==> times[i] <= times[j]
}

/// What a limiter knows.
#[verifier::ext_equal]
pub struct LimiterView {
    pub period: u64,
    pub max_requests: nat,
    pub history: Seq<u64>,
}

/// Allows `max_requests` requests within any period.
pub struct SlidingWindowRateLimiter {
    period: u64,
    max_requests: usize,
    history: VecDeque<u64>,
}

impl View for SlidingWindowRateLimiter {
    type V = LimiterView;

    closed spec fn view(&self) -> LimiterView {
        LimiterView {
            period: self.period,
            max_requests: self.max_requests as nat,
            history: self.history@,
        }
    }
}

impl LimiterView {
    /// At least one request is allowed, and the end of each request's period
    /// is a point in time.
    pub open spec fn valid(self) -> bool {
        &&& self.max_requests > 0
        &&& forall|i: int|
            0 <= i < self.history.len() ==> #[trigger] self.history[i] + self.period <= u64::MAX
    }

    /// The limiter once only the requests that count are left.
    pub open spec fn prune(self, now: u64) -> Self {
        LimiterView { history: pruned(self.history, now, self.period), ..self }
    }

    /// When as many requests stop counting as there are too many.
    pub open spec fn frees_up_at(self) -> int {
        self.history[self.history.len() - self.max_requests] + self.period
    }

    /// Another request is allowed.
    pub open spec fn free(self) -> bool {
        self.history.len() < self.max_requests
    }
}

/// What counts at a time is an end of the history.
proof fn lemma_pruned_is_suffix(history: Seq<u64>, now: u64, period: u64)
    ensures
        pruned(history, now, period).len() <= history.len(),
        pruned(history, now, period) == history.skip(
            history.len() - pruned(history, now, period).len(),
        ),
        forall|i: int|
            0 <= i < history.len() - pruned(history, now, period).len() ==> now
                - #[trigger] history[i] > period,
        pruned(history, now, period).len() > 0 ==> now - pruned(history, now, period)[0] <= period,
    decreases history.len(),
{
    let p = pruned(history, now, period);
    if history.len() > 0 && now - history[0] > period {
        let rest = history.skip(1);
        lemma_pruned_is_suffix(rest, now, period);
        assert(rest.skip(rest.len() - p.len()) =~= history.skip(history.len() - p.len()));
        assert forall|i: int| 0 <= i < history.len() - p.len() implies now - #[trigger] history[i]
            > period by {
            if i > 0 {
                assert(rest[i - 1] == history[i]);
            }
        }
    } else {
        assert(history.skip(0) =~= history);
    }
}

impl SlidingWindowRateLimiter {
    /// Starts without requests.
    pub fn new(period: u64, max_requests: usize) -> (r: Self)
        requires
            max_requests > 0,
        ensures
            r@ == (LimiterView {
                period,
                max_requests: max_requests as nat,
                history: Seq::<u64>::empty(),
            }),
            r@.valid(),
    {
        Self { period, max_requests, history: VecDeque::with_capacity(max_requests) }
    }

    /// Forgets the requests that do not count any more.
    pub fn prune(&mut self, now: u64)
        ensures
            final(self)@ == old(self)@.prune(now),
            old(self)@.valid() ==> final(self)@.valid(),
    {
        let ghost before = self.history@;
        while self.history.len() > 0 && now.saturating_sub(self.history[0]) > self.period
            invariant
                self.period == old(self).period,
                self.max_requests == old(self).max_requests,
                pruned(self.history@, now, self.period) == pruned(before, now, self.period),
            decreases self.history@.len(),
        {
            let ghost h = self.history@;
            self.history.pop_front();
            assert(self.history@ =~= h.skip(1));
        }
        proof {
            lemma_pruned_is_suffix(before, now, self.period);
            assert(self@ =~= old(self)@.prune(now));
            if old(self)@.valid() {
                let k = before.len() - self.history@.len();
                assert forall|i: int| 0 <= i < self@.history.len() implies #[trigger] self@.history[i]
                    + self.period <= u64::MAX by {
                    assert(self@.history[i] == before[i + k]);
                    assert(old(self)@.history[i + k] + self.period <= u64::MAX);
                }
            }
        }
    }

    /// Whether another request is allowed now.
    pub fn can_send(&mut self, now: u64) -> (r: bool)
        ensures
            final(self)@ == old(self)@.prune(now),
            old(self)@.valid() ==> final(self)@.valid(),
            r == final(self)@.free(),
    {
        self.prune(now);
        self.history.len() < self.max_requests
    }

    /// When to look again whether a request is allowed, if none is now: when
    /// as many requests stop counting as there are too many.
    pub fn wait_until(&mut self, now: u64) -> (r: Option<u64>)
        requires
            old(self)@.valid(),
        ensures
            final(self)@ == old(self)@.prune(now),
            final(self)@.valid(),
            r is None <==> final(self)@.free(),
            r is Some ==> r->0 == final(self)@.frees_up_at(),
    {
        if self.can_send(now) {
            return None;
        }
        let index: usize = self.history.len() - self.max_requests;
        let next: u64 = self.history[index];
        assert(self@.history[index as int] + self.period <= u64::MAX);
        Some(next + self.period)
    }

    /// When to look again whether a request is allowed, if none is now: when
    /// the oldest request stops counting.
    pub fn wait_for_oldest(&mut self, now: u64) -> (r: Option<u64>)
        requires
            old(self)@.valid(),
        ensures
            final(self)@ == old(self)@.prune(now),
            final(self)@.valid(),
            r is None <==> final(self)@.free(),
            r is Some ==> r->0 == final(self)@.history[0] + final(self)@.period,
    {
        if self.can_send(now) {
            return None;
        }
        let next: u64 = self.history[0];
        assert(self@.history[0] + self.period <= u64::MAX);
        Some(next + self.period)
    }

    /// Notes that a request was made.
    pub fn register_send(&mut self, now: u64)
        requires
            old(self)@.valid(),
            now + old(self)@.period <= u64::MAX,
        ensures
            final(self)@ == (LimiterView {
                history: old(self)@.prune(now).history.push(now),
                ..old(self)@
            }),
            final(self)@.valid(),
    {
        self.prune(now);
        let ghost before = self@;
        self.history.push_back(now);
        assert forall|i: int| 0 <= i < self@.history.len() implies #[trigger] self@.history[i]
            + self.period <= u64::MAX by {
            if i < before.history.len() {
                assert(before.history[i] + self.period <= u64::MAX);
            }
        }
    }
}

/// Pruning again at a later time is pruning at the later time: a limiter
/// forgets nothing that would still count.
pub proof fn law_pruning_loses_nothing(history: Seq<u64>, earlier: u64, now: u64, period: u64)
    requires
        earlier <= now,
    ensures
        pruned(pruned(history, earlier, period), now, period) == pruned(history, now, period),
    decreases history.len(),
{
    if history.len() > 0 && earlier - history[0] > period {
        law_pruning_loses_nothing(history.skip(1), earlier, now, period);
    }
}

/// Noting a request and pruning later gives the same whether or not the
/// history was pruned before.
pub proof fn law_pruning_before_noting(history: Seq<u64>, now: u64, later: u64, period: u64)
    requires
        now <= later,
    ensures
        pruned(pruned(history, now, period).push(now), later, period) == pruned(
            history.push(now),
            later,
            period,
        ),
    decreases history.len(),
{
    if history.len() > 0 && now - history[0] > period {
        law_pruning_before_noting(history.skip(1), now, later, period);
        assert(history.push(now).skip(1) =~= history.skip(1).push(now));
    }
}

/// Each request was made when one was allowed, counting all requests before.
pub open spec fn obedient(log: Seq<u64>, period: u64, max_requests: nat) -> bool {
    forall|i: int|
        #![trigger log.take(i)]
        0 <= i < log.len() ==> pruned(log.take(i), log[i], period).len() < max_requests
}

/// If every request is made when the limiter allows one, no more than
/// `max_requests` requests are ever made within a period.
pub proof fn law_window_respected(log: Seq<u64>, period: u64, max_requests: nat, i: int)
    requires
        0 < max_requests,
        ascending(log),
        obedient(log, period, max_requests),
        0 <= i,
        i + max_requests < log.len(),
    ensures
        log[i + max_requests] - log[i] > period,
{
    let j = i + max_requests;
    let before = log.take(j);
    lemma_pruned_is_suffix(before, log[j], period);
    assert(pruned(before, log[j], period).len() < max_requests);
    assert(before[i] == log[i]);
}

/// As soon as the time to wait is over, a request is allowed.
pub proof fn law_waiting_is_enough(history: Seq<u64>, now: u64, period: u64, max_requests: nat)
    requires
        0 < max_requests <= history.len(),
        ascending(history),
        now > history[history.len() - max_requests] + period,
    ensures
        pruned(history, now, period).len() < max_requests,
{
    lemma_pruned_is_suffix(history, now, period);
    let p = pruned(history, now, period);
    if p.len() >= max_requests {
        assert(p[0] == history[history.len() - p.len()]);
    }
}

/// The limits for one chat: twenty messages a minute, and one a second.
pub struct ChatLimiter {
    pub per_minute: SlidingWindowRateLimiter,
    pub per_second: SlidingWindowRateLimiter,
}

impl ChatLimiter {
    /// The two limits are those for a chat.
    pub open spec fn valid(&self) -> bool {
        &&& self.per_minute@.valid()
        &&& self.per_second@.valid()
        &&& self.per_minute@.period == 60_000_000_000
        &&& self.per_minute@.max_requests == 20
        &&& self.per_second@.period == 1_000_000_000
        &&& self.per_second@.max_requests == 1
    }

    /// Starts without messages.
    pub fn new() -> (r: Self)
        ensures
            r.valid(),
            r.per_minute@.history.len() == 0,
            r.per_second@.history.len() == 0,
    {
        ChatLimiter {
            per_minute: SlidingWindowRateLimiter::new(60_000_000_000, 20),
            per_second: SlidingWindowRateLimiter::new(1_000_000_000, 1),
        }
    }

    /// When to look again whether a message may be sent, if none may now. The
    /// limit for a second is looked at only when the limit for a minute allows
    /// a message.
    pub fn wait_until(&mut self, now: u64) -> (r: Option<u64>)
        requires
            old(self).valid(),
        ensures
            final(self).valid(),
            final(self).per_minute@ == old(self).per_minute@.prune(now),
            final(self).per_second@ == (if final(self).per_minute@.free() {
                old(self).per_second@.prune(now)
            } else {
                old(self).per_second@
            }),
            r is None <==> final(self).per_minute@.free() && final(self).per_second@.free(),
            r is Some ==> r->0 == (if final(self).per_minute@.free() {
                final(self).per_second@.frees_up_at()
            } else {
                final(self).per_minute@.frees_up_at()
            }),
    {
        match self.per_minute.wait_until(now) {
            Some(t) => Some(t),
            None => self.per_second.wait_until(now),
        }
    }

    /// Notes that a message was sent.
    pub fn register_send(&mut self, now: u64)
        requires
            old(self).valid(),
            now + 60_000_000_000 <= u64::MAX,
        ensures
            final(self).valid(),
            final(self).per_minute@.history == old(self).per_minute@.prune(now).history.push(now),
            final(self).per_second@.history == old(self).per_second@.prune(now).history.push(now),
    {
        self.per_minute.register_send(now);
        self.per_second.register_send(now);
    }
}

/// A request is allowed exactly if fewer than the allowed number were made within
/// the period before it: if there were not so many at all, or the one that would
/// have to make room lies back longer than the period.
pub proof fn law_requests_within_the_period_count(
    l: &mut SlidingWindowRateLimiter,
    now: u64,
    r: bool,
)
    requires
        l@.valid(),
        ascending(l@.history),
        call_ensures(SlidingWindowRateLimiter::can_send, (l, now), r),
    ensures
        r <==> {
            let n = old(l)@.history.len() as int;
            let max = old(l)@.max_requests as int;
            n < max || now - old(l)@.history[n - max] > old(l)@.period
        },
        final(l)@.max_requests == old(l)@.max_requests,
        final(l)@.period == old(l)@.period,
{
    let h = old(l)@.history;
    let p = pruned(h, now, old(l)@.period);
    let n = h.len() as int;
    let max = old(l)@.max_requests as int;
    lemma_pruned_is_suffix(h, now, old(l)@.period);
    assert(final(l)@.history == p);
    if n >= max {
        if p.len() >= max {
            assert(p[0] == h[n - p.len()]);
            assert(h[n - p.len()] <= h[n - max]);
        } else {
            assert(now - h[n - max] > old(l)@.period);
        }
    }
}

/// What is forgotten lies back longer than the period, and nothing else is.
pub proof fn law_only_old_requests_are_forgotten(
    l: &mut SlidingWindowRateLimiter,
    now: u64,
) -> (k: int)
    requires
        ascending(l@.history),
        call_ensures(SlidingWindowRateLimiter::prune, (l, now), ()),
    ensures
        0 <= k <= old(l)@.history.len(),
        final(l)@.history == old(l)@.history.skip(k),
        forall|i: int| 0 <= i < k ==> now - #[trigger] old(l)@.history[i] > old(l)@.period,
        forall|i: int|
            k <= i < old(l)@.history.len() ==> now - #[trigger] old(l)@.history[i] <= old(
                l,
            )@.period,
        final(l)@.max_requests == old(l)@.max_requests,
        final(l)@.period == old(l)@.period,
{
    let h = old(l)@.history;
    let p = pruned(h, now, old(l)@.period);
    lemma_pruned_is_suffix(h, now, old(l)@.period);
    let k = h.len() - p.len();
    assert forall|i: int| k <= i < h.len() implies now - #[trigger] h[i] <= old(l)@.period by {
        assert(p[0] == h[k]);
        assert(h[k] <= h[i]);
    }
    k
}

/// There is a time to wait for exactly if no request is allowed. It is when the
/// period of the request ends that has to make room, and any time after it a
/// request is allowed.
pub proof fn law_waiting_ends(
    l: &mut SlidingWindowRateLimiter,
    now: u64,
    r: Option<u64>,
    m: &mut SlidingWindowRateLimiter,
    later: u64,
    allowed: bool,
)
    requires
        l@.valid(),
        ascending(l@.history),
        call_ensures(SlidingWindowRateLimiter::wait_until, (l, now), r),
        *m == *final(l),
        call_ensures(SlidingWindowRateLimiter::can_send, (m, later), allowed),
        r matches Some(t) ==> now <= later && t < later,
        r is None ==> now == later,
    ensures
        r is None <==> {
            let n = old(l)@.history.len() as int;
            let max = old(l)@.max_requests as int;
            n < max || now - old(l)@.history[n - max] > old(l)@.period
        },
        r matches Some(t) ==> t == old(l)@.history[old(l)@.history.len() - old(l)@.max_requests]
            + old(l)@.period && now <= t,
        allowed,
{
    let h = old(l)@.history;
    let period = old(l)@.period;
    let p = pruned(h, now, period);
    let n = h.len() as int;
    let max = old(l)@.max_requests as int;
    lemma_pruned_is_suffix(h, now, period);
    if n >= max {
        if p.len() >= max {
            assert(p[0] == h[n - p.len()]);
            assert(h[n - p.len()] <= h[n - max]);
            assert(p[p.len() - max] == h[n - max]);
            assert forall|i: int, j: int| 0 <= i <= j < p.len() implies p[i] <= p[j] by {
                assert(p[i] == h[i + n - p.len()]);
                assert(p[j] == h[j + n - p.len()]);
            }
            law_waiting_is_enough(p, later, period, max as nat);
        } else {
            assert(now - h[n - max] > period);
            law_pruning_loses_nothing(h, now, later, period);
        }
    } else {
        law_pruning_loses_nothing(h, now, later, period);
        lemma_pruned_is_suffix(h, later, period);
    }
}

/// Looking again when the oldest request stops counting waits no longer than
/// needed for one request to stop counting, and only where none is allowed.
pub proof fn law_waiting_for_the_oldest(
    l: &mut SlidingWindowRateLimiter,
    now: u64,
    r: Option<u64>,
    m: &mut SlidingWindowRateLimiter,
    allowed: bool,
)
    requires
        l@.valid(),
        ascending(l@.history),
        call_ensures(SlidingWindowRateLimiter::wait_for_oldest, (l, now), r),
        *m == *l,
        call_ensures(SlidingWindowRateLimiter::can_send, (m, now), allowed),
    ensures
        r is None <==> allowed,
        r matches Some(t) ==> now <= t && (exists|i: int|
            0 <= i < old(l)@.history.len() && t == #[trigger] old(l)@.history[i] + old(l)@.period
                && (forall|j: int|
                0 <= j < i ==> now - #[trigger] old(l)@.history[j] > old(l)@.period)),
{
    let h = old(l)@.history;
    let p = pruned(h, now, old(l)@.period);
    lemma_pruned_is_suffix(h, now, old(l)@.period);
    if let Some(t) = r {
        let i = h.len() - p.len();
        assert(p[0] == h[i]);
        assert(t == h[i] + old(l)@.period);
    }
}

/// A request that was made counts from then on, behind those that still count.
pub proof fn law_requests_are_noted(l: &mut SlidingWindowRateLimiter, now: u64) -> (k: int)
    requires
        l@.valid(),
        now + l@.period <= u64::MAX,
        call_ensures(SlidingWindowRateLimiter::register_send, (l, now), ()),
    ensures
        0 <= k <= old(l)@.history.len(),
        final(l)@.history == old(l)@.history.skip(k).push(now),
        forall|i: int| 0 <= i < k ==> now - #[trigger] old(l)@.history[i] > old(l)@.period,
        final(l)@.max_requests == old(l)@.max_requests,
        final(l)@.period == old(l)@.period,
{
    let h = old(l)@.history;
    lemma_pruned_is_suffix(h, now, old(l)@.period);
    h.len() - pruned(h, now, old(l)@.period).len()
}

/// A limiter starts without requests, with the limit that it is given. So do the
/// two for a chat: twenty messages a minute, and one a second.
pub proof fn law_limiters_start_empty(
    period: u64,
    max_requests: usize,
    l: SlidingWindowRateLimiter,
    c: ChatLimiter,
)
    requires
        max_requests > 0,
        call_ensures(SlidingWindowRateLimiter::new, (period, max_requests), l),
        call_ensures(ChatLimiter::new, (), c),
    ensures
        l@.history.len() == 0,
        l@.period == period,
        l@.max_requests == max_requests,
        c.per_minute@.history.len() == 0,
        c.per_minute@.period == 60 * 1_000_000_000,
        c.per_minute@.max_requests == 20,
        c.per_second@.history.len() == 0,
        c.per_second@.period == 1_000_000_000,
        c.per_second@.max_requests == 1,
{
}

/// A message may be sent to a chat exactly if both limits allow one. A message
/// that was sent counts for both.
pub proof fn law_both_limits_hold(
    c: &mut ChatLimiter,
    now: u64,
    r: Option<u64>,
    minute: &mut SlidingWindowRateLimiter,
    second: &mut SlidingWindowRateLimiter,
    in_minute: Option<u64>,
    in_second: Option<u64>,
)
    requires
        c.valid(),
        call_ensures(ChatLimiter::wait_until, (c, now), r),
        *minute == c.per_minute,
        *second == c.per_second,
        call_ensures(SlidingWindowRateLimiter::wait_until, (minute, now), in_minute),
        call_ensures(SlidingWindowRateLimiter::wait_until, (second, now), in_second),
    ensures
        final(c).valid(),
        r is None <==> in_minute is None && in_second is None,
        in_minute is Some ==> r == in_minute,
        in_minute is None ==> r == in_second,
{
}

/// A message that was sent to a chat counts for the minute and for the second.
pub proof fn law_messages_count_for_both(
    c: &mut ChatLimiter,
    now: u64,
    minute: &mut SlidingWindowRateLimiter,
    second: &mut SlidingWindowRateLimiter,
)
    requires
        c.valid(),
        now + 60_000_000_000 <= u64::MAX,
        call_ensures(ChatLimiter::register_send, (c, now), ()),
        *minute == c.per_minute,
        *second == c.per_second,
        call_ensures(SlidingWindowRateLimiter::register_send, (minute, now), ()),
        call_ensures(SlidingWindowRateLimiter::register_send, (second, now), ()),
    ensures
        final(c).per_minute@.history == final(minute)@.history,
        final(c).per_second@.history == final(second)@.history,
{
}

} // verus!
