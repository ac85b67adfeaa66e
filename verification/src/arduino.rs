//! The bus-to-device side of the serial link: which messages may reach the
//! hardware writer, and the leaky-counter rate limit in front of it.

use vstd::prelude::*;
use crate::types::{Command, Message, MessageContent, MessageSource};

verus! {

/// Whether a message source holds command authority: every internal source
/// does, and of the clients only the head of the queue (position 0).
pub open spec fn source_authorized(s: MessageSource) -> bool {
    match s {
        MessageSource::Arduino => true,
        MessageSource::WebsocketServer => true,
        MessageSource::VideoServer => true,
        MessageSource::Client(c) => c.queue_position == 0,
    }
}

/// Decides whether a message source holds command authority.
pub fn source_is_authorized(s: &MessageSource) -> (b: bool)
    ensures
        b == source_authorized(*s),
{
    match s {
        MessageSource::Arduino => true,
        MessageSource::WebsocketServer => true,
        MessageSource::VideoServer => true,
        MessageSource::Client(c) => c.queue_position == 0,
    }
}

/// The command a bus message hands to the hardware writer, if any: exactly
/// the `Command` messages whose source holds authority pass, and nothing
/// else does.
pub fn command_for_device(m: &Message) -> (r: Option<Command>)
    ensures
        r == (if source_authorized(m.source) {
            match m.content {
                MessageContent::Command(d) => Some(d),
                _ => None::<Command>,
            }
        } else {
            None::<Command>
        }),
{
    if !source_is_authorized(&m.source) {
        return None;
    }
    match &m.content {
        MessageContent::Command(c) => Some(*c),
        _ => None,
    }
}

/// The count after one more command is seen; the counter saturates at ten,
/// where all further commands behave alike.
pub open spec fn limiter_next_count(c: nat) -> nat {
    if c < 10 {
        c + 1
    } else {
        10
    }
}

/// Whether a command seen at `now` is forwarded: it is unless ten or more
/// commands have been counted and the window that started at `start` is
/// younger than 100 ms.
pub open spec fn limiter_accepts(c: nat, start: int, now: int) -> bool {
    limiter_next_count(c) < 10 || now - start >= 100
}

/// The limiter state after a command seen at `now`: counting, dropping, or
/// resetting the window.
pub open spec fn limiter_after(c: nat, start: int, now: int) -> (nat, int) {
    if limiter_next_count(c) < 10 {
        (limiter_next_count(c), start)
    } else if now - start >= 100 {
        (0, now)
    } else {
        (10, start)
    }
}

/// How many of a run of commands at the given times the limiter forwards,
/// starting from count `c` and window start `start`.
pub open spec fn limiter_run_accepts(c: nat, start: int, times: Seq<int>) -> nat
    decreases times.len(),
{
    if times.len() == 0 {
        0
    } else {
        (if limiter_accepts(c, start, times[0]) {
            1nat
        } else {
            0nat
        }) + limiter_run_accepts(
            limiter_after(c, start, times[0]).0,
            limiter_after(c, start, times[0]).1,
            times.skip(1),
        )
    }
}

/// Rate limit law: of the commands that arrive during the 100 ms that follow
/// a window start, at most `10 - c` are forwarded, where `c` is the count
/// already accumulated; from a fresh window that is at most ten. Commands
/// accepted late in one window can still crowd the first 100 ms of the next,
/// so the bound is per window, not per arbitrary 100 ms interval.
pub proof fn lemma_rate_limit_window(c: nat, start: int, times: Seq<int>)
    requires
        c <= 10,
        forall|i: int| 0 <= i < times.len() ==> start <= #[trigger] times[i] < start + 100,
    ensures
        limiter_run_accepts(c, start, times) <= 10 - c,
    decreases times.len(),
{
    if times.len() > 0 {
        let (c2, s2) = limiter_after(c, start, times[0]);
        assert(s2 == start);
        assert(forall|i: int|
            0 <= i < times.skip(1).len() ==> start <= #[trigger] times.skip(1)[i] < start + 100);
        lemma_rate_limit_window(c2, s2, times.skip(1));
    }
}

/// Window spacing law: the window start only moves when at least 100 ms
/// have passed since it last moved, so consecutive window starts lie at
/// least 100 ms apart.
pub proof fn lemma_window_gap(c: nat, start: int, now: int)
    requires
        limiter_after(c, start, now).1 != start,
    ensures
        limiter_after(c, start, now).1 == now,
        now - start >= 100,
{
}

/// The leaky counter that limits commands to the serial link: more than ten
/// commands within 100 ms of the window start are dropped.
pub struct RateLimiter {
    count: u64,
    window_start: u64,
}

impl RateLimiter {
    /// The commands counted in the current window, saturated at ten.
    pub closed spec fn count(self) -> u64 {
        self.count
    }

    /// When the current window started, in milliseconds.
    pub closed spec fn window_start(self) -> u64 {
        self.window_start
    }

    pub open spec fn wf(self) -> bool {
        self.count() <= 10
    }

    /// A fresh limiter whose window starts at `now_ms`.
    pub fn new(now_ms: u64) -> (r: RateLimiter)
        ensures
            r.wf(),
            r.count() == 0,
            r.window_start() == now_ms,
    {
        RateLimiter { count: 0, window_start: now_ms }
    }

    /// Counts one command seen at `now_ms` and says whether to forward it.
    /// Time must not run backwards across calls.
    pub fn allow(&mut self, now_ms: u64) -> (forward: bool)
        requires
            old(self).wf(),
            now_ms >= old(self).window_start(),
        ensures
            final(self).wf(),
            forward == limiter_accepts(
                old(self).count() as nat,
                old(self).window_start() as int,
                now_ms as int,
            ),
            final(self).count() == limiter_after(
                old(self).count() as nat,
                old(self).window_start() as int,
                now_ms as int,
            ).0,
            final(self).window_start() == limiter_after(
                old(self).count() as nat,
                old(self).window_start() as int,
                now_ms as int,
            ).1,
    {
        if self.count < 10 {
            self.count = self.count + 1;
        }
        if self.count >= 10 {
            if now_ms - self.window_start < 100 {
                return false;
            }
            self.count = 0;
            self.window_start = now_ms;
        }
        true
    }
}

} // verus!
