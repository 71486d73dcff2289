//! The per-key, per-day budget that the prior-home routes share.

use vstd::prelude::*;

use crate::clock::now_secs;
use crate::federation::reply::Throttled;
use crate::federation::window;
use crate::federation::window::{Window, WindowTable, Windows};

verus! {

/// The budget of a subject key.
pub const PRIOR_HOME_PROBES_PER_DAY_PER_KEY: u32 = 200;

/// A fixed-window limiter keyed by the subject of the request.
#[derive(Debug)]
pub struct PriorHomeRateLimiter {
    windows: WindowTable,
    max_per_window: u32,
}

impl PriorHomeRateLimiter {
    /// The length of a window.
    pub const WINDOW_SECS: u64 = 86_400;

    /// The table of windows holds one window for each key.
    pub closed spec fn wf(&self) -> bool {
        self.windows.wf()
    }

    /// The windows by key.
    pub closed spec fn view(&self) -> Windows {
        self.windows@
    }

    /// The budget of one window.
    pub closed spec fn budget(&self) -> u32 {
        self.max_per_window
    }

    /// A limiter with the given budget, with no window open.
    pub fn new(max_per_window: u32) -> (limiter: Self)
        ensures
            limiter.wf(),
            limiter@ == Map::<Seq<u8>, Window>::empty(),
            limiter.budget() == max_per_window,
    {
        PriorHomeRateLimiter { windows: WindowTable::new(), max_per_window }
    }

    /// Counts a request of `subject_key` now, and tells whether it is admitted.
    pub fn try_admit(&mut self, subject_key: [u8; 32]) -> (ok: bool)
        requires
            old(self).wf(),
        ensures
            final(self).wf(),
            final(self).budget() == old(self).budget(),
            exists|now: u64|
                now <= u64::MAX / 1000 && ok == window::admits(
                    old(self)@,
                    subject_key@,
                    now,
                    Self::WINDOW_SECS,
                    old(self).budget(),
                ) && final(self)@ == #[trigger] window::after_request(
                    old(self)@,
                    subject_key@,
                    now,
                    Self::WINDOW_SECS,
                    old(self).budget(),
                ),
    {
        let now: u64 = now_secs();
        self.try_admit_at(subject_key, now)
    }

    /// Counts a request of `subject_key` at `now_secs`, and tells whether it is
    /// admitted.
    pub fn try_admit_at(&mut self, subject_key: [u8; 32], now_secs: u64) -> (ok: bool)
        requires
            old(self).wf(),
        ensures
            final(self).wf(),
            final(self).budget() == old(self).budget(),
            ok == window::admits(old(self)@, subject_key@, now_secs, Self::WINDOW_SECS, old(self).budget()),
            final(self)@ == window::after_request(
                old(self)@,
                subject_key@,
                now_secs,
                Self::WINDOW_SECS,
                old(self).budget(),
            ),
    {
        let max: u32 = self.max_per_window;
        self.windows.request(subject_key.as_slice(), now_secs, Self::WINDOW_SECS, max)
    }

    /// Drops the windows that have run their course at `now_secs`.
    pub fn cleanup_stale_at(&mut self, now_secs: u64)
        requires
            old(self).wf(),
        ensures
            final(self).wf(),
            final(self).budget() == old(self).budget(),
            final(self)@ == window::live_windows(old(self)@, now_secs, Self::WINDOW_SECS),
    {
        self.windows.drop_stale(now_secs, Self::WINDOW_SECS);
    }

    /// The window of `subject_key`, if it has one.
    pub fn window_of(&self, subject_key: &[u8; 32]) -> (window: Option<Window>)
        requires
            self.wf(),
        ensures
            window is Some <==> self@.contains_key(subject_key@),
            window matches Some(w) ==> w == self@[subject_key@],
    {
        self.windows.get(subject_key.as_slice())
    }
}

impl Default for PriorHomeRateLimiter {
    fn default() -> (limiter: Self)
        ensures
            limiter.wf(),
            limiter@ == Map::<Seq<u8>, Window>::empty(),
            limiter.budget() == PRIOR_HOME_PROBES_PER_DAY_PER_KEY,
    {
        Self::new(PRIOR_HOME_PROBES_PER_DAY_PER_KEY)
    }
}

/// The reply to a request over budget: retry when the window has run its course.
pub fn prior_home_too_many_requests() -> (reply: Throttled)
    ensures
        reply.status == 429,
        reply.retry_after@ == "86400"@,
{
    Throttled { status: 429, retry_after: "86400" }
}

/// Requests for a key are admitted as long as fewer were in the day since its
/// window opened than the budget holds, and a new day begins where that one is
/// over. Other keys are not affected.
pub proof fn law_keys_have_a_budget_for_each_day(
    limiter: &mut PriorHomeRateLimiter,
    subject_key: [u8; 32],
    now_secs: u64,
    ok: bool,
)
    requires
        call_ensures(PriorHomeRateLimiter::try_admit_at, (limiter, subject_key, now_secs), ok),
        old(limiter).wf(),
    ensures
        ({
            let t = old(limiter)@;
            let lasts = t.contains_key(subject_key@) && now_secs < t[subject_key@].start_secs
                + 86_400;
            let count = if lasts {
                t[subject_key@].count as int
            } else {
                0
            };
            &&& ok <==> count < old(limiter).budget()
            &&& final(limiter).budget() == old(limiter).budget()
            &&& final(limiter)@.contains_key(subject_key@)
            &&& final(limiter)@[subject_key@].start_secs == if lasts {
                t[subject_key@].start_secs
            } else {
                now_secs
            }
            &&& final(limiter)@[subject_key@].count == if ok {
                count + 1
            } else {
                count
            }
            &&& final(limiter)@.remove(subject_key@) == t.remove(subject_key@)
        }),
{
    assert(final(limiter)@.remove(subject_key@) =~= old(limiter)@.remove(subject_key@));
}

/// A limiter starts without windows and with the budget that it is given; the
/// usual one is two hundred requests a day. Who is over it is told to come back
/// in a day.
pub proof fn law_the_usual_budget_is_two_hundred(
    max: u32,
    fresh: PriorHomeRateLimiter,
    usual: PriorHomeRateLimiter,
    reply: Throttled,
)
    requires
        call_ensures(PriorHomeRateLimiter::new, (max,), fresh),
        call_ensures(PriorHomeRateLimiter::default, (), usual),
        call_ensures(prior_home_too_many_requests, (), reply),
    ensures
        fresh.budget() == max && fresh@ == Map::<Seq<u8>, Window>::empty(),
        usual.budget() == 200 && usual@ == Map::<Seq<u8>, Window>::empty(),
        reply.status == 429 && reply.retry_after@ == "86400"@,
{
}

/// A sweep drops exactly the windows whose day is over, and a window is found
/// where there is one.
pub proof fn law_days_of_keys_end(
    limiter: &mut PriorHomeRateLimiter,
    now_secs: u64,
    unit: (),
    after: &PriorHomeRateLimiter,
    subject_key: &[u8; 32],
    found: Option<Window>,
)
    requires
        old(limiter).wf(),
        call_ensures(PriorHomeRateLimiter::cleanup_stale_at, (limiter, now_secs), unit),
        *after == *final(limiter),
        call_ensures(PriorHomeRateLimiter::window_of, (after, subject_key), found),
    ensures
        found is Some <==> old(limiter)@.contains_key(subject_key@) && now_secs < old(
            limiter,
        )@[subject_key@].start_secs + 86_400,
        found matches Some(w) ==> w == old(limiter)@[subject_key@],
{
}

} // verus!
