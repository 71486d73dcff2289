//! The per-peer, per-minute request budgets of the push routes.

use vstd::prelude::*;

use crate::clock::now_secs;
use crate::federation::reply::Throttled;
use crate::federation::window;
use crate::federation::window::{Window, WindowTable, Windows};

verus! {

/// The budget of a peer on the user-status route.
pub const USER_STATUS_RPM_PER_PEER: u32 = 60;

/// The budget of a peer on the thread-status route.
pub const THREAD_STATUS_RPM_PER_PEER: u32 = 60;

/// The budget of a peer on the reports route.
pub const REPORTS_RPM_PER_PEER: u32 = 30;

/// A fixed-window limiter keyed by the sending peer.
#[derive(Debug)]
pub struct PushRateLimiter {
    windows: WindowTable,
    max_requests_per_window: u32,
}

impl PushRateLimiter {
    /// The length of a window.
    pub const WINDOW_SECS: u64 = 60;

    /// The table of windows holds one window for each key.
    pub closed spec fn wf(&self) -> bool {
        self.windows.wf()
    }

    /// The windows by key.
    pub closed spec fn view(&self) -> Windows {
        self.windows@
    }

    /// The budget of one window.
    pub closed spec fn budget(&self) -> u32 {
        self.max_requests_per_window
    }

    /// A limiter with the given budget, with no window open.
    pub fn new(max_requests_per_window: u32) -> (limiter: Self)
        ensures
            limiter.wf(),
            limiter@ == Map::<Seq<u8>, Window>::empty(),
            limiter.budget() == max_requests_per_window,
    {
        PushRateLimiter { windows: WindowTable::new(), max_requests_per_window }
    }

    /// The limiter of the user-status route.
    pub fn for_user_status() -> (limiter: Self)
        ensures
            limiter.wf(),
            limiter@ == Map::<Seq<u8>, Window>::empty(),
            limiter.budget() == USER_STATUS_RPM_PER_PEER,
    {
        Self::new(USER_STATUS_RPM_PER_PEER)
    }

    /// The limiter of the thread-status route.
    pub fn for_thread_status() -> (limiter: Self)
        ensures
            limiter.wf(),
            limiter@ == Map::<Seq<u8>, Window>::empty(),
            limiter.budget() == THREAD_STATUS_RPM_PER_PEER,
    {
        Self::new(THREAD_STATUS_RPM_PER_PEER)
    }

    /// The limiter of the reports route.
    pub fn for_reports() -> (limiter: Self)
        ensures
            limiter.wf(),
            limiter@ == Map::<Seq<u8>, Window>::empty(),
            limiter.budget() == REPORTS_RPM_PER_PEER,
    {
        Self::new(REPORTS_RPM_PER_PEER)
    }

    /// Counts a request of `sender` now, and tells whether it is admitted.
    pub fn try_admit(&mut self, sender: [u8; 32]) -> (ok: bool)
        requires
            old(self).wf(),
        ensures
            final(self).wf(),
            final(self).budget() == old(self).budget(),
            exists|now: u64|
                now <= u64::MAX / 1000 && ok == window::admits(
                    old(self)@,
                    sender@,
                    now,
                    Self::WINDOW_SECS,
                    old(self).budget(),
                ) && final(self)@ == #[trigger] window::after_request(
                    old(self)@,
                    sender@,
                    now,
                    Self::WINDOW_SECS,
                    old(self).budget(),
                ),
    {
        let now: u64 = now_secs();
        self.try_admit_at(sender, now)
    }

    /// Counts a request of `sender` at `now_secs`, and tells whether it is
    /// admitted.
    pub fn try_admit_at(&mut self, sender: [u8; 32], now_secs: u64) -> (ok: bool)
        requires
            old(self).wf(),
        ensures
            final(self).wf(),
            final(self).budget() == old(self).budget(),
            ok == window::admits(old(self)@, sender@, now_secs, Self::WINDOW_SECS, old(self).budget()),
            final(self)@ == window::after_request(
                old(self)@,
                sender@,
                now_secs,
                Self::WINDOW_SECS,
                old(self).budget(),
            ),
    {
        let max: u32 = self.max_requests_per_window;
        self.windows.request(sender.as_slice(), now_secs, Self::WINDOW_SECS, max)
    }

    /// Drops the windows that have run their course at `now_secs`.
    pub fn cleanup_stale_at(&mut self, now_secs: u64)
        requires
            old(self).wf(),
        ensures
            final(self).wf(),
            final(self).budget() == old(self).budget(),
            final(self)@ == window::live_windows(old(self)@, now_secs, Self::WINDOW_SECS),
    {
        self.windows.drop_stale(now_secs, Self::WINDOW_SECS);
    }

    /// The window of `sender`, if it has one.
    pub fn window_of(&self, sender: &[u8; 32]) -> (window: Option<Window>)
        requires
            self.wf(),
        ensures
            window is Some <==> self@.contains_key(sender@),
            window matches Some(w) ==> w == self@[sender@],
    {
        self.windows.get(sender.as_slice())
    }
}

/// The reply to a push over budget: retry when the window has run its course.
pub fn push_too_many_requests() -> (reply: Throttled)
    ensures
        reply.status == 429,
        reply.retry_after@ == "60"@,
{
    Throttled { status: 429, retry_after: "60" }
}

/// A peer's requests are admitted as long as fewer were in the minute since its
/// window opened than the budget holds, and a new minute begins where that one
/// is over. Other peers are not affected.
pub proof fn law_peers_have_a_budget_for_each_minute(
    limiter: &mut PushRateLimiter,
    sender: [u8; 32],
    now_secs: u64,
    ok: bool,
)
    requires
        call_ensures(PushRateLimiter::try_admit_at, (limiter, sender, now_secs), ok),
        old(limiter).wf(),
    ensures
        ({
            let t = old(limiter)@;
            let lasts = t.contains_key(sender@) && now_secs < t[sender@].start_secs + 60;
            let count = if lasts {
                t[sender@].count as int
            } else {
                0
            };
            &&& ok <==> count < old(limiter).budget()
            &&& final(limiter).budget() == old(limiter).budget()
            &&& final(limiter)@.contains_key(sender@)
            &&& final(limiter)@[sender@].start_secs == if lasts {
                t[sender@].start_secs
            } else {
                now_secs
            }
            &&& final(limiter)@[sender@].count == if ok {
                count + 1
            } else {
                count
            }
            &&& final(limiter)@.remove(sender@) == t.remove(sender@)
        }),
{
    assert(final(limiter)@.remove(sender@) =~= old(limiter)@.remove(sender@));
}

/// The routes have their budgets: sixty requests a minute for the status of
/// users and of threads, and thirty for reports. Who is over it is told to
/// come back in a minute.
pub proof fn law_routes_have_their_budgets(
    user_status: PushRateLimiter,
    thread_status: PushRateLimiter,
    reports: PushRateLimiter,
    reply: Throttled,
)
    requires
        call_ensures(PushRateLimiter::for_user_status, (), user_status),
        call_ensures(PushRateLimiter::for_thread_status, (), thread_status),
        call_ensures(PushRateLimiter::for_reports, (), reports),
        call_ensures(push_too_many_requests, (), reply),
    ensures
        user_status.budget() == 60 && user_status@ == Map::<Seq<u8>, Window>::empty(),
        thread_status.budget() == 60 && thread_status@ == Map::<Seq<u8>, Window>::empty(),
        reports.budget() == 30 && reports@ == Map::<Seq<u8>, Window>::empty(),
        reply.status == 429 && reply.retry_after@ == "60"@,
{
}

/// A sweep drops exactly the windows whose minute is over, and a window is
/// found where there is one.
pub proof fn law_minutes_of_peers_end(
    limiter: &mut PushRateLimiter,
    now_secs: u64,
    unit: (),
    after: &PushRateLimiter,
    sender: &[u8; 32],
    found: Option<Window>,
)
    requires
        old(limiter).wf(),
        call_ensures(PushRateLimiter::cleanup_stale_at, (limiter, now_secs), unit),
        *after == *final(limiter),
        call_ensures(PushRateLimiter::window_of, (after, sender), found),
    ensures
        found is Some <==> old(limiter)@.contains_key(sender@) && now_secs < old(
            limiter,
        )@[sender@].start_secs + 60,
        found matches Some(w) ==> w == old(limiter)@[sender@],
{
}

} // verus!
