//! The per-minute budgets of the prior-home challenge route: one for each
//! caller address and one for each key that a challenge is asked for.

use vstd::prelude::*;

use crate::clock::now_secs;
use crate::federation::reply::Throttled;
use crate::federation::window;
use crate::federation::window::{Window, WindowTable, Windows};

verus! {

/// The budget of one caller address.
pub const PRIOR_HOME_CHALLENGE_RPM_PER_IP: u32 = 60;

/// The budget of one key.
pub const PRIOR_HOME_CHALLENGE_RPM_PER_KEY: u32 = 10;

/// The address of a caller, by its octets.
#[derive(Clone, Copy, Debug, PartialEq, Eq)]
pub enum CallerAddr {
    V4([u8; 4]),
    V6([u8; 16]),
}

impl CallerAddr {
    /// The octets of the address.
    pub open spec fn view(&self) -> Seq<u8> {
        match self {
            CallerAddr::V4(o) => o@,
            CallerAddr::V6(o) => o@,
        }
    }
}

/// Two addresses with the same octets are the same address.
pub proof fn law_addresses_are_told_apart(a: CallerAddr, b: CallerAddr)
    ensures
        a@ == b@ <==> a == b,
{
    if a@ == b@ {
        assert(a@.len() == b@.len());
        match a {
            CallerAddr::V4(x) => {
                let y = b->V4_0;
                assert forall|i: int| 0 <= i < 4 implies x[i] == y[i] by {
                    assert(x@[i] == y@[i]);
                }
                assert(x =~= y);
            },
            CallerAddr::V6(x) => {
                let y = b->V6_0;
                assert forall|i: int| 0 <= i < 16 implies x[i] == y[i] by {
                    assert(x@[i] == y@[i]);
                }
                assert(x =~= y);
            },
        }
    }
}

/// Two fixed-window limiters side by side.
#[derive(Debug)]
pub struct PriorHomeChallengeRateLimiter {
    ips: WindowTable,
    keys: WindowTable,
    max_per_ip_per_window: u32,
    max_per_key_per_window: u32,
}

impl PriorHomeChallengeRateLimiter {
    /// The length of a window.
    pub const WINDOW_SECS: u64 = 60;

    /// Each table holds one window for each key.
    pub closed spec fn wf(&self) -> bool {
        self.ips.wf() && self.keys.wf()
    }

    /// The windows by caller address.
    pub closed spec fn ip_windows(&self) -> Windows {
        self.ips@
    }

    /// The windows by key.
    pub closed spec fn key_windows(&self) -> Windows {
        self.keys@
    }

    /// The budget of one caller address.
    pub closed spec fn ip_budget(&self) -> u32 {
        self.max_per_ip_per_window
    }

    /// The budget of one key.
    pub closed spec fn key_budget(&self) -> u32 {
        self.max_per_key_per_window
    }

    /// A limiter with the given budgets, with no window open.
    pub fn new(max_per_ip_per_window: u32, max_per_key_per_window: u32) -> (limiter: Self)
        ensures
            limiter.wf(),
            limiter.ip_windows() == Map::<Seq<u8>, Window>::empty(),
            limiter.key_windows() == Map::<Seq<u8>, Window>::empty(),
            limiter.ip_budget() == max_per_ip_per_window,
            limiter.key_budget() == max_per_key_per_window,
    {
        PriorHomeChallengeRateLimiter {
            ips: WindowTable::new(),
            keys: WindowTable::new(),
            max_per_ip_per_window,
            max_per_key_per_window,
        }
    }

    /// Replaces both budgets; the open windows stay.
    pub fn set_caps(&mut self, max_per_ip_per_window: u32, max_per_key_per_window: u32)
        requires
            old(self).wf(),
        ensures
            final(self).wf(),
            final(self).ip_windows() == old(self).ip_windows(),
            final(self).key_windows() == old(self).key_windows(),
            final(self).ip_budget() == max_per_ip_per_window,
            final(self).key_budget() == max_per_key_per_window,
    {
        self.max_per_ip_per_window = max_per_ip_per_window;
        self.max_per_key_per_window = max_per_key_per_window;
    }

    /// Counts a request from `ip` now, and tells whether it is admitted.
    pub fn try_admit_ip(&mut self, ip: CallerAddr) -> (ok: bool)
        requires
            old(self).wf(),
        ensures
            final(self).wf(),
            final(self).same_caps(old(self)),
            final(self).key_windows() == old(self).key_windows(),
            exists|now: u64|
                now <= u64::MAX / 1000 && ok == window::admits(
                    old(self).ip_windows(),
                    ip@,
                    now,
                    Self::WINDOW_SECS,
                    old(self).ip_budget(),
                ) && final(self).ip_windows() == #[trigger] window::after_request(
                    old(self).ip_windows(),
                    ip@,
                    now,
                    Self::WINDOW_SECS,
                    old(self).ip_budget(),
                ),
    {
        let now: u64 = now_secs();
        self.try_admit_ip_at(ip, now)
    }

    /// Both budgets are those of `other`.
    pub open spec fn same_caps(&self, other: &Self) -> bool {
        self.ip_budget() == other.ip_budget() && self.key_budget() == other.key_budget()
    }

    /// Counts a request from `ip` at `now_secs`, and tells whether it is
    /// admitted. The budget of no key is touched.
    pub fn try_admit_ip_at(&mut self, ip: CallerAddr, now_secs: u64) -> (ok: bool)
        requires
            old(self).wf(),
        ensures
            final(self).wf(),
            final(self).same_caps(old(self)),
            final(self).key_windows() == old(self).key_windows(),
            ok == window::admits(
                old(self).ip_windows(),
                ip@,
                now_secs,
                Self::WINDOW_SECS,
                old(self).ip_budget(),
            ),
            final(self).ip_windows() == window::after_request(
                old(self).ip_windows(),
                ip@,
                now_secs,
                Self::WINDOW_SECS,
                old(self).ip_budget(),
            ),
    {
        let max: u32 = self.max_per_ip_per_window;
        match ip {
            CallerAddr::V4(o) => self.ips.request(o.as_slice(), now_secs, Self::WINDOW_SECS, max),
            CallerAddr::V6(o) => self.ips.request(o.as_slice(), now_secs, Self::WINDOW_SECS, max),
        }
    }

    /// Counts a request for `key` now, and tells whether it is admitted.
    pub fn try_admit_key(&mut self, key: [u8; 32]) -> (ok: bool)
        requires
            old(self).wf(),
        ensures
            final(self).wf(),
            final(self).same_caps(old(self)),
            final(self).ip_windows() == old(self).ip_windows(),
            exists|now: u64|
                now <= u64::MAX / 1000 && ok == window::admits(
                    old(self).key_windows(),
                    key@,
                    now,
                    Self::WINDOW_SECS,
                    old(self).key_budget(),
                ) && final(self).key_windows() == #[trigger] window::after_request(
                    old(self).key_windows(),
                    key@,
                    now,
                    Self::WINDOW_SECS,
                    old(self).key_budget(),
                ),
    {
        let now: u64 = now_secs();
        self.try_admit_key_at(key, now)
    }

    /// Counts a request for `key` at `now_secs`, and tells whether it is
    /// admitted. The budget of no caller address is touched.
    pub fn try_admit_key_at(&mut self, key: [u8; 32], now_secs: u64) -> (ok: bool)
        requires
            old(self).wf(),
        ensures
            final(self).wf(),
            final(self).same_caps(old(self)),
            final(self).ip_windows() == old(self).ip_windows(),
            ok == window::admits(
                old(self).key_windows(),
                key@,
                now_secs,
                Self::WINDOW_SECS,
                old(self).key_budget(),
            ),
            final(self).key_windows() == window::after_request(
                old(self).key_windows(),
                key@,
                now_secs,
                Self::WINDOW_SECS,
                old(self).key_budget(),
            ),
    {
        let max: u32 = self.max_per_key_per_window;
        self.keys.request(key.as_slice(), now_secs, Self::WINDOW_SECS, max)
    }

    /// Drops the windows of both tables that have run their course.
    pub fn cleanup_stale_at(&mut self, now_secs: u64)
        requires
            old(self).wf(),
        ensures
            final(self).wf(),
            final(self).same_caps(old(self)),
            final(self).ip_windows() == window::live_windows(
                old(self).ip_windows(),
                now_secs,
                Self::WINDOW_SECS,
            ),
            final(self).key_windows() == window::live_windows(
                old(self).key_windows(),
                now_secs,
                Self::WINDOW_SECS,
            ),
    {
        self.ips.drop_stale(now_secs, Self::WINDOW_SECS);
        self.keys.drop_stale(now_secs, Self::WINDOW_SECS);
    }

    /// The window of a caller address, if it has one.
    pub fn ip_window(&self, ip: &CallerAddr) -> (window: Option<Window>)
        requires
            self.wf(),
        ensures
            window is Some <==> self.ip_windows().contains_key(ip@),
            window matches Some(w) ==> w == self.ip_windows()[ip@],
    {
        match ip {
            CallerAddr::V4(o) => self.ips.get(o.as_slice()),
            CallerAddr::V6(o) => self.ips.get(o.as_slice()),
        }
    }

    /// The window of a key, if it has one.
    pub fn key_window(&self, key: &[u8; 32]) -> (window: Option<Window>)
        requires
            self.wf(),
        ensures
            window is Some <==> self.key_windows().contains_key(key@),
            window matches Some(w) ==> w == self.key_windows()[key@],
    {
        self.keys.get(key.as_slice())
    }
}

impl Default for PriorHomeChallengeRateLimiter {
    fn default() -> (limiter: Self)
        ensures
            limiter.wf(),
            limiter.ip_windows() == Map::<Seq<u8>, Window>::empty(),
            limiter.key_windows() == Map::<Seq<u8>, Window>::empty(),
            limiter.ip_budget() == PRIOR_HOME_CHALLENGE_RPM_PER_IP,
            limiter.key_budget() == PRIOR_HOME_CHALLENGE_RPM_PER_KEY,
    {
        Self::new(PRIOR_HOME_CHALLENGE_RPM_PER_IP, PRIOR_HOME_CHALLENGE_RPM_PER_KEY)
    }
}

/// The reply to a request over budget: retry when the window has run its
/// course.
pub fn prior_home_challenge_too_many_requests() -> (reply: Throttled)
    ensures
        reply.status == 429,
        reply.retry_after@ == "60"@,
{
    Throttled { status: 429, retry_after: "60" }
}

/// A caller's requests are admitted as long as fewer were in the minute since
/// its window opened than its budget holds; neither other callers nor any key
/// are affected.
pub proof fn law_callers_have_a_budget_for_each_minute(
    limiter: &mut PriorHomeChallengeRateLimiter,
    ip: CallerAddr,
    now_secs: u64,
    ok: bool,
)
    requires
        call_ensures(
            PriorHomeChallengeRateLimiter::try_admit_ip_at,
            (limiter, ip, now_secs),
            ok,
        ),
        old(limiter).wf(),
    ensures
        ({
            let t = old(limiter).ip_windows();
            let u = final(limiter).ip_windows();
            let lasts = t.contains_key(ip@) && now_secs < t[ip@].start_secs + 60;
            let count = if lasts {
                t[ip@].count as int
            } else {
                0
            };
            &&& ok <==> count < old(limiter).ip_budget()
            &&& u.contains_key(ip@)
            &&& u[ip@].start_secs == if lasts {
                t[ip@].start_secs
            } else {
                now_secs
            }
            &&& u[ip@].count == if ok {
                count + 1
            } else {
                count
            }
            &&& u.remove(ip@) == t.remove(ip@)
            &&& final(limiter).key_windows() == old(limiter).key_windows()
        }),
{
    assert(final(limiter).ip_windows().remove(ip@) =~= old(limiter).ip_windows().remove(ip@));
}

/// Requests for a key are admitted as long as fewer were in the minute since
/// its window opened than its budget holds; neither other keys nor any caller
/// are affected.
pub proof fn law_keys_have_a_budget_for_each_minute(
    limiter: &mut PriorHomeChallengeRateLimiter,
    key: [u8; 32],
    now_secs: u64,
    ok: bool,
)
    requires
        call_ensures(
            PriorHomeChallengeRateLimiter::try_admit_key_at,
            (limiter, key, now_secs),
            ok,
        ),
        old(limiter).wf(),
    ensures
        ({
            let t = old(limiter).key_windows();
            let u = final(limiter).key_windows();
            let lasts = t.contains_key(key@) && now_secs < t[key@].start_secs + 60;
            let count = if lasts {
                t[key@].count as int
            } else {
                0
            };
            &&& ok <==> count < old(limiter).key_budget()
            &&& u.contains_key(key@)
            &&& u[key@].start_secs == if lasts {
                t[key@].start_secs
            } else {
                now_secs
            }
            &&& u[key@].count == if ok {
                count + 1
            } else {
                count
            }
            &&& u.remove(key@) == t.remove(key@)
            &&& final(limiter).ip_windows() == old(limiter).ip_windows()
        }),
{
    assert(final(limiter).key_windows().remove(key@) =~= old(limiter).key_windows().remove(key@));
}

/// A limiter starts without windows and with the budgets that it is given; the
/// usual ones are sixty requests a minute for a caller and ten for a key. New
/// budgets leave the windows, and no request changes the budgets.
pub proof fn law_budgets_are_kept(
    ips: u32,
    keys: u32,
    fresh: PriorHomeChallengeRateLimiter,
    usual: PriorHomeChallengeRateLimiter,
    limiter: &mut PriorHomeChallengeRateLimiter,
    unit: (),
    asked: &mut PriorHomeChallengeRateLimiter,
    key: [u8; 32],
    now_secs: u64,
    ok: bool,
    reply: Throttled,
)
    requires
        call_ensures(PriorHomeChallengeRateLimiter::new, (ips, keys), fresh),
        call_ensures(PriorHomeChallengeRateLimiter::default, (), usual),
        old(limiter).wf(),
        call_ensures(PriorHomeChallengeRateLimiter::set_caps, (limiter, ips, keys), unit),
        old(asked).wf(),
        call_ensures(
            PriorHomeChallengeRateLimiter::try_admit_key_at,
            (asked, key, now_secs),
            ok,
        ),
        call_ensures(prior_home_challenge_too_many_requests, (), reply),
    ensures
        fresh.ip_budget() == ips && fresh.key_budget() == keys,
        fresh.ip_windows() == Map::<Seq<u8>, Window>::empty() && fresh.key_windows() == Map::<
            Seq<u8>,
            Window,
        >::empty(),
        usual.ip_budget() == 60 && usual.key_budget() == 10,
        final(limiter).ip_budget() == ips && final(limiter).key_budget() == keys,
        final(limiter).ip_windows() == old(limiter).ip_windows() && final(limiter).key_windows()
            == old(limiter).key_windows(),
        final(asked).ip_budget() == old(asked).ip_budget() && final(asked).key_budget() == old(
            asked,
        ).key_budget(),
        reply.status == 429 && reply.retry_after@ == "60"@,
{
}

/// The window of a caller and that of a key are found where they have one.
pub proof fn law_windows_of_callers_and_keys_are_found(
    limiter: &PriorHomeChallengeRateLimiter,
    ip: &CallerAddr,
    of_caller: Option<Window>,
    key: &[u8; 32],
    of_key: Option<Window>,
)
    requires
        limiter.wf(),
        call_ensures(PriorHomeChallengeRateLimiter::ip_window, (limiter, ip), of_caller),
        call_ensures(PriorHomeChallengeRateLimiter::key_window, (limiter, key), of_key),
    ensures
        of_caller is Some <==> limiter.ip_windows().contains_key(ip@),
        of_caller matches Some(w) ==> w == limiter.ip_windows()[ip@],
        of_key is Some <==> limiter.key_windows().contains_key(key@),
        of_key matches Some(w) ==> w == limiter.key_windows()[key@],
{
}

/// A sweep drops exactly the windows, of callers and of keys, whose minute is
/// over.
pub proof fn law_minutes_that_are_over_are_dropped(
    limiter: &mut PriorHomeChallengeRateLimiter,
    now_secs: u64,
    unit: (),
    key: Seq<u8>,
)
    requires
        old(limiter).wf(),
        call_ensures(PriorHomeChallengeRateLimiter::cleanup_stale_at, (limiter, now_secs), unit),
    ensures
        final(limiter).ip_windows().contains_key(key) <==> old(limiter).ip_windows().contains_key(
            key,
        ) && now_secs < old(limiter).ip_windows()[key].start_secs + 60,
        final(limiter).key_windows().contains_key(key) <==> old(
            limiter,
        ).key_windows().contains_key(key) && now_secs < old(limiter).key_windows()[key].start_secs
            + 60,
{
}

} // verus!
