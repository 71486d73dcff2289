//! Fixed-window request counters, one window for each key.

use vstd::prelude::*;

use crate::bytes::same_bytes;

verus! {

/// One key's window: when it opened, and how many requests it has admitted.
#[derive(Clone, Copy, Debug, PartialEq, Eq)]
pub struct Window {
    pub start_secs: u64,
    pub count: u32,
}

/// The windows by key.
pub type Windows = Map<Seq<u8>, Window>;

/// The seconds from `start` to `now`, none where the clock went back.
pub open spec fn elapsed(now: u64, start: u64) -> int {
    if now >= start {
        now - start
    } else {
        0
    }
}

/// The window that a request of `key` at `now` falls into: the key's own
/// while it lasts, and a fresh one otherwise.
pub open spec fn current_window(t: Windows, key: Seq<u8>, now: u64, period: u64) -> Window {
    if t.contains_key(key) && elapsed(now, t[key].start_secs) < period {
        t[key]
    } else {
        Window { start_secs: now, count: 0 }
    }
}

/// Whether a request of `key` at `now` is within a budget of `max`.
pub open spec fn admits(t: Windows, key: Seq<u8>, now: u64, period: u64, max: u32) -> bool {
    current_window(t, key, now, period).count < max
}

/// The windows after a request of `key` at `now`: an admitted request counts,
/// a refused one does not.
pub open spec fn after_request(
    t: Windows,
    key: Seq<u8>,
    now: u64,
    period: u64,
    max: u32,
) -> Windows {
    let w = current_window(t, key, now, period);
    t.insert(
        key,
        Window {
            start_secs: w.start_secs,
            count: if w.count < max {
                (w.count + 1) as u32
            } else {
                w.count
            },
        },
    )
}

/// The windows that still last at `now`.
pub open spec fn live_windows(t: Windows, now: u64, period: u64) -> Windows {
    Map::new(
        |k: Seq<u8>| t.contains_key(k) && elapsed(now, t[k].start_secs) < period,
        |k: Seq<u8>| t[k],
    )
}

/// How many of the requests of `key` at `times`, in that order, are admitted.
pub open spec fn admitted(
    t: Windows,
    key: Seq<u8>,
    times: Seq<u64>,
    period: u64,
    max: u32,
) -> nat
    decreases times.len(),
{
    if times.len() == 0 {
        0
    } else {
        (if admits(t, key, times[0], period, max) {
            1nat
        } else {
            0nat
        }) + admitted(
            after_request(t, key, times[0], period, max),
            key,
            times.drop_first(),
            period,
            max,
        )
    }
}

/// A refused request leaves its key's window as it was.
pub proof fn law_refused_request_burns_no_budget(
    t: Windows,
    key: Seq<u8>,
    now: u64,
    period: u64,
    max: u32,
)
    requires
        period > 0,
        !admits(t, key, now, period, max),
    ensures
        current_window(after_request(t, key, now, period, max), key, now, period)
            == current_window(t, key, now, period),
{
}

/// A request of one key leaves the window of every other key alone.
pub proof fn law_keys_have_separate_budgets(
    t: Windows,
    key: Seq<u8>,
    other: Seq<u8>,
    now: u64,
    later: u64,
    period: u64,
    max: u32,
)
    requires
        key != other,
    ensures
        current_window(after_request(t, key, now, period, max), other, later, period)
            == current_window(t, other, later, period),
{
}

/// Once a window has run its course, the next request opens a fresh one and
/// is admitted under any budget that admits anything.
pub proof fn law_window_rolls(t: Windows, key: Seq<u8>, now: u64, period: u64, max: u32)
    requires
        t.contains_key(key),
        elapsed(now, t[key].start_secs) >= period,
        max > 0,
    ensures
        admits(t, key, now, period, max),
        after_request(t, key, now, period, max)[key] == (Window { start_secs: now, count: 1 }),
{
}

/// Dropping the windows that have run their course changes no decision from
/// then on.
pub proof fn law_cleanup_changes_no_decision(
    t: Windows,
    key: Seq<u8>,
    now: u64,
    later: u64,
    period: u64,
    max: u32,
)
    requires
        now <= later,
    ensures
        current_window(live_windows(t, now, period), key, later, period) == current_window(
            t,
            key,
            later,
            period,
        ),
        admits(live_windows(t, now, period), key, later, period, max) == admits(
            t,
            key,
            later,
            period,
            max,
        ),
{
}

proof fn lemma_admitted_in_window(
    t: Windows,
    key: Seq<u8>,
    times: Seq<u64>,
    period: u64,
    max: u32,
)
    requires
        t.contains_key(key),
        t[key].count <= max,
        forall|i: int|
            0 <= i < times.len() ==> elapsed(#[trigger] times[i], t[key].start_secs) < period,
    ensures
        admitted(t, key, times, period, max) == (if times.len() < max - t[key].count {
            times.len() as int
        } else {
            max - t[key].count
        }),
    decreases times.len(),
{
    if times.len() > 0 {
        assert(elapsed(times[0], t[key].start_secs) < period);
        let next = after_request(t, key, times[0], period, max);
        assert forall|i: int| 0 <= i < times.drop_first().len() implies elapsed(
            #[trigger] times.drop_first()[i],
            next[key].start_secs,
        ) < period by {
            assert(times.drop_first()[i] == times[i + 1]);
        }
        lemma_admitted_in_window(next, key, times.drop_first(), period, max);
    }
}

/// Of the requests of one key that fall into the window which the first of
/// them opens, exactly as many are admitted as the budget holds, and all of
/// them where there are no more than that.
pub proof fn law_window_admits_its_budget(
    t: Windows,
    key: Seq<u8>,
    times: Seq<u64>,
    period: u64,
    max: u32,
)
    requires
        times.len() > 0,
        !t.contains_key(key) || elapsed(times[0], t[key].start_secs) >= period,
        forall|i: int| 0 <= i < times.len() ==> elapsed(#[trigger] times[i], times[0]) < period,
    ensures
        admitted(t, key, times, period, max) == (if times.len() < max {
            times.len() as int
        } else {
            max as int
        }),
{
    let next = after_request(t, key, times[0], period, max);
    assert(elapsed(times[0], times[0]) < period);
    assert forall|i: int| 0 <= i < times.drop_first().len() implies elapsed(
        #[trigger] times.drop_first()[i],
        next[key].start_secs,
    ) < period by {
        assert(times.drop_first()[i] == times[i + 1]);
    }
    lemma_admitted_in_window(next, key, times.drop_first(), period, max);
}

/// What happens to a limiter: a request of a key, or a sweep.
pub enum Event {
    Request { key: Seq<u8>, now: u64 },
    Cleanup { now: u64 },
}

/// When an event happens.
pub open spec fn time_of(e: Event) -> u64 {
    match e {
        Event::Request { now, .. } => now,
        Event::Cleanup { now } => now,
    }
}

/// The windows after a series of events on a new limiter.
pub open spec fn run(events: Seq<Event>, period: u64, max: u32) -> Windows
    decreases events.len(),
{
    if events.len() == 0 {
        Map::empty()
    } else {
        let before = run(events.drop_last(), period, max);
        match events.last() {
            Event::Request { key, now } => after_request(before, key, now, period, max),
            Event::Cleanup { now } => live_windows(before, now, period),
        }
    }
}

/// Whether no event happens before an earlier one.
pub open spec fn in_order(events: Seq<Event>) -> bool {
    forall|i: int, j: int|
        #![trigger events[i], events[j]]
        0 <= i <= j < events.len() ==> time_of(events[i]) <= time_of(events[j])
}

/// How many requests of `key` are admitted in the stretch of one window's
/// length from `from` on.
pub open spec fn admitted_within(
    events: Seq<Event>,
    key: Seq<u8>,
    from: int,
    period: u64,
    max: u32,
) -> nat
    decreases events.len(),
{
    if events.len() == 0 {
        0
    } else {
        let rest = events.drop_last();
        admitted_within(rest, key, from, period, max) + match events.last() {
            Event::Request { key: k, now } => if k == key && from <= now < from + period && admits(
                run(rest, period, max),
                key,
                now,
                period,
                max,
            ) {
                1nat
            } else {
                0nat
            },
            Event::Cleanup { .. } => 0nat,
        }
    }
}

proof fn lemma_order_of_the_rest(events: Seq<Event>)
    requires
        in_order(events),
        events.len() > 0,
    ensures
        in_order(events.drop_last()),
        events.drop_last().len() > 0 ==> time_of(events.drop_last().last()) <= time_of(
            events.last(),
        ),
{
    let rest = events.drop_last();
    assert forall|i: int, j: int|
        #![trigger rest[i], rest[j]]
        0 <= i <= j < rest.len() implies time_of(rest[i]) <= time_of(rest[j]) by {
        assert(rest[i] == events[i] && rest[j] == events[j]);
    }
    if rest.len() > 0 {
        assert(rest.last() == events[events.len() - 2]);
        assert(events.last() == events[events.len() - 1]);
    }
}

proof fn lemma_windows_are_of_the_past(
    events: Seq<Event>,
    key: Seq<u8>,
    period: u64,
    max: u32,
)
    requires
        in_order(events),
        events.len() > 0,
    ensures
        run(events, period, max).contains_key(key) ==> run(events, period, max)[key].start_secs
            <= time_of(events.last()) && run(events, period, max)[key].count <= max,
    decreases events.len(),
{
    lemma_order_of_the_rest(events);
    if events.len() > 1 {
        lemma_windows_are_of_the_past(events.drop_last(), key, period, max);
    } else {
        assert(run(events.drop_last(), period, max) == Windows::empty());
    }
}

proof fn lemma_nothing_admitted_before(
    events: Seq<Event>,
    key: Seq<u8>,
    from: int,
    period: u64,
    max: u32,
)
    requires
        in_order(events),
        events.len() == 0 || time_of(events.last()) < from,
    ensures
        admitted_within(events, key, from, period, max) == 0,
    decreases events.len(),
{
    if events.len() > 0 {
        lemma_order_of_the_rest(events);
        lemma_nothing_admitted_before(events.drop_last(), key, from, period, max);
    }
}

/// Whether a key has a window that lasts at `now`.
spec fn is_open(t: Windows, key: Seq<u8>, now: u64, period: u64) -> bool {
    t.contains_key(key) && elapsed(now, t[key].start_secs) < period
}

proof fn lemma_stretch(
    events: Seq<Event>,
    key: Seq<u8>,
    from: int,
    period: u64,
    max: u32,
)
    requires
        in_order(events),
        events.len() > 0,
        period > 0,
    ensures
        ({
            let t = run(events, period, max);
            let n = admitted_within(events, key, from, period, max);
            let last = time_of(events.last());
            &&& n <= 2 * max
            &&& last < from ==> n == 0
            &&& from <= last < from + period ==> if !t.contains_key(key) {
                n <= max
            } else if t[key].start_secs < from {
                n <= t[key].count
            } else {
                n <= max + t[key].count
            }
        }),
    decreases events.len(),
{
    let rest = events.drop_last();
    lemma_order_of_the_rest(events);
    lemma_windows_are_of_the_past(events, key, period, max);
    if events.len() > 1 {
        lemma_stretch(rest, key, from, period, max);
        lemma_windows_are_of_the_past(rest, key, period, max);
    } else {
        assert(rest =~= Seq::<Event>::empty());
    }
}

/// However requests and sweeps follow one another, a key is admitted at most
/// twice its budget in any stretch of one window's length.
pub proof fn law_any_stretch_admits_at_most_twice_the_budget(
    events: Seq<Event>,
    key: Seq<u8>,
    from: int,
    period: u64,
    max: u32,
)
    requires
        in_order(events),
        period > 0,
    ensures
        admitted_within(events, key, from, period, max) <= 2 * max,
{
    if events.len() > 0 {
        lemma_stretch(events, key, from, period, max);
    }
}

proof fn lemma_closed_means_none_now(
    events: Seq<Event>,
    key: Seq<u8>,
    now: u64,
    period: u64,
    max: u32,
)
    requires
        in_order(events),
        events.len() > 0 ==> time_of(events.last()) <= now,
        !is_open(run(events, period, max), key, now, period),
        period > 0,
    ensures
        admitted_within(events, key, now as int, period, max) == 0,
    decreases events.len(),
{
    if events.len() > 0 {
        lemma_order_of_the_rest(events);
        if time_of(events.last()) < now {
            lemma_nothing_admitted_before(events, key, now as int, period, max);
        } else {
            lemma_closed_means_none_now(events.drop_last(), key, now, period, max);
        }
    }
}

/// A window counts what it admitted: however requests and sweeps follow one
/// another, the requests of a key that were admitted since its window opened
/// are as many as the window says, and no more than the budget.
pub proof fn law_window_counts_its_admissions(
    events: Seq<Event>,
    key: Seq<u8>,
    period: u64,
    max: u32,
)
    requires
        in_order(events),
        period > 0,
        run(events, period, max).contains_key(key),
    ensures
        ({
            let w = run(events, period, max)[key];
            &&& admitted_within(events, key, w.start_secs as int, period, max) == w.count
            &&& w.count <= max
        }),
    decreases events.len(),
{
    let rest = events.drop_last();
    lemma_order_of_the_rest(events);
    lemma_windows_are_of_the_past(events, key, period, max);
    let before = run(rest, period, max);
    if before.contains_key(key) {
        law_window_counts_its_admissions(rest, key, period, max);
        lemma_windows_are_of_the_past(rest, key, period, max);
    }
    if let Event::Request { key: k, now } = events.last() {
        if k == key && !is_open(before, key, now, period) {
            lemma_closed_means_none_now(rest, key, now, period, max);
        }
    }
}

/// The windows of a limiter.
#[derive(Debug)]
pub struct WindowTable {
    entries: Vec<(Vec<u8>, Window)>,
}

impl WindowTable {
    /// No key has two windows.
    pub closed spec fn wf(&self) -> bool {
        forall|i: int, j: int|
            0 <= i < j < self.entries@.len() ==> (#[trigger] self.entries@[i]).0@ != (
            #[trigger] self.entries@[j]).0@
    }

    spec fn holds(&self, key: Seq<u8>) -> bool {
        exists|i: int| 0 <= i < self.entries@.len() && (#[trigger] self.entries@[i]).0@ == key
    }

    spec fn place(&self, key: Seq<u8>) -> int {
        choose|i: int| 0 <= i < self.entries@.len() && (#[trigger] self.entries@[i]).0@ == key
    }

    /// The windows by key.
    pub closed spec fn view(&self) -> Windows {
        Map::new(|k: Seq<u8>| self.holds(k), |k: Seq<u8>| self.entries@[self.place(k)].1)
    }

    proof fn lemma_at(&self, i: int)
        requires
            self.wf(),
            0 <= i < self.entries@.len(),
        ensures
            self@.contains_key(self.entries@[i].0@),
            self@[self.entries@[i].0@] == self.entries@[i].1,
    {
        let key = self.entries@[i].0@;
        assert(self.holds(key));
        let p = self.place(key);
        assert(self.entries@[p].0@ == key);
        assert(p == i);
    }

    /// A table without windows.
    pub fn new() -> (table: Self)
        ensures
            table.wf(),
            table@ == Map::<Seq<u8>, Window>::empty(),
    {
        let table = WindowTable { entries: Vec::new() };
        assert(table@ =~= Map::<Seq<u8>, Window>::empty());
        table
    }

    fn find(&self, key: &[u8]) -> (place: Option<usize>)
        requires
            self.wf(),
        ensures
            match place {
                Some(i) => i < self.entries@.len() && self.entries@[i as int].0@ == key@,
                None => !self.holds(key@),
            },
    {
        let mut i: usize = 0;
        while i < self.entries.len()
            invariant
                i <= self.entries.len(),
                forall|j: int| 0 <= j < i ==> (#[trigger] self.entries@[j]).0@ != key@,
            decreases self.entries.len() - i,
        {
            if same_bytes(self.entries[i].0.as_slice(), key) {
                return Some(i);
            }
            i += 1;
        }
        None
    }

    /// The window of `key`, if it has one.
    pub fn get(&self, key: &[u8]) -> (window: Option<Window>)
        requires
            self.wf(),
        ensures
            window is Some <==> self@.contains_key(key@),
            window matches Some(w) ==> w == self@[key@],
    {
        match self.find(key) {
            Some(i) => {
                proof {
                    self.lemma_at(i as int);
                }
                Some(self.entries[i].1)
            },
            None => None,
        }
    }

    fn put(&mut self, key: &[u8], window: Window)
        requires
            old(self).wf(),
        ensures
            final(self).wf(),
            final(self)@ == old(self)@.insert(key@, window),
    {
        match self.find(key) {
            Some(i) => {
                let kept: Vec<u8> = self.entries[i].0.clone();
                self.entries[i] = (kept, window);
                assert(kept@ =~= key@);
                assert(self.entries@[i as int].0@ == key@);
                assert forall|k: Seq<u8>| old(self).holds(k) implies self.holds(k) by {
                    let p = old(self).place(k);
                    assert(self.entries@[p].0@ == k);
                }
                assert forall|k: Seq<u8>| self.holds(k) implies old(self).holds(k) by {
                    let p = self.place(k);
                    assert(old(self).entries@[p].0@ == k);
                }
                proof {
                    self.lemma_at(i as int);
                    assert forall|k: Seq<u8>| k != key@ && self.holds(k) implies self@[k] == old(
                        self,
                    )@[k] by {
                        let p = self.place(k);
                        self.lemma_at(p);
                        old(self).lemma_at(p);
                    }
                    assert(self@ =~= old(self)@.insert(key@, window));
                }
            },
            None => {
                let copy: Vec<u8> = vstd::slice::slice_to_vec(key);
                self.entries.push((copy, window));
                proof {
                    let last = self.entries@.len() - 1;
                    self.lemma_at(last);
                    assert forall|k: Seq<u8>| old(self).holds(k) implies self.holds(k) by {
                        let p = old(self).place(k);
                        assert(self.entries@[p].0@ == k);
                    }
                    assert forall|k: Seq<u8>| k != key@ && self.holds(k) implies old(self).holds(k)
                        && self@[k] == old(self)@[k] by {
                        let p = self.place(k);
                        assert(old(self).entries@[p].0@ == k);
                        self.lemma_at(p);
                        old(self).lemma_at(p);
                    }
                    assert(self@ =~= old(self)@.insert(key@, window));
                }
            },
        }
    }

    /// Counts a request of `key` at `now_secs` against a budget of `max` for
    /// each window of `period_secs`, and tells whether it is admitted.
    pub fn request(&mut self, key: &[u8], now_secs: u64, period_secs: u64, max: u32) -> (ok: bool)
        requires
            old(self).wf(),
        ensures
            final(self).wf(),
            ok == admits(old(self)@, key@, now_secs, period_secs, max),
            final(self)@ == after_request(old(self)@, key@, now_secs, period_secs, max),
    {
        let fresh = Window { start_secs: now_secs, count: 0 };
        let window: Window = match self.get(key) {
            Some(w) => if now_secs.saturating_sub(w.start_secs) < period_secs {
                w
            } else {
                fresh
            },
            None => fresh,
        };
        if window.count >= max {
            self.put(key, window);
            return false;
        }
        self.put(key, Window { start_secs: window.start_secs, count: window.count + 1 });
        true
    }

    /// Drops the windows that have run their course at `now_secs`.
    pub fn drop_stale(&mut self, now_secs: u64, period_secs: u64)
        requires
            old(self).wf(),
        ensures
            final(self).wf(),
            final(self)@ == live_windows(old(self)@, now_secs, period_secs),
    {
        let mut kept: Vec<(Vec<u8>, Window)> = Vec::new();
        let ghost mut from: Seq<int> = Seq::empty();
        let mut i: usize = 0;
        while i < self.entries.len()
            invariant
                i <= self.entries.len(),
                self == old(self),
                self.wf(),
                from.len() == kept@.len(),
                forall|j: int|
                    0 <= j < from.len() ==> 0 <= #[trigger] from[j] < i && kept@[j].0@
                        == self.entries@[from[j]].0@ && kept@[j].1 == self.entries@[from[j]].1
                        && elapsed(now_secs, kept@[j].1.start_secs) < period_secs,
                forall|j: int, k: int| 0 <= j < k < from.len() ==> from[j] < from[k],
                forall|p: int|
                    0 <= p < i && elapsed(now_secs, (#[trigger] self.entries@[p]).1.start_secs)
                        < period_secs ==> exists|j: int| 0 <= j < from.len() && from[j] == p,
            decreases self.entries.len() - i,
        {
            let window: Window = self.entries[i].1;
            if now_secs.saturating_sub(window.start_secs) < period_secs {
                let key: Vec<u8> = self.entries[i].0.clone();
                assert(key@ =~= self.entries@[i as int].0@);
                let ghost before = from;
                kept.push((key, window));
                proof {
                    from = from.push(i as int);
                    assert(from[from.len() - 1] == i as int);
                    assert forall|p: int|
                        0 <= p < i + 1 && elapsed(
                            now_secs,
                            (#[trigger] self.entries@[p]).1.start_secs,
                        ) < period_secs implies exists|j: int|
                        0 <= j < from.len() && from[j] == p by {
                        if p < i {
                            let j = choose|j: int| 0 <= j < before.len() && before[j] == p;
                            assert(from[j] == p);
                        }
                    }
                }
            }
            i += 1;
        }
        self.entries = kept;
        proof {
            let was = *old(self);
            assert forall|j: int, k: int| 0 <= j < k < self.entries@.len() implies (
            #[trigger] self.entries@[j]).0@ != (#[trigger] self.entries@[k]).0@ by {
                assert(from[j] < from[k]);
            }
            let live = live_windows(was@, now_secs, period_secs);
            assert forall|k: Seq<u8>| #[trigger] self@.contains_key(k) implies live.contains_key(k)
                && self@[k] == live[k] by {
                let j = self.place(k);
                self.lemma_at(j);
                was.lemma_at(from[j]);
            }
            assert forall|k: Seq<u8>| #[trigger] live.contains_key(k) implies self@.contains_key(k) by {
                let p = was.place(k);
                was.lemma_at(p);
                let j = choose|j: int| 0 <= j < from.len() && from[j] == p;
                self.lemma_at(j);
            }
            assert(self@ =~= live);
        }
    }
}

/// A window lasts its period from when it opened, also where the clock goes
/// back. A request is admitted as long as fewer were admitted in the window
/// than the budget holds, and is then counted in it; where the key has no
/// window that lasts, one opens with the request. The windows of other keys
/// stay as they are.
pub proof fn law_requests_are_counted_in_their_window(
    table: &mut WindowTable,
    key: &[u8],
    now_secs: u64,
    period_secs: u64,
    max: u32,
    ok: bool,
)
    requires
        call_ensures(WindowTable::request, (table, key, now_secs, period_secs, max), ok),
        old(table).wf(),
    ensures
        ({
            let t = old(table)@;
            let lasts = t.contains_key(key@) && period_secs > 0 && now_secs < t[key@].start_secs
                + period_secs;
            let count = if lasts {
                t[key@].count as int
            } else {
                0
            };
            &&& ok <==> count < max
            &&& final(table)@.contains_key(key@)
            &&& final(table)@[key@].start_secs == if lasts {
                t[key@].start_secs
            } else {
                now_secs
            }
            &&& final(table)@[key@].count == if ok {
                count + 1
            } else {
                count
            }
            &&& final(table)@.remove(key@) == t.remove(key@)
        }),
{
    assert(final(table)@.remove(key@) =~= old(table)@.remove(key@));
}

/// A sweep drops exactly the windows whose period is over.
pub proof fn law_sweeps_drop_what_is_over(
    table: &mut WindowTable,
    now_secs: u64,
    period_secs: u64,
    unit: (),
    key: Seq<u8>,
)
    requires
        call_ensures(WindowTable::drop_stale, (table, now_secs, period_secs), unit),
        old(table).wf(),
    ensures
        final(table)@.contains_key(key) <==> old(table)@.contains_key(key) && period_secs > 0
            && now_secs < old(table)@[key].start_secs + period_secs,
        final(table)@.contains_key(key) ==> final(table)@[key] == old(table)@[key],
{
}

/// A key's window is found where it has one, and a new table has none.
pub proof fn law_windows_are_found(
    table: &WindowTable,
    key: &[u8],
    found: Option<Window>,
    fresh: WindowTable,
)
    requires
        table.wf(),
        call_ensures(WindowTable::get, (table, key), found),
        call_ensures(WindowTable::new, (), fresh),
    ensures
        found is Some <==> table@.contains_key(key@),
        found matches Some(w) ==> w == table@[key@],
        !fresh@.contains_key(key@),
{
}

} // verus!
