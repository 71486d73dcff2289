//! What an administrator sees of the running instance: requests and failures
//! of the last day, and how long things took.

use std::collections::VecDeque;

use vstd::prelude::*;

use crate::sort;
use crate::sort::sort_values;
use crate::text::same_text;
use crate::timestamp;
use crate::timestamp::utc_now;

verus! {

/// How many samples a histogram keeps.
pub const HISTOGRAM_CAPACITY: usize = 1024;

/// How long the rolling window is, in hours.
pub const ROLLING_WINDOW_HOURS: u64 = 24;

/// The milliseconds of an hour.
pub const MS_PER_HOUR: u64 = 3_600_000;

/// The hour of a point in time.
pub open spec fn hour_of(now_ms: u64) -> u64 {
    now_ms / MS_PER_HOUR
}

/// What was counted in one hour.
#[verifier::ext_equal]
pub struct Slot {
    pub hour: Option<u64>,
    pub count: nat,
}

/// What was counted in each hour of a day, by the hour of the day.
pub type Slots = Seq<Slot>;

/// Nothing counted.
pub open spec fn no_slots() -> Slots {
    Seq::new(ROLLING_WINDOW_HOURS as nat, |i: int| Slot { hour: None, count: 0 })
}

/// A number as it is told: one that is too large for 64 bits is told as the
/// largest.
pub open spec fn told(n: nat) -> nat {
    if n <= u64::MAX {
        n
    } else {
        u64::MAX as nat
    }
}

/// What a slot holds of an hour.
pub open spec fn count_in(slot: Slot, hour: u64) -> nat {
    if slot.hour == Some(hour) {
        slot.count
    } else {
        0
    }
}

/// The slots after `n` was counted in an hour: a slot that still holds an
/// earlier day is cleared.
pub open spec fn tick(slots: Slots, hour: u64, n: nat) -> Slots {
    let s = (hour % ROLLING_WINDOW_HOURS) as int;
    slots.update(s, Slot { hour: Some(hour), count: told(count_in(slots[s], hour) + n) })
}

/// Whether a slot belongs to the last day before an hour has passed.
pub open spec fn is_live(slot: Slot, now_hour: u64) -> bool {
    slot.hour is Some && now_hour - slot.hour->Some_0 < ROLLING_WINDOW_HOURS
}

/// What a slot counts for the last day.
pub open spec fn weight(slot: Slot, now_hour: u64) -> nat {
    if is_live(slot, now_hour) {
        slot.count
    } else {
        0
    }
}

/// What was counted in the last day.
pub open spec fn window_sum(slots: Slots, now_hour: u64) -> nat
    decreases slots.len(),
{
    if slots.len() == 0 {
        0
    } else {
        window_sum(slots.drop_last(), now_hour) + weight(slots.last(), now_hour)
    }
}

/// All that the slots hold.
pub open spec fn whole_sum(slots: Slots) -> nat
    decreases slots.len(),
{
    if slots.len() == 0 {
        0
    } else {
        whole_sum(slots.drop_last()) + slots.last().count
    }
}

proof fn lemma_window_sum_update(slots: Slots, s: int, slot: Slot, now_hour: u64)
    requires
        0 <= s < slots.len(),
    ensures
        window_sum(slots.update(s, slot), now_hour) + weight(slots[s], now_hour) == window_sum(
            slots,
            now_hour,
        ) + weight(slot, now_hour),
    decreases slots.len(),
{
    let after = slots.update(s, slot);
    if s == slots.len() - 1 {
        assert(after.drop_last() =~= slots.drop_last());
    } else {
        assert(after.drop_last() =~= slots.drop_last().update(s, slot));
        lemma_window_sum_update(slots.drop_last(), s, slot, now_hour);
    }
}

proof fn lemma_whole_sum_update(slots: Slots, s: int, slot: Slot)
    requires
        0 <= s < slots.len(),
    ensures
        whole_sum(slots.update(s, slot)) + slots[s].count == whole_sum(slots) + slot.count,
        slots[s].count <= whole_sum(slots),
    decreases slots.len(),
{
    let after = slots.update(s, slot);
    if s == slots.len() - 1 {
        assert(after.drop_last() =~= slots.drop_last());
    } else {
        assert(after.drop_last() =~= slots.drop_last().update(s, slot));
        lemma_whole_sum_update(slots.drop_last(), s, slot);
    }
}

proof fn lemma_window_within_whole(slots: Slots, now_hour: u64)
    ensures
        window_sum(slots, now_hour) <= whole_sum(slots),
    decreases slots.len(),
{
    if slots.len() > 0 {
        lemma_window_within_whole(slots.drop_last(), now_hour);
    }
}

proof fn lemma_no_slots_sum()
    ensures
        whole_sum(no_slots()) == 0,
        forall|now_hour: u64| #[trigger] window_sum(no_slots(), now_hour) == 0,
{
    lemma_zero_slots_sum(no_slots());
    assert forall|now_hour: u64| #[trigger] window_sum(no_slots(), now_hour) == 0 by {
        lemma_window_within_whole(no_slots(), now_hour);
    }
}

proof fn lemma_zero_slots_sum(slots: Slots)
    requires
        forall|i: int| 0 <= i < slots.len() ==> (#[trigger] slots[i]).count == 0,
    ensures
        whole_sum(slots) == 0,
    decreases slots.len(),
{
    if slots.len() > 0 {
        let front = slots.drop_last();
        assert forall|i: int| 0 <= i < front.len() implies (#[trigger] front[i]).count == 0 by {
            assert(front[i] == slots[i]);
        }
        lemma_zero_slots_sum(front);
        assert(slots[slots.len() - 1].count == 0);
    }
}

/// Events in their order: in which hour, and how much each counts.
pub type Events = Seq<(u64, nat)>;

/// The slots after a series of events.
pub open spec fn slots_after(events: Events) -> Slots
    decreases events.len(),
{
    if events.len() == 0 {
        no_slots()
    } else {
        tick(slots_after(events.drop_last()), events.last().0, events.last().1)
    }
}

/// What the events of the last day count.
pub open spec fn last_day(events: Events, now_hour: u64) -> nat
    decreases events.len(),
{
    if events.len() == 0 {
        0
    } else {
        last_day(events.drop_last(), now_hour) + if now_hour - events.last().0
            < ROLLING_WINDOW_HOURS {
            events.last().1
        } else {
            0
        }
    }
}

/// The slots, if every number could be told.
spec fn exact_tick(slots: Slots, hour: u64, n: nat) -> Slots {
    let s = (hour % ROLLING_WINDOW_HOURS) as int;
    slots.update(s, Slot { hour: Some(hour), count: count_in(slots[s], hour) + n })
}

spec fn exact_slots(events: Events) -> Slots
    decreases events.len(),
{
    if events.len() == 0 {
        no_slots()
    } else {
        exact_tick(exact_slots(events.drop_last()), events.last().0, events.last().1)
    }
}

proof fn lemma_slots_shape(events: Events, last: u64)
    requires
        forall|i: int| 0 <= i < events.len() ==> (#[trigger] events[i]).0 <= last,
    ensures
        exact_slots(events).len() == ROLLING_WINDOW_HOURS,
        forall|s: int|
            0 <= s < ROLLING_WINDOW_HOURS && (#[trigger] exact_slots(events)[s]).hour is Some
                ==> exact_slots(events)[s].hour->Some_0 % ROLLING_WINDOW_HOURS == s && exact_slots(
                events,
            )[s].hour->Some_0 <= last,
    decreases events.len(),
{
    if events.len() > 0 {
        let front = events.drop_last();
        assert forall|i: int| 0 <= i < front.len() implies (#[trigger] front[i]).0 <= last by {
            assert(front[i] == events[i]);
        }
        lemma_slots_shape(front, last);
        assert(events[events.len() - 1].0 <= last);
    }
}

proof fn lemma_exact_window(events: Events, now_hour: u64)
    requires
        forall|i: int, j: int|
            0 <= i < j < events.len() ==> (#[trigger] events[i]).0 <= (#[trigger] events[j]).0,
        events.len() > 0 ==> events.last().0 <= now_hour,
    ensures
        window_sum(exact_slots(events), now_hour) == last_day(events, now_hour),
    decreases events.len(),
{
    if events.len() == 0 {
        lemma_no_slots_sum();
    } else {
        let front = events.drop_last();
        let (hour, n) = events.last();
        assert forall|i: int, j: int| 0 <= i < j < front.len() implies (
        #[trigger] front[i]).0 <= (#[trigger] front[j]).0 by {
            assert(front[i] == events[i] && front[j] == events[j]);
        }
        if front.len() > 0 {
            assert(front.last() == events[events.len() - 2]);
            assert(events[events.len() - 2].0 <= events[events.len() - 1].0);
        }
        lemma_exact_window(front, now_hour);
        assert forall|i: int| 0 <= i < front.len() implies (#[trigger] front[i]).0 <= hour by {
            assert(front[i] == events[i]);
            assert(events[i].0 <= events[events.len() - 1].0);
        }
        lemma_slots_shape(front, hour);
        let before = exact_slots(front);
        let s = (hour % ROLLING_WINDOW_HOURS) as int;
        let slot = exact_tick(before, hour, n)[s];
        lemma_window_sum_update(before, s, slot, now_hour);
        if before[s].hour is Some && before[s].hour != Some(hour) {
            // The slot holds an earlier day, which is out of the window.
            let old_hour = before[s].hour->Some_0;
            assert(old_hour < hour);
            assert(hour - old_hour >= ROLLING_WINDOW_HOURS);
        }
    }
}

/// Whether slots tell of the same hours as others, each number as it is told.
spec fn tell_of(slots: Slots, exact: Slots) -> bool {
    &&& slots.len() == exact.len()
    &&& forall|i: int|
        0 <= i < slots.len() ==> #[trigger] slots[i] == (Slot {
            hour: exact[i].hour,
            count: told(exact[i].count),
        })
}

proof fn lemma_slots_tell_of_the_exact(events: Events)
    ensures
        slots_after(events).len() == ROLLING_WINDOW_HOURS,
        tell_of(slots_after(events), exact_slots(events)),
    decreases events.len(),
{
    if events.len() > 0 {
        lemma_slots_tell_of_the_exact(events.drop_last());
    }
}

proof fn lemma_told_window(slots: Slots, exact: Slots, now_hour: u64)
    requires
        tell_of(slots, exact),
    ensures
        told(window_sum(slots, now_hour)) == told(window_sum(exact, now_hour)),
        window_sum(slots, now_hour) <= window_sum(exact, now_hour),
    decreases slots.len(),
{
    if slots.len() > 0 {
        let front = slots.drop_last();
        assert forall|i: int| 0 <= i < front.len() implies #[trigger] front[i] == (Slot {
            hour: exact.drop_last()[i].hour,
            count: told(exact.drop_last()[i].count),
        }) by {
            assert(front[i] == slots[i]);
        }
        lemma_told_window(front, exact.drop_last(), now_hour);
        assert(slots[slots.len() - 1] == slots.last());
    }
}

/// The rolling window counts exactly the events of the last day, however many
/// days the counter has run and however much it has counted, as long as the
/// clock does not go back. What is too large for 64 bits is told as the
/// largest number.
pub proof fn law_window_counts_the_last_day(events: Events, now_hour: u64)
    requires
        forall|i: int, j: int|
            0 <= i < j < events.len() ==> (#[trigger] events[i]).0 <= (#[trigger] events[j]).0,
        events.len() > 0 ==> events.last().0 <= now_hour,
    ensures
        told(window_sum(slots_after(events), now_hour)) == told(last_day(events, now_hour)),
{
    lemma_exact_window(events, now_hour);
    lemma_slots_tell_of_the_exact(events);
    lemma_told_window(slots_after(events), exact_slots(events), now_hour);
}

/// What was counted in one hour.
#[derive(Clone, Copy, Debug)]
pub struct HourlyBucket {
    hour: Option<u64>,
    count: u64,
}

/// A count of events of the last day.
#[derive(Debug)]
pub struct HourlyCounter {
    buckets: Vec<HourlyBucket>,
}

fn fresh_hour(hour: Option<u64>, now_hour: u64) -> (same: bool)
    ensures
        same == (hour == Some(now_hour)),
{
    match hour {
        Some(h) => h == now_hour,
        None => false,
    }
}

fn live_hour(hour: Option<u64>, now_hour: u64) -> (live: bool)
    ensures
        live == (hour is Some && now_hour - hour->Some_0 < ROLLING_WINDOW_HOURS),
{
    match hour {
        Some(h) => now_hour.saturating_sub(h) < ROLLING_WINDOW_HOURS,
        None => false,
    }
}

impl HourlyCounter {
    /// What was counted in each hour.
    pub closed spec fn view(&self) -> Slots {
        Seq::new(
            self.buckets@.len(),
            |i: int| Slot { hour: self.buckets@[i].hour, count: self.buckets@[i].count as nat },
        )
    }

    /// There is a slot for each hour of a day.
    pub closed spec fn wf(&self) -> bool {
        self.buckets@.len() == ROLLING_WINDOW_HOURS
    }

    /// Nothing counted.
    pub fn new() -> (counter: Self)
        ensures
            counter.wf(),
            counter@ == no_slots(),
    {
        let mut buckets: Vec<HourlyBucket> = Vec::new();
        let mut i: u64 = 0;
        while i < ROLLING_WINDOW_HOURS
            invariant
                i <= ROLLING_WINDOW_HOURS,
                buckets@.len() == i,
                forall|j: int|
                    0 <= j < i ==> (#[trigger] buckets@[j]).hour is None && buckets@[j].count == 0,
            decreases ROLLING_WINDOW_HOURS - i,
        {
            buckets.push(HourlyBucket { hour: None, count: 0 });
            i += 1;
        }
        let counter = HourlyCounter { buckets };
        assert(counter@ =~= no_slots());
        counter
    }

    /// Counts an event at a time.
    pub fn record_at(&mut self, now_ms: u64)
        requires
            old(self).wf(),
        ensures
            final(self).wf(),
            final(self)@ == tick(old(self)@, hour_of(now_ms), 1),
    {
        let now_hour: u64 = now_ms / MS_PER_HOUR;
        let slot: usize = (now_hour % ROLLING_WINDOW_HOURS) as usize;
        let b: HourlyBucket = self.buckets[slot];
        let count: u64 = if fresh_hour(b.hour, now_hour) {
            b.count.saturating_add(1)
        } else {
            1
        };
        self.buckets.set(slot, HourlyBucket { hour: Some(now_hour), count });
        assert(self@ =~= tick(old(self)@, now_hour, 1));
    }

    /// How many events there were in the last day.
    pub fn count_24h_at(&self, now_ms: u64) -> (count: u64)
        requires
            self.wf(),
        ensures
            count == told(window_sum(self@, hour_of(now_ms))),
    {
        let now_hour: u64 = now_ms / MS_PER_HOUR;
        let ghost all = self@;
        let mut total: u64 = 0;
        let mut i: usize = 0;
        assert(all.take(0) =~= Seq::<Slot>::empty());
        while i < self.buckets.len()
            invariant
                self.wf(),
                all == self@,
                now_hour == hour_of(now_ms),
                i <= self.buckets.len(),
                total == told(window_sum(all.take(i as int), now_hour)),
            decreases self.buckets.len() - i,
        {
            let b: HourlyBucket = self.buckets[i];
            proof {
                assert(all.take(i + 1).drop_last() =~= all.take(i as int));
                assert(all.take(i + 1).last() == all[i as int]);
            }
            if live_hour(b.hour, now_hour) {
                total = total.saturating_add(b.count);
            }
            i += 1;
        }
        assert(all.take(i as int) =~= all);
        total
    }
}

/// A sample: when it was taken, and its value. The value is a number by which
/// samples are ordered.
#[derive(Clone, Copy, Debug, PartialEq, Eq, Structural)]
pub struct TimedSample {
    pub at_ms: u64,
    pub value: u64,
}

/// The latest samples, up to a number.
#[derive(Debug)]
pub struct RingHistogram {
    samples: VecDeque<TimedSample>,
    capacity: usize,
}

/// The samples after one more was taken: where there are as many as are kept,
/// the oldest is dropped.
pub open spec fn after_sample(
    samples: Seq<TimedSample>,
    capacity: nat,
    sample: TimedSample,
) -> Seq<TimedSample> {
    if samples.len() == capacity {
        samples.drop_first().push(sample)
    } else {
        samples.push(sample)
    }
}

/// The values of the samples from a time on.
pub open spec fn values_since(samples: Seq<TimedSample>, since_ms: u64) -> Seq<u64>
    decreases samples.len(),
{
    if samples.len() == 0 {
        Seq::empty()
    } else {
        let before = values_since(samples.drop_last(), since_ms);
        if samples.last().at_ms >= since_ms {
            before.push(samples.last().value)
        } else {
            before
        }
    }
}

/// The place of a quantile, in per cent, among `n` sorted values: the nearest
/// one, and the upper one of two.
pub open spec fn rank(n: nat, percent: nat) -> int {
    ((n - 1) * percent * 2 + 100) / 200
}

/// The quantile of values, in per cent.
pub open spec fn quantile_of(values: Seq<u64>, percent: nat) -> Option<u64> {
    if values.len() == 0 {
        None
    } else {
        Some(
            sort::sorted(values)[rank(
                values.len(),
                if percent > 100 {
                    100
                } else {
                    percent
                },
            )],
        )
    }
}

proof fn lemma_rank_is_a_place(n: nat, percent: nat)
    requires
        n > 0,
        percent <= 100,
    ensures
        0 <= rank(n, percent) < n,
{
    assert(0 <= (n - 1) * percent <= (n - 1) * 100) by (nonlinear_arith)
        requires
            n > 0,
            percent <= 100,
    ;
}

/// A quantile is one of the values.
pub proof fn law_quantile_is_a_value(values: Seq<u64>, percent: nat)
    requires
        values.len() > 0,
    ensures
        quantile_of(values, percent) is Some,
        values.contains(quantile_of(values, percent)->Some_0),
{
    let p: nat = if percent > 100 {
        100
    } else {
        percent
    };
    lemma_rank_is_a_place(values.len(), p);
    let leq = sort::ascending();
    assert(vstd::relations::total_ordering(leq));
    values.lemma_sort_by_ensures(leq);
    let up = sort::sorted(values);
    vstd::seq_lib::to_multiset_len(up);
    vstd::seq_lib::to_multiset_len(values);
    assert(up.contains(up[rank(values.len(), p)]));
    vstd::seq_lib::to_multiset_contains(up, up[rank(values.len(), p)]);
    vstd::seq_lib::to_multiset_contains(values, up[rank(values.len(), p)]);
}

impl RingHistogram {
    /// The samples, the oldest first.
    pub closed spec fn view(&self) -> Seq<TimedSample> {
        self.samples@
    }

    /// How many samples are kept.
    pub closed spec fn kept(&self) -> nat {
        self.capacity as nat
    }

    /// There are no more samples than are kept, and some are.
    pub closed spec fn wf(&self) -> bool {
        0 < self.capacity && self.samples@.len() <= self.capacity
    }

    /// No sample yet.
    pub fn new(capacity: usize) -> (histogram: Self)
        requires
            capacity > 0,
        ensures
            histogram.wf(),
            histogram@ == Seq::<TimedSample>::empty(),
            histogram.kept() == capacity,
    {
        RingHistogram { samples: VecDeque::new(), capacity }
    }

    /// How many samples there are.
    pub fn len(&self) -> (n: usize)
        ensures
            n == self@.len(),
    {
        self.samples.len()
    }

    /// Takes a sample.
    pub fn push(&mut self, at_ms: u64, value: u64)
        requires
            old(self).wf(),
        ensures
            final(self).wf(),
            final(self).kept() == old(self).kept(),
            final(self)@ == after_sample(
                old(self)@,
                old(self).kept(),
                (TimedSample { at_ms, value }),
            ),
    {
        if self.samples.len() == self.capacity {
            let _oldest: Option<TimedSample> = self.samples.pop_front();
            assert(self.samples@ =~= old(self)@.drop_first());
        }
        self.samples.push_back(TimedSample { at_ms, value });
    }

    /// The quantile of all samples, in per cent.
    pub fn quantile(&self, percent: u8) -> (value: Option<u64>)
        requires
            self.wf(),
        ensures
            value == quantile_of(values_since(self@, 0), percent as nat),
    {
        self.quantile_since(percent, 0)
    }

    /// The quantile of the samples from a time on, in per cent.
    pub fn quantile_since(&self, percent: u8, since_ms: u64) -> (value: Option<u64>)
        requires
            self.wf(),
        ensures
            value == quantile_of(values_since(self@, since_ms), percent as nat),
    {
        let mut values: Vec<u64> = Vec::new();
        let mut i: usize = 0;
        assert(self@.take(0) =~= Seq::<TimedSample>::empty());
        while i < self.samples.len()
            invariant
                i <= self.samples@.len(),
                values@ == values_since(self@.take(i as int), since_ms),
            decreases self.samples@.len() - i,
        {
            proof {
                assert(self@.take(i + 1).drop_last() =~= self@.take(i as int));
                assert(self@.take(i + 1).last() == self@[i as int]);
            }
            let sample: TimedSample = self.samples[i];
            if sample.at_ms >= since_ms {
                values.push(sample.value);
            }
            i += 1;
        }
        assert(self@.take(i as int) =~= self@);
        if values.len() == 0 {
            return None;
        }
        let sorted: Vec<u64> = sort_values(&values);
        let p: u8 = if percent > 100 {
            100
        } else {
            percent
        };
        proof {
            lemma_rank_is_a_place(values@.len(), p as nat);
            assert((values@.len() - 1) * p <= 0xffff_ffff_ffff_ffff * 100) by (nonlinear_arith)
                requires
                    values@.len() <= 0xffff_ffff_ffff_ffff,
                    values@.len() > 0,
                    p <= 100,
            ;
        }
        let at: u128 = ((values.len() - 1) as u128 * p as u128 * 2 + 100) / 200;
        Some(sorted[at as usize])
    }
}

/// How a request went.
#[derive(Clone, Copy, Debug, PartialEq, Eq, Structural)]
pub enum StatusClass {
    Success,
    ClientError,
    ServerError,
}

/// How a request with a status went.
pub open spec fn class_of(status: u16) -> StatusClass {
    if 200 <= status <= 399 {
        StatusClass::Success
    } else if 400 <= status <= 499 {
        StatusClass::ClientError
    } else {
        StatusClass::ServerError
    }
}

/// How a request with a status went.
pub fn classify(status: u16) -> (class: StatusClass)
    ensures
        class == class_of(status),
{
    if 200 <= status && status <= 399 {
        StatusClass::Success
    } else if 400 <= status && status <= 499 {
        StatusClass::ClientError
    } else {
        StatusClass::ServerError
    }
}

/// What is counted of requests.
#[derive(Clone, Copy, Debug, PartialEq, Eq, Structural)]
pub enum Count {
    Total,
    Success,
    ClientError,
    ServerError,
}

/// Whether a request with a status is counted under a count.
pub open spec fn counts_under(status: u16, count: Count) -> bool {
    match count {
        Count::Total => true,
        Count::Success => class_of(status) is Success,
        Count::ClientError => class_of(status) is ClientError,
        Count::ServerError => class_of(status) is ServerError,
    }
}

/// What a request with a status counts under a count.
pub open spec fn one_under(status: u16, count: Count) -> nat {
    if counts_under(status, count) {
        1
    } else {
        0
    }
}

/// Requests, by how they went.
#[derive(Clone, Copy, Debug, PartialEq, Eq, Structural)]
pub struct Counters {
    pub total: u64,
    pub success: u64,
    pub client_error: u64,
    pub server_error: u64,
}

impl Counters {
    /// One of the counts.
    pub open spec fn of(&self, count: Count) -> u64 {
        match count {
            Count::Total => self.total,
            Count::Success => self.success,
            Count::ClientError => self.client_error,
            Count::ServerError => self.server_error,
        }
    }

    /// Nothing counted.
    pub fn zero() -> (counters: Counters)
        ensures
            forall|c: Count| #[trigger] counters.of(c) == 0,
    {
        Counters { total: 0, success: 0, client_error: 0, server_error: 0 }
    }

    /// Counts a request more.
    fn count_one(&mut self, class: StatusClass)
        ensures
            forall|c: Count, status: u16|
                #![trigger final(self).of(c), counts_under(status, c)]
                class_of(status) == class ==> final(self).of(c) == told(
                    old(self).of(c) as nat + one_under(status, c),
                ),
    {
        self.total = self.total.saturating_add(1);
        match class {
            StatusClass::Success => {
                self.success = self.success.saturating_add(1);
            },
            StatusClass::ClientError => {
                self.client_error = self.client_error.saturating_add(1);
            },
            StatusClass::ServerError => {
                self.server_error = self.server_error.saturating_add(1);
            },
        }
    }
}

/// The requests of one hour.
#[derive(Clone, Copy, Debug)]
pub struct HourBucket {
    hour: Option<u64>,
    counters: Counters,
}

/// What is known of a route.
#[verifier::ext_equal]
pub struct RouteView {
    /// Requests by hour, under each count.
    pub hours: spec_fn(Count) -> Slots,
    /// Requests since the start, under each count.
    pub cumulative: Counters,
    /// How long requests took.
    pub samples: Seq<TimedSample>,
}

/// A route without a request.
pub open spec fn no_requests() -> RouteView {
    RouteView {
        hours: |c: Count| no_slots(),
        cumulative: Counters { total: 0, success: 0, client_error: 0, server_error: 0 },
        samples: Seq::empty(),
    }
}

/// The counts with a request more.
pub open spec fn counted(before: Counters, status: u16) -> Counters {
    Counters {
        total: told(before.total as nat + one_under(status, Count::Total)) as u64,
        success: told(before.success as nat + one_under(status, Count::Success)) as u64,
        client_error: told(
            before.client_error as nat + one_under(status, Count::ClientError),
        ) as u64,
        server_error: told(
            before.server_error as nat + one_under(status, Count::ServerError),
        ) as u64,
    }
}

/// What is known of a route after a request.
pub open spec fn after_request(
    before: RouteView,
    status: u16,
    latency: u64,
    now_ms: u64,
) -> RouteView {
    RouteView {
        hours: |c: Count| tick((before.hours)(c), hour_of(now_ms), one_under(status, c)),
        cumulative: counted(before.cumulative, status),
        samples: after_sample(
            before.samples,
            HISTOGRAM_CAPACITY as nat,
            TimedSample { at_ms: now_ms, value: latency },
        ),
    }
}

/// The requests of a route.
#[derive(Debug)]
pub struct RouteStats {
    buckets: Vec<HourBucket>,
    cumulative: Counters,
    latency: RingHistogram,
}

/// Which route a request took.
#[derive(Debug)]
pub struct RouteKey {
    pub method: String,
    pub path: String,
}

/// A route, as an administrator sees it.
#[derive(Debug)]
pub struct RouteSnapshot {
    pub method: String,
    pub path: String,
    pub total_24h: u64,
    pub success_24h: u64,
    pub client_error_24h: u64,
    pub server_error_24h: u64,
    pub latency_ms_p50_24h: Option<u64>,
    pub latency_ms_p95_24h: Option<u64>,
    pub latency_ms_p99_24h: Option<u64>,
    pub total_all: u64,
    pub success_all: u64,
    pub client_error_all: u64,
    pub server_error_all: u64,
}

/// When the last day began.
pub open spec fn day_before(now_ms: u64) -> u64 {
    if now_ms >= ROLLING_WINDOW_HOURS * MS_PER_HOUR {
        (now_ms - ROLLING_WINDOW_HOURS * MS_PER_HOUR) as u64
    } else {
        0
    }
}

/// Whether a snapshot shows a route.
pub open spec fn shows_route(
    shown: RouteSnapshot,
    key: (Seq<char>, Seq<char>),
    route: RouteView,
    now_ms: u64,
) -> bool {
    let recent = values_since(route.samples, day_before(now_ms));
    &&& shown.method@ == key.0
    &&& shown.path@ == key.1
    &&& shown.total_24h == told(window_sum((route.hours)(Count::Total), hour_of(now_ms)))
    &&& shown.success_24h == told(window_sum((route.hours)(Count::Success), hour_of(now_ms)))
    &&& shown.client_error_24h == told(
        window_sum((route.hours)(Count::ClientError), hour_of(now_ms)),
    )
    &&& shown.server_error_24h == told(
        window_sum((route.hours)(Count::ServerError), hour_of(now_ms)),
    )
    &&& shown.latency_ms_p50_24h == quantile_of(recent, 50)
    &&& shown.latency_ms_p95_24h == quantile_of(recent, 95)
    &&& shown.latency_ms_p99_24h == quantile_of(recent, 99)
    &&& shown.total_all == route.cumulative.total
    &&& shown.success_all == route.cumulative.success
    &&& shown.client_error_all == route.cumulative.client_error
    &&& shown.server_error_all == route.cumulative.server_error
}

proof fn lemma_counters_equal(a: Counters, b: Counters)
    requires
        forall|c: Count| #[trigger] a.of(c) == b.of(c),
    ensures
        a == b,
{
    assert(a.of(Count::Total) == b.of(Count::Total));
    assert(a.of(Count::Success) == b.of(Count::Success));
    assert(a.of(Count::ClientError) == b.of(Count::ClientError));
    assert(a.of(Count::ServerError) == b.of(Count::ServerError));
}

impl RouteStats {
    /// Requests by hour, under a count.
    pub closed spec fn slots(&self, count: Count) -> Slots {
        Seq::new(
            self.buckets@.len(),
            |i: int|
                Slot {
                    hour: self.buckets@[i].hour,
                    count: self.buckets@[i].counters.of(count) as nat,
                },
        )
    }

    /// What is known of the route.
    pub closed spec fn view(&self) -> RouteView {
        RouteView {
            hours: |c: Count| self.slots(c),
            cumulative: self.cumulative,
            samples: self.latency@,
        }
    }

    /// There is a slot for each hour of a day.
    pub closed spec fn wf(&self) -> bool {
        &&& self.buckets@.len() == ROLLING_WINDOW_HOURS
        &&& self.latency.wf()
        &&& self.latency.kept() == HISTOGRAM_CAPACITY
    }

    /// A route without a request.
    pub fn new() -> (stats: Self)
        ensures
            stats.wf(),
            stats@ == no_requests(),
    {
        let mut buckets: Vec<HourBucket> = Vec::new();
        let mut i: u64 = 0;
        while i < ROLLING_WINDOW_HOURS
            invariant
                i <= ROLLING_WINDOW_HOURS,
                buckets@.len() == i,
                forall|j: int|
                    0 <= j < i ==> (#[trigger] buckets@[j]).hour is None && (forall|c: Count|
                        #[trigger] buckets@[j].counters.of(c) == 0),
            decreases ROLLING_WINDOW_HOURS - i,
        {
            buckets.push(HourBucket { hour: None, counters: Counters::zero() });
            i += 1;
        }
        let stats = RouteStats {
            buckets,
            cumulative: Counters { total: 0, success: 0, client_error: 0, server_error: 0 },
            latency: RingHistogram::new(HISTOGRAM_CAPACITY),
        };
        proof {
            assert forall|c: Count| #[trigger] stats.slots(c) == no_slots() by {
                assert(stats.slots(c) =~= no_slots());
            }
            assert(stats@.hours =~= no_requests().hours);
        }
        stats
    }

    /// Counts a request.
    pub fn record_at(&mut self, status: u16, latency: u64, now_ms: u64)
        requires
            old(self).wf(),
        ensures
            final(self).wf(),
            final(self)@ == after_request(old(self)@, status, latency, now_ms),
    {
        let now_hour: u64 = now_ms / MS_PER_HOUR;
        let slot: usize = (now_hour % ROLLING_WINDOW_HOURS) as usize;
        let class: StatusClass = classify(status);
        let ghost before = *self;
        let b: HourBucket = self.buckets[slot];
        let mut counters: Counters = if fresh_hour(b.hour, now_hour) {
            b.counters
        } else {
            Counters::zero()
        };
        let ghost start = counters;
        counters.count_one(class);
        self.buckets.set(slot, HourBucket { hour: Some(now_hour), counters });
        self.cumulative.count_one(class);
        self.latency.push(now_ms, latency);
        proof {
            let after = after_request(before@, status, latency, now_ms);
            assert forall|c: Count| #[trigger] self.slots(c) == (after.hours)(c) by {
                assert(counts_under(status, c) || !counts_under(status, c));
                assert(counters.of(c) == told(start.of(c) as nat + one_under(status, c)));
                assert(self.slots(c) =~= tick(before.slots(c), now_hour, one_under(status, c)));
            }
            assert(self@.hours =~= after.hours);
            assert forall|c: Count| #[trigger] self.cumulative.of(c) == counted(
                before.cumulative,
                status,
            ).of(c) by {
                assert(counts_under(status, c) || !counts_under(status, c));
            }
            lemma_counters_equal(self.cumulative, counted(before.cumulative, status));
        }
    }

    fn window(&self, now_hour: u64) -> (window: Counters)
        requires
            self.wf(),
        ensures
            forall|c: Count|
                #[trigger] window.of(c) == told(window_sum(self.slots(c), now_hour)),
    {
        let mut window: Counters = Counters::zero();
        let mut i: usize = 0;
        proof {
            assert forall|c: Count| #[trigger] window.of(c) == told(
                window_sum(self.slots(c).take(0), now_hour),
            ) by {
                assert(self.slots(c).take(0) =~= Seq::<Slot>::empty());
            }
        }
        while i < self.buckets.len()
            invariant
                self.wf(),
                i <= self.buckets.len(),
                forall|c: Count|
                    #[trigger] window.of(c) == told(
                        window_sum(self.slots(c).take(i as int), now_hour),
                    ),
            decreases self.buckets.len() - i,
        {
            let b: HourBucket = self.buckets[i];
            let ghost before = window;
            if live_hour(b.hour, now_hour) {
                window = Counters {
                    total: window.total.saturating_add(b.counters.total),
                    success: window.success.saturating_add(b.counters.success),
                    client_error: window.client_error.saturating_add(b.counters.client_error),
                    server_error: window.server_error.saturating_add(b.counters.server_error),
                };
            }
            proof {
                assert forall|c: Count| #[trigger] window.of(c) == told(
                    window_sum(self.slots(c).take(i + 1), now_hour),
                ) by {
                    let taken = self.slots(c).take(i + 1);
                    assert(taken.drop_last() =~= self.slots(c).take(i as int));
                    assert(taken.last() == self.slots(c)[i as int]);
                    assert(before.of(c) == told(window_sum(taken.drop_last(), now_hour)));
                }
            }
            i += 1;
        }
        proof {
            assert forall|c: Count| #[trigger] window.of(c) == told(
                window_sum(self.slots(c), now_hour),
            ) by {
                assert(self.slots(c).take(i as int) =~= self.slots(c));
            }
        }
        window
    }

    /// The route, as an administrator sees it.
    pub fn snapshot_at(&self, key: &RouteKey, now_ms: u64) -> (shown: RouteSnapshot)
        requires
            self.wf(),
        ensures
            shows_route(shown, (key.method@, key.path@), self@, now_ms),
    {
        let now_hour: u64 = now_ms / MS_PER_HOUR;
        let window: Counters = self.window(now_hour);
        let since: u64 = now_ms.saturating_sub(ROLLING_WINDOW_HOURS * MS_PER_HOUR);
        proof {
            assert(window.of(Count::Total) == window.total);
            assert(window.of(Count::Success) == window.success);
            assert(window.of(Count::ClientError) == window.client_error);
            assert(window.of(Count::ServerError) == window.server_error);
        }
        RouteSnapshot {
            method: key.method.clone(),
            path: key.path.clone(),
            total_24h: window.total,
            success_24h: window.success,
            client_error_24h: window.client_error,
            server_error_24h: window.server_error,
            latency_ms_p50_24h: self.latency.quantile_since(50, since),
            latency_ms_p95_24h: self.latency.quantile_since(95, since),
            latency_ms_p99_24h: self.latency.quantile_since(99, since),
            total_all: self.cumulative.total,
            success_all: self.cumulative.success,
            client_error_all: self.cumulative.client_error,
            server_error_all: self.cumulative.server_error,
        }
    }
}

/// What identifies a route: the method and the pattern that its path matched.
pub type RouteName = (Seq<char>, Seq<char>);

/// A route that was taken, and what is known of it.
#[verifier::ext_equal]
pub struct RouteRecord {
    pub name: RouteName,
    pub route: RouteView,
}

/// Whether a route is among those taken.
pub open spec fn is_known(routes: Seq<RouteRecord>, name: RouteName) -> bool {
    exists|i: int| 0 <= i < routes.len() && (#[trigger] routes[i]).name == name
}

/// No route stands there twice.
pub open spec fn names_differ(routes: Seq<RouteRecord>) -> bool {
    forall|i: int, j: int|
        0 <= i < j < routes.len() ==> (#[trigger] routes[i]).name != (#[trigger] routes[j]).name
}

/// Whether the routes after a request are those before with the request
/// counted under its route: a route that was not taken before is added.
pub open spec fn counts_request(
    after: Seq<RouteRecord>,
    before: Seq<RouteRecord>,
    name: RouteName,
    status: u16,
    latency: u64,
    now_ms: u64,
) -> bool {
    if is_known(before, name) {
        &&& after.len() == before.len()
        &&& forall|i: int|
            0 <= i < before.len() ==> #[trigger] after[i] == RouteRecord {
                name: before[i].name,
                route: if before[i].name == name {
                    after_request(before[i].route, status, latency, now_ms)
                } else {
                    before[i].route
                },
            }
    } else {
        after == before.push(
            RouteRecord { name, route: after_request(no_requests(), status, latency, now_ms) },
        )
    }
}

/// Whether a list of snapshots shows every route once, the most requested of
/// the last day first.
pub open spec fn shows_routes(
    shown: Seq<RouteSnapshot>,
    routes: Seq<RouteRecord>,
    now_ms: u64,
) -> bool {
    &&& shown.len() == routes.len()
    &&& forall|i: int|
        0 <= i < routes.len() ==> #[trigger] shows_one_of(shown, routes[i], now_ms)
    &&& forall|j: int| 0 <= j < shown.len() ==> #[trigger] is_one_of(shown[j], routes, now_ms)
    &&& forall|i: int, j: int|
        0 <= i < j < shown.len() ==> name_of(#[trigger] shown[i]) != name_of(#[trigger] shown[j])
    &&& forall|i: int, j: int|
        0 <= i < j < shown.len() ==> (#[trigger] shown[i]).total_24h >= (
        #[trigger] shown[j]).total_24h
}

/// Which route a snapshot names.
pub open spec fn name_of(shown: RouteSnapshot) -> RouteName {
    (shown.method@, shown.path@)
}

/// Whether a snapshot shows one of the routes.
pub open spec fn is_one_of(
    shown: RouteSnapshot,
    routes: Seq<RouteRecord>,
    now_ms: u64,
) -> bool {
    exists|i: int|
        0 <= i < routes.len() && shows_route(
            shown,
            (#[trigger] routes[i]).name,
            routes[i].route,
            now_ms,
        )
}

/// Whether one of the snapshots shows a route.
pub open spec fn shows_one_of(
    shown: Seq<RouteSnapshot>,
    record: RouteRecord,
    now_ms: u64,
) -> bool {
    exists|j: int|
        0 <= j < shown.len() && shows_route(
            #[trigger] shown[j],
            record.name,
            record.route,
            now_ms,
        )
}

proof fn lemma_snapshot_joins(
    before: Seq<RouteSnapshot>,
    routes: Seq<RouteRecord>,
    i: int,
    at: int,
    next: RouteSnapshot,
    now_ms: u64,
)
    requires
        0 <= i < routes.len(),
        0 <= at <= before.len(),
        names_differ(routes),
        shows_routes(before, routes.take(i), now_ms),
        shows_route(next, routes[i].name, routes[i].route, now_ms),
        forall|j: int| 0 <= j < at ==> (#[trigger] before[j]).total_24h >= next.total_24h,
        at < before.len() ==> before[at].total_24h < next.total_24h,
    ensures
        shows_routes(before.insert(at, next), routes.take(i + 1), now_ms),
{
    let after = before.insert(at, next);
    let known = routes.take(i);
    let taken = routes.take(i + 1);
    let record = routes[i];
    assert forall|k: int| 0 <= k < taken.len() implies #[trigger] shows_one_of(
        after,
        taken[k],
        now_ms,
    ) by {
        if k < i {
            assert(taken[k] == known[k]);
            assert(shows_one_of(before, known[k], now_ms));
            let j = choose|j: int|
                0 <= j < before.len() && shows_route(
                    #[trigger] before[j],
                    known[k].name,
                    known[k].route,
                    now_ms,
                );
            let moved = if j < at {
                j
            } else {
                j + 1
            };
            assert(after[moved] == before[j]);
        } else {
            assert(taken[k] == record);
            assert(after[at] == next);
        }
    }
    assert forall|j: int| 0 <= j < after.len() implies #[trigger] is_one_of(
        after[j],
        taken,
        now_ms,
    ) by {
        if j == at {
            assert(taken[i] == record);
        } else {
            let from = if j < at {
                j
            } else {
                j - 1
            };
            assert(is_one_of(before[from], known, now_ms));
            let k = choose|k: int|
                0 <= k < known.len() && shows_route(
                    before[from],
                    (#[trigger] known[k]).name,
                    known[k].route,
                    now_ms,
                );
            assert(taken[k] == known[k]);
        }
    }
    assert forall|j: int| 0 <= j < before.len() implies name_of(
        #[trigger] before[j],
    ) != record.name by {
        assert(is_one_of(before[j], known, now_ms));
        let k = choose|k: int|
            0 <= k < known.len() && shows_route(
                before[j],
                (#[trigger] known[k]).name,
                known[k].route,
                now_ms,
            );
        assert(known[k] == routes[k]);
        assert(routes[k].name != routes[i].name);
    }
    assert forall|a: int, b: int| 0 <= a < b < after.len() implies name_of(
        #[trigger] after[a],
    ) != name_of(#[trigger] after[b]) by {
        let from_a = if a < at {
            a
        } else {
            a - 1
        };
        let from_b = if b < at {
            b
        } else {
            b - 1
        };
        if a != at {
            assert(after[a] == before[from_a]);
        }
        if b != at {
            assert(after[b] == before[from_b]);
        }
    }
    assert forall|a: int, b: int| 0 <= a < b < after.len() implies (
    #[trigger] after[a]).total_24h >= (#[trigger] after[b]).total_24h by {
        let from_a = if a < at {
            a
        } else {
            a - 1
        };
        let from_b = if b < at {
            b
        } else {
            b - 1
        };
        if a != at {
            assert(after[a] == before[from_a]);
        }
        if b != at {
            assert(after[b] == before[from_b]);
        }
        if a == at {
            assert(before[at].total_24h < next.total_24h);
            if from_b > at {
                assert(before[at].total_24h >= before[from_b].total_24h);
            }
        }
    }
}

/// A route and its requests.
#[derive(Debug)]
struct RouteEntry {
    key: RouteKey,
    stats: RouteStats,
}

/// What the administrator sees of the trust graph.
#[derive(Debug)]
pub struct MetricsSnapshot {
    /// Hits and lookups of the search caches, where there were lookups: their
    /// quotient is the hit rate.
    pub bfs_hit_rate: Option<(u64, u64)>,
    pub bfs_total_lookups: u64,
    pub graph_load_ms_p50: Option<u64>,
    pub graph_load_ms_p95: Option<u64>,
    pub graph_load_ms_p99: Option<u64>,
    /// When the graph was last rebuilt, in seconds and nanoseconds since the
    /// epoch.
    pub last_rebuild_at: Option<(i64, u32)>,
}

/// All that is recorded. Durations are kept as numbers by which they are
/// ordered.
#[derive(Debug)]
pub struct Metrics {
    pub bfs_forward_hits: u64,
    pub bfs_forward_misses: u64,
    pub bfs_reverse_hits: u64,
    pub bfs_reverse_misses: u64,
    graph_load_ms: RingHistogram,
    last_rebuild_at: Option<(i64, u32)>,
    routes: Vec<RouteEntry>,
    failed_auth: HourlyCounter,
}

/// What is recorded.
#[verifier::ext_equal]
pub struct MetricsView {
    pub bfs_forward_hits: u64,
    pub bfs_forward_misses: u64,
    pub bfs_reverse_hits: u64,
    pub bfs_reverse_misses: u64,
    /// How long builds of the trust graph took.
    pub graph_loads: Seq<TimedSample>,
    pub last_rebuild_at: Option<(i64, u32)>,
    /// The routes, in the order in which they were first taken.
    pub routes: Seq<RouteRecord>,
    /// Failed logins by hour.
    pub failed_auth: Slots,
}

/// Nothing recorded.
pub open spec fn nothing_recorded() -> MetricsView {
    MetricsView {
        bfs_forward_hits: 0,
        bfs_forward_misses: 0,
        bfs_reverse_hits: 0,
        bfs_reverse_misses: 0,
        graph_loads: Seq::empty(),
        last_rebuild_at: None,
        routes: Seq::empty(),
        failed_auth: no_slots(),
    }
}

/// The milliseconds since the epoch of a point in time.
fn ms_of(instant: (i64, u32)) -> (ms: u64)
    requires
        timestamp::can_be_now(instant),
    ensures
        ms == timestamp::millis_of(instant),
        timestamp::ms_can_be_now(ms),
{
    instant.0 as u64 * 1000 + (instant.1 / 1_000_000) as u64
}

/// The milliseconds since the epoch by the clock.
fn now_ms() -> (now: u64)
    ensures
        timestamp::ms_can_be_now(now),
{
    let now: (i64, u32) = utc_now();
    ms_of(now)
}

impl Metrics {
    /// What is recorded.
    pub closed spec fn view(&self) -> MetricsView {
        MetricsView {
            bfs_forward_hits: self.bfs_forward_hits,
            bfs_forward_misses: self.bfs_forward_misses,
            bfs_reverse_hits: self.bfs_reverse_hits,
            bfs_reverse_misses: self.bfs_reverse_misses,
            graph_loads: self.graph_load_ms@,
            last_rebuild_at: self.last_rebuild_at,
            routes: Seq::new(
                self.routes@.len(),
                |i: int|
                    RouteRecord {
                        name: (self.routes@[i].key.method@, self.routes@[i].key.path@),
                        route: self.routes@[i].stats@,
                    },
            ),
            failed_auth: self.failed_auth@,
        }
    }

    /// No route is recorded twice, and each record is in order.
    pub closed spec fn wf(&self) -> bool {
        &&& self.graph_load_ms.wf()
        &&& self.graph_load_ms.kept() == HISTOGRAM_CAPACITY
        &&& self.failed_auth.wf()
        &&& names_differ(self@.routes)
        &&& forall|i: int|
            0 <= i < self.routes@.len() ==> (#[trigger] self.routes@[i]).stats.wf()
    }

    /// Nothing recorded.
    pub fn new() -> (metrics: Self)
        ensures
            metrics.wf(),
            metrics@ == nothing_recorded(),
    {
        let metrics = Metrics {
            bfs_forward_hits: 0,
            bfs_forward_misses: 0,
            bfs_reverse_hits: 0,
            bfs_reverse_misses: 0,
            graph_load_ms: RingHistogram::new(HISTOGRAM_CAPACITY),
            last_rebuild_at: None,
            routes: Vec::new(),
            failed_auth: HourlyCounter::new(),
        };
        assert(metrics@.routes =~= Seq::<RouteRecord>::empty());
        metrics
    }

    /// Counts a hit of the forward search cache.
    pub fn record_bfs_forward_hit(&mut self)
        requires
            old(self).wf(),
        ensures
            final(self).wf(),
            final(self)@ == (MetricsView {
                bfs_forward_hits: old(self)@.bfs_forward_hits.wrapping_add(1),
                ..old(self)@
            }),
    {
        self.bfs_forward_hits = self.bfs_forward_hits.wrapping_add(1);
        assert(self@.routes =~= old(self)@.routes);
    }

    /// Counts a miss of the forward search cache.
    pub fn record_bfs_forward_miss(&mut self)
        requires
            old(self).wf(),
        ensures
            final(self).wf(),
            final(self)@ == (MetricsView {
                bfs_forward_misses: old(self)@.bfs_forward_misses.wrapping_add(1),
                ..old(self)@
            }),
    {
        self.bfs_forward_misses = self.bfs_forward_misses.wrapping_add(1);
        assert(self@.routes =~= old(self)@.routes);
    }

    /// Counts a hit of the reverse search cache.
    pub fn record_bfs_reverse_hit(&mut self)
        requires
            old(self).wf(),
        ensures
            final(self).wf(),
            final(self)@ == (MetricsView {
                bfs_reverse_hits: old(self)@.bfs_reverse_hits.wrapping_add(1),
                ..old(self)@
            }),
    {
        self.bfs_reverse_hits = self.bfs_reverse_hits.wrapping_add(1);
        assert(self@.routes =~= old(self)@.routes);
    }

    /// Counts a miss of the reverse search cache.
    pub fn record_bfs_reverse_miss(&mut self)
        requires
            old(self).wf(),
        ensures
            final(self).wf(),
            final(self)@ == (MetricsView {
                bfs_reverse_misses: old(self)@.bfs_reverse_misses.wrapping_add(1),
                ..old(self)@
            }),
    {
        self.bfs_reverse_misses = self.bfs_reverse_misses.wrapping_add(1);
        assert(self@.routes =~= old(self)@.routes);
    }

    /// Sets the counts of the search caches to nothing, and leaves the rest:
    /// a new graph comes with new caches.
    pub fn reset_bfs_counters(&mut self)
        requires
            old(self).wf(),
        ensures
            final(self).wf(),
            final(self)@ == (MetricsView {
                bfs_forward_hits: 0,
                bfs_forward_misses: 0,
                bfs_reverse_hits: 0,
                bfs_reverse_misses: 0,
                ..old(self)@
            }),
    {
        self.bfs_forward_hits = 0;
        self.bfs_forward_misses = 0;
        self.bfs_reverse_hits = 0;
        self.bfs_reverse_misses = 0;
        assert(self@.routes =~= old(self)@.routes);
    }

    /// Records how long a build of the trust graph took, at a time.
    pub fn record_graph_load_ms_at(&mut self, ms: u64, now_ms: u64)
        requires
            old(self).wf(),
        ensures
            final(self).wf(),
            final(self)@ == (MetricsView {
                graph_loads: after_sample(
                    old(self)@.graph_loads,
                    HISTOGRAM_CAPACITY as nat,
                    TimedSample { at_ms: now_ms, value: ms },
                ),
                ..old(self)@
            }),
    {
        self.graph_load_ms.push(now_ms, ms);
        assert(self@.routes =~= old(self)@.routes);
    }

    /// Records how long a build of the trust graph took.
    pub fn record_graph_load_ms(&mut self, ms: u64)
        requires
            old(self).wf(),
        ensures
            final(self).wf(),
            exists|now_ms: u64|
                timestamp::ms_can_be_now(now_ms) && final(self)@ == (MetricsView {
                    graph_loads: #[trigger] after_sample(
                        old(self)@.graph_loads,
                        HISTOGRAM_CAPACITY as nat,
                        TimedSample { at_ms: now_ms, value: ms },
                    ),
                    ..old(self)@
                }),
    {
        self.record_graph_load_ms_at(ms, now_ms())
    }

    /// Records when the trust graph was swapped.
    pub fn set_last_rebuild(&mut self, at: (i64, u32))
        requires
            old(self).wf(),
        ensures
            final(self).wf(),
            final(self)@ == (MetricsView { last_rebuild_at: Some(at), ..old(self)@ }),
    {
        self.last_rebuild_at = Some(at);
        assert(self@.routes =~= old(self)@.routes);
    }

    /// Counts a failed login at a time.
    pub fn record_failed_auth_at(&mut self, now_ms: u64)
        requires
            old(self).wf(),
        ensures
            final(self).wf(),
            is_after_failed_auth(final(self)@, old(self)@, now_ms),
    {
        self.failed_auth.record_at(now_ms);
        assert(self@.routes =~= old(self)@.routes);
    }

    /// Counts a failed login.
    pub fn record_failed_auth(&mut self)
        requires
            old(self).wf(),
        ensures
            final(self).wf(),
            exists|now_ms: u64|
                timestamp::ms_can_be_now(now_ms) && #[trigger] is_after_failed_auth(
                    final(self)@,
                    old(self)@,
                    now_ms,
                ),
    {
        self.record_failed_auth_at(now_ms())
    }

    /// How many logins failed in the day before a time.
    pub fn failed_auth_count_24h_at(&self, now_ms: u64) -> (count: u64)
        requires
            self.wf(),
        ensures
            count == told(window_sum(self@.failed_auth, hour_of(now_ms))),
    {
        self.failed_auth.count_24h_at(now_ms)
    }

    /// How many logins failed in the last day.
    pub fn failed_auth_count_24h(&self) -> (count: u64)
        requires
            self.wf(),
        ensures
            exists|now_ms: u64|
                timestamp::ms_can_be_now(now_ms) && count == told(
                    window_sum(self@.failed_auth, #[trigger] hour_of(now_ms)),
                ),
    {
        self.failed_auth_count_24h_at(now_ms())
    }

    /// Counts a request at a time.
    pub fn record_request_at(
        &mut self,
        method: &str,
        path: &str,
        status: u16,
        latency_ms: u64,
        now_ms: u64,
    )
        requires
            old(self).wf(),
        ensures
            final(self).wf(),
            is_after_request(
                final(self)@,
                old(self)@,
                (method@, path@),
                status,
                latency_ms,
                now_ms,
            ),
    {
        let ghost before = *self;
        let ghost name: RouteName = (method@, path@);
        let mut i: usize = 0;
        while i < self.routes.len()
            invariant
                before == *old(self),
                before.wf(),
                *self == before,
                name == (method@, path@),
                i <= self.routes.len(),
                forall|j: int| 0 <= j < i ==> (#[trigger] before@.routes[j]).name != name,
            decreases self.routes.len() - i,
        {
            if same_text(&self.routes[i].key.method, method) && same_text(
                &self.routes[i].key.path,
                path,
            ) {
                assert(before@.routes[i as int].name == name);
                self.routes[i].stats.record_at(status, latency_ms, now_ms);
                proof {
                    assert forall|j: int| 0 <= j < before@.routes.len() implies #[trigger]
                        self@.routes[j] == (RouteRecord {
                        name: before@.routes[j].name,
                        route: if before@.routes[j].name == name {
                            after_request(before@.routes[j].route, status, latency_ms, now_ms)
                        } else {
                            before@.routes[j].route
                        },
                    }) by {
                        if j < i {
                            assert(before@.routes[j].name != before@.routes[i as int].name);
                        } else if j > i {
                            assert(before@.routes[i as int].name != before@.routes[j].name);
                        }
                    }
                    assert(names_differ(self@.routes)) by {
                        assert forall|a: int, b: int|
                            0 <= a < b < self@.routes.len() implies (
                        #[trigger] self@.routes[a]).name != (#[trigger] self@.routes[b]).name by {
                            assert(before@.routes[a].name != before@.routes[b].name);
                        }
                    }
                    assert(is_known(before@.routes, name));
                    assert(self@ =~= MetricsView { routes: self@.routes, ..before@ });
                    assert(counts_request(
                        self@.routes,
                        before@.routes,
                        name,
                        status,
                        latency_ms,
                        now_ms,
                    ));
                }
                return;
            }
            i += 1;
        }
        proof {
            assert forall|j: int| 0 <= j < before@.routes.len() implies (
            #[trigger] before@.routes[j]).name != name by {}
            assert(!is_known(before@.routes, name));
        }
        let mut stats = RouteStats::new();
        stats.record_at(status, latency_ms, now_ms);
        let key = RouteKey { method: method.to_string(), path: path.to_string() };
        self.routes.push(RouteEntry { key, stats });
        proof {
            assert(self@.routes =~= before@.routes.push(
                RouteRecord {
                    name,
                    route: after_request(no_requests(), status, latency_ms, now_ms),
                },
            ));
        }
    }

    /// Counts a request.
    pub fn record_request(&mut self, method: &str, path: &str, status: u16, latency_ms: u64)
        requires
            old(self).wf(),
        ensures
            final(self).wf(),
            exists|now_ms: u64|
                timestamp::ms_can_be_now(now_ms) && #[trigger] is_after_request(
                    final(self)@,
                    old(self)@,
                    (method@, path@),
                    status,
                    latency_ms,
                    now_ms,
                ),
    {
        self.record_request_at(method, path, status, latency_ms, now_ms())
    }

    /// The routes at a time, the most requested of the last day first.
    pub fn route_snapshot_at(&self, now_ms: u64) -> (shown: Vec<RouteSnapshot>)
        requires
            self.wf(),
        ensures
            shows_routes(shown@, self@.routes, now_ms),
    {
        let mut shown: Vec<RouteSnapshot> = Vec::new();
        let mut i: usize = 0;
        while i < self.routes.len()
            invariant
                self.wf(),
                i <= self.routes.len(),
                shows_routes(shown@, self@.routes.take(i as int), now_ms),
            decreases self.routes.len() - i,
        {
            let next: RouteSnapshot = self.routes[i].stats.snapshot_at(
                &self.routes[i].key,
                now_ms,
            );
            let ghost record = self@.routes[i as int];
            assert(shows_route(next, record.name, record.route, now_ms));
            let mut at: usize = 0;
            while at < shown.len() && shown[at].total_24h >= next.total_24h
                invariant
                    at <= shown.len(),
                    forall|j: int|
                        0 <= j < at ==> (#[trigger] shown@[j]).total_24h >= next.total_24h,
                decreases shown.len() - at,
            {
                at += 1;
            }
            let ghost before = shown@;
            shown.insert(at, next);
            proof {
                lemma_snapshot_joins(before, self@.routes, i as int, at as int, next, now_ms);
            }
            i += 1;
        }
        assert(self@.routes.take(i as int) =~= self@.routes);
        shown
    }

    /// The routes, the most requested of the last day first.
    pub fn route_snapshot(&self) -> (shown: Vec<RouteSnapshot>)
        requires
            self.wf(),
        ensures
            exists|now_ms: u64|
                timestamp::ms_can_be_now(now_ms) && #[trigger] shows_routes(
                    shown@,
                    self@.routes,
                    now_ms,
                ),
    {
        self.route_snapshot_at(now_ms())
    }

    /// What the administrator sees of the trust graph.
    pub fn snapshot(&self) -> (shown: MetricsSnapshot)
        requires
            self.wf(),
        ensures
            shown.bfs_total_lookups == hits(self@).wrapping_add(
                self@.bfs_forward_misses,
            ).wrapping_add(self@.bfs_reverse_misses),
            shown.bfs_hit_rate == (if shown.bfs_total_lookups == 0 {
                None
            } else {
                Some((hits(self@), shown.bfs_total_lookups))
            }),
            shown.graph_load_ms_p50 == quantile_of(values_since(self@.graph_loads, 0), 50),
            shown.graph_load_ms_p95 == quantile_of(values_since(self@.graph_loads, 0), 95),
            shown.graph_load_ms_p99 == quantile_of(values_since(self@.graph_loads, 0), 99),
            shown.last_rebuild_at == self@.last_rebuild_at,
    {
        let hits: u64 = self.bfs_forward_hits.wrapping_add(self.bfs_reverse_hits);
        let total: u64 = hits.wrapping_add(self.bfs_forward_misses).wrapping_add(
            self.bfs_reverse_misses,
        );
        MetricsSnapshot {
            bfs_hit_rate: if total == 0 {
                None
            } else {
                Some((hits, total))
            },
            bfs_total_lookups: total,
            graph_load_ms_p50: self.graph_load_ms.quantile(50),
            graph_load_ms_p95: self.graph_load_ms.quantile(95),
            graph_load_ms_p99: self.graph_load_ms.quantile(99),
            last_rebuild_at: self.last_rebuild_at,
        }
    }
}

/// The hits of both search caches.
pub open spec fn hits(metrics: MetricsView) -> u64 {
    metrics.bfs_forward_hits.wrapping_add(metrics.bfs_reverse_hits)
}

/// Whether one record is another with a failed login more.
pub open spec fn is_after_failed_auth(
    after: MetricsView,
    before: MetricsView,
    now_ms: u64,
) -> bool {
    after == MetricsView {
        failed_auth: tick(before.failed_auth, hour_of(now_ms), 1),
        ..before
    }
}

/// Whether one record is another with a request more.
pub open spec fn is_after_request(
    after: MetricsView,
    before: MetricsView,
    name: RouteName,
    status: u16,
    latency_ms: u64,
    now_ms: u64,
) -> bool {
    &&& after == MetricsView { routes: after.routes, ..before }
    &&& counts_request(after.routes, before.routes, name, status, latency_ms, now_ms)
}

impl Default for Metrics {
    /// Nothing recorded.
    fn default() -> (metrics: Self)
        ensures
            metrics.wf(),
            metrics@ == nothing_recorded(),
    {
        Metrics::new()
    }
}

/// The failed logins at some times, each of which counts once.
pub open spec fn logins_at(times: Seq<u64>) -> Events {
    times.map_values(|t: u64| (hour_of(t), 1nat))
}

/// A record that tells of failed logins tells of one more after it was
/// counted. Where nothing is recorded, it tells of none.
pub proof fn law_failed_logins_are_recorded(
    after: MetricsView,
    before: MetricsView,
    times: Seq<u64>,
    now_ms: u64,
)
    requires
        before.failed_auth == slots_after(logins_at(times)),
        is_after_failed_auth(after, before, now_ms),
    ensures
        after.failed_auth == slots_after(logins_at(times.push(now_ms))),
        nothing_recorded().failed_auth == slots_after(logins_at(Seq::empty())),
{
    let more = logins_at(times.push(now_ms));
    assert(more.drop_last() =~= logins_at(times));
    assert(more.last() == (hour_of(now_ms), 1nat));
}

/// Of all the failed logins that were counted, those of the last day are told,
/// as long as the clock does not go back.
pub proof fn law_failed_logins_of_the_last_day(metrics: MetricsView, times: Seq<u64>, now_ms: u64)
    requires
        metrics.failed_auth == slots_after(logins_at(times)),
        forall|i: int, j: int| 0 <= i < j < times.len() ==> times[i] <= times[j],
        times.len() > 0 ==> times.last() <= now_ms,
    ensures
        told(window_sum(metrics.failed_auth, hour_of(now_ms))) == told(
            last_day(logins_at(times), hour_of(now_ms)),
        ),
{
    law_window_counts_the_last_day(logins_at(times), hour_of(now_ms));
}

/// A request leaves all that is known of other routes.
pub proof fn law_routes_are_counted_apart(
    after: MetricsView,
    before: MetricsView,
    name: RouteName,
    status: u16,
    latency_ms: u64,
    now_ms: u64,
    i: int,
)
    requires
        is_after_request(after, before, name, status, latency_ms, now_ms),
        0 <= i < before.routes.len(),
        before.routes[i].name != name,
    ensures
        after.routes[i] == before.routes[i],
        after.failed_auth == before.failed_auth,
        after.graph_loads == before.graph_loads,
{
    if is_known(before.routes, name) {
        assert(after.routes[i].name == before.routes[i].name);
    }
}

/// A request that was made.
#[verifier::ext_equal]
pub struct Request {
    pub name: RouteName,
    pub status: u16,
    pub latency: u64,
    pub now_ms: u64,
}

/// The requests of a route, in their order.
pub open spec fn requests_of(requests: Seq<Request>, name: RouteName) -> Seq<Request>
    decreases requests.len(),
{
    if requests.len() == 0 {
        Seq::empty()
    } else {
        let before = requests_of(requests.drop_last(), name);
        if requests.last().name == name {
            before.push(requests.last())
        } else {
            before
        }
    }
}

/// What is known of a route after its requests.
pub open spec fn route_after(requests: Seq<Request>) -> RouteView
    decreases requests.len(),
{
    if requests.len() == 0 {
        no_requests()
    } else {
        let last = requests.last();
        after_request(route_after(requests.drop_last()), last.status, last.latency, last.now_ms)
    }
}

/// Whether routes are what is known after requests: every route that was taken
/// is among them, and each tells of its own requests.
pub open spec fn tells(routes: Seq<RouteRecord>, requests: Seq<Request>) -> bool {
    &&& forall|i: int|
        0 <= i < routes.len() ==> (#[trigger] routes[i]).route == route_after(
            requests_of(requests, routes[i].name),
        )
    &&& forall|name: RouteName|
        is_known(routes, name) <==> (#[trigger] requests_of(requests, name)).len() > 0
}

/// Before the first request there is nothing to tell.
pub proof fn law_no_routes_before_the_first_request()
    ensures
        tells(Seq::empty(), Seq::empty()),
{
    assert forall|name: RouteName|
        is_known(Seq::empty(), name) <==> (#[trigger] requests_of(
            Seq::empty(),
            name,
        )).len() > 0 by {}
}

/// Routes that tell of requests tell of one more after it was counted.
pub proof fn law_routes_tell_of_their_requests(
    after: Seq<RouteRecord>,
    before: Seq<RouteRecord>,
    requests: Seq<Request>,
    r: Request,
)
    requires
        tells(before, requests),
        counts_request(after, before, r.name, r.status, r.latency, r.now_ms),
    ensures
        tells(after, requests.push(r)),
{
    let more = requests.push(r);
    assert(more.drop_last() =~= requests);
    assert forall|i: int| 0 <= i < after.len() implies (#[trigger] after[i]).route == route_after(
        requests_of(more, after[i].name),
    ) by {
        let name = after[i].name;
        let own = requests_of(requests, name);
        assert(own.push(r).drop_last() =~= own);
        assert(more.last() == r);
        assert(is_known(before, name) <==> own.len() > 0);
        if i < before.len() {
            assert(before[i].name == name);
            assert(before[i].route == route_after(own));
        } else {
            assert(name == r.name);
            assert(own =~= Seq::empty());
        }
        if name == r.name {
            assert(requests_of(more, name) == own.push(r));
            assert(route_after(own.push(r)) == after_request(
                route_after(own),
                r.status,
                r.latency,
                r.now_ms,
            ));
        } else {
            assert(requests_of(more, name) == own);
        }
    }
    assert forall|name: RouteName|
        is_known(after, name) <==> (#[trigger] requests_of(more, name)).len() > 0 by {
        assert(is_known(before, name) <==> requests_of(requests, name).len() > 0);
        if is_known(before, name) {
            let i = choose|i: int| 0 <= i < before.len() && (#[trigger] before[i]).name == name;
            assert(after[i].name == name);
        }
        if is_known(after, name) {
            let i = choose|i: int| 0 <= i < after.len() && (#[trigger] after[i]).name == name;
            if i < before.len() {
                assert(before[i].name == name);
            }
        }
        if name == r.name && !is_known(before, name) {
            assert(after[before.len() as int].name == name);
        }
    }
}

/// Whether the counts of a route fit: every request is counted in one class,
/// and the hours hold no more than was counted.
spec fn counts_fit(route: RouteView) -> bool {
    let total = (route.hours)(Count::Total);
    let success = (route.hours)(Count::Success);
    let client = (route.hours)(Count::ClientError);
    let server = (route.hours)(Count::ServerError);
    &&& route.cumulative.total == route.cumulative.success + route.cumulative.client_error
        + route.cumulative.server_error
    &&& split(total, success, client, server)
    &&& total.len() == ROLLING_WINDOW_HOURS
    &&& whole_sum(total) <= route.cumulative.total
}

/// Whether slots hold, hour by hour, what three others hold together.
spec fn split(total: Slots, a: Slots, b: Slots, c: Slots) -> bool {
    &&& total.len() == a.len()
    &&& total.len() == b.len()
    &&& total.len() == c.len()
    &&& forall|i: int|
        0 <= i < total.len() ==> {
            &&& (#[trigger] total[i]).count == a[i].count + b[i].count + c[i].count
            &&& a[i].hour == total[i].hour
            &&& b[i].hour == total[i].hour
            &&& c[i].hour == total[i].hour
        }
}

proof fn lemma_split_sums(total: Slots, a: Slots, b: Slots, c: Slots, now_hour: u64)
    requires
        split(total, a, b, c),
    ensures
        window_sum(total, now_hour) == window_sum(a, now_hour) + window_sum(b, now_hour)
            + window_sum(c, now_hour),
    decreases total.len(),
{
    if total.len() > 0 {
        let front = total.drop_last();
        assert forall|i: int| 0 <= i < front.len() implies {
            &&& (#[trigger] front[i]).count == a.drop_last()[i].count + b.drop_last()[i].count
                + c.drop_last()[i].count
            &&& a.drop_last()[i].hour == front[i].hour
            &&& b.drop_last()[i].hour == front[i].hour
            &&& c.drop_last()[i].hour == front[i].hour
        } by {
            assert(front[i] == total[i]);
        }
        lemma_split_sums(front, a.drop_last(), b.drop_last(), c.drop_last(), now_hour);
        assert(total[total.len() - 1].count == total.last().count);
    }
}

proof fn lemma_request_keeps_the_fit(route: RouteView, r: Request)
    requires
        counts_fit(route),
        route.cumulative.total < u64::MAX,
    ensures
        counts_fit(after_request(route, r.status, r.latency, r.now_ms)),
{
    let after = after_request(route, r.status, r.latency, r.now_ms);
    let hour = hour_of(r.now_ms);
    let s = (hour % ROLLING_WINDOW_HOURS) as int;
    let total = (route.hours)(Count::Total);
    assert(0 <= s < total.len());
    assert(total[s].count == total[s].count);
    lemma_whole_sum_update(total, s, tick(total, hour, 1)[s]);
    let split_after = (after.hours)(Count::Total);
    assert forall|i: int| 0 <= i < split_after.len() implies {
        &&& (#[trigger] split_after[i]).count == (after.hours)(Count::Success)[i].count
            + (after.hours)(Count::ClientError)[i].count + (after.hours)(
            Count::ServerError,
        )[i].count
        &&& (after.hours)(Count::Success)[i].hour == split_after[i].hour
        &&& (after.hours)(Count::ClientError)[i].hour == split_after[i].hour
        &&& (after.hours)(Count::ServerError)[i].hour == split_after[i].hour
    } by {
        assert(total[i].count == total[i].count);
    }
}

proof fn lemma_counts_fit(requests: Seq<Request>)
    requires
        requests.len() <= u64::MAX,
    ensures
        counts_fit(route_after(requests)),
        route_after(requests).cumulative.total == requests.len(),
    decreases requests.len(),
{
    if requests.len() == 0 {
        lemma_no_slots_sum();
    } else {
        lemma_counts_fit(requests.drop_last());
        lemma_request_keeps_the_fit(route_after(requests.drop_last()), requests.last());
    }
}

/// In what an administrator sees of a route the three classes add up to the
/// total, of the last day and since the start; the last day has no more than
/// all; and all are the requests that the route had.
pub proof fn law_classes_add_up(
    shown: Seq<RouteSnapshot>,
    routes: Seq<RouteRecord>,
    requests: Seq<Request>,
    now_ms: u64,
    j: int,
)
    requires
        tells(routes, requests),
        shows_routes(shown, routes, now_ms),
        requests_of(requests, name_of(shown[j])).len() <= u64::MAX,
        0 <= j < shown.len(),
    ensures
        shown[j].total_24h == shown[j].success_24h + shown[j].client_error_24h
            + shown[j].server_error_24h,
        shown[j].total_all == shown[j].success_all + shown[j].client_error_all
            + shown[j].server_error_all,
        shown[j].total_24h <= shown[j].total_all,
        shown[j].total_all == requests_of(requests, name_of(shown[j])).len(),
{
    assert(is_one_of(shown[j], routes, now_ms));
    let i = choose|i: int|
        0 <= i < routes.len() && shows_route(
            shown[j],
            (#[trigger] routes[i]).name,
            routes[i].route,
            now_ms,
        );
    let route = routes[i].route;
    lemma_counts_fit(requests_of(requests, routes[i].name));
    lemma_split_sums(
        (route.hours)(Count::Total),
        (route.hours)(Count::Success),
        (route.hours)(Count::ClientError),
        (route.hours)(Count::ServerError),
        hour_of(now_ms),
    );
    lemma_window_within_whole((route.hours)(Count::Total), hour_of(now_ms));
}

/// The requests under a count, in their order.
pub open spec fn requests_under(requests: Seq<Request>, count: Count) -> Events {
    requests.map_values(|r: Request| (hour_of(r.now_ms), one_under(r.status, count)))
}

proof fn lemma_hours_tell_of_the_requests(requests: Seq<Request>, count: Count)
    ensures
        (route_after(requests).hours)(count) == slots_after(requests_under(requests, count)),
    decreases requests.len(),
{
    let events = requests_under(requests, count);
    if requests.len() > 0 {
        lemma_hours_tell_of_the_requests(requests.drop_last(), count);
        assert(events.drop_last() =~= requests_under(requests.drop_last(), count));
    }
}

/// In what an administrator sees of a route the counts of the last day are
/// those of the requests that the route had in it, as long as the clock does
/// not go back.
pub proof fn law_a_route_shows_its_last_day(
    shown: Seq<RouteSnapshot>,
    routes: Seq<RouteRecord>,
    requests: Seq<Request>,
    now_ms: u64,
    k: int,
)
    requires
        tells(routes, requests),
        shows_routes(shown, routes, now_ms),
        0 <= k < shown.len(),
        ({
            let own = requests_of(requests, name_of(shown[k]));
            &&& forall|i: int, j: int|
                0 <= i < j < own.len() ==> (#[trigger] own[i]).now_ms <= (#[trigger] own[j]).now_ms
            &&& own.len() > 0 ==> own.last().now_ms <= now_ms
        }),
    ensures
        ({
            let own = requests_of(requests, name_of(shown[k]));
            let hour = hour_of(now_ms);
            &&& shown[k].total_24h == told(last_day(requests_under(own, Count::Total), hour))
            &&& shown[k].success_24h == told(last_day(requests_under(own, Count::Success), hour))
            &&& shown[k].client_error_24h == told(
                last_day(requests_under(own, Count::ClientError), hour),
            )
            &&& shown[k].server_error_24h == told(
                last_day(requests_under(own, Count::ServerError), hour),
            )
        }),
{
    let own = requests_of(requests, name_of(shown[k]));
    assert(is_one_of(shown[k], routes, now_ms));
    let i = choose|i: int|
        0 <= i < routes.len() && shows_route(
            shown[k],
            (#[trigger] routes[i]).name,
            routes[i].route,
            now_ms,
        );
    assert(routes[i].route == route_after(own));
    lemma_route_of_the_last_day(own, Count::Total, now_ms);
    lemma_route_of_the_last_day(own, Count::Success, now_ms);
    lemma_route_of_the_last_day(own, Count::ClientError, now_ms);
    lemma_route_of_the_last_day(own, Count::ServerError, now_ms);
}

proof fn lemma_route_of_the_last_day(own: Seq<Request>, count: Count, now_ms: u64)
    requires
        forall|i: int, j: int|
            0 <= i < j < own.len() ==> (#[trigger] own[i]).now_ms <= (#[trigger] own[j]).now_ms,
        own.len() > 0 ==> own.last().now_ms <= now_ms,
    ensures
        told(window_sum((route_after(own).hours)(count), hour_of(now_ms))) == told(
            last_day(requests_under(own, count), hour_of(now_ms)),
        ),
{
    lemma_hours_tell_of_the_requests(own, count);
    law_window_counts_the_last_day(requests_under(own, count), hour_of(now_ms));
}

/// How many requests there are under a count.
pub open spec fn number_under(requests: Seq<Request>, count: Count) -> nat
    decreases requests.len(),
{
    if requests.len() == 0 {
        0
    } else {
        number_under(requests.drop_last(), count) + one_under(requests.last().status, count)
    }
}

proof fn lemma_all_requests_are_told(requests: Seq<Request>, count: Count)
    ensures
        route_after(requests).cumulative.of(count) == told(number_under(requests, count)),
    decreases requests.len(),
{
    if requests.len() > 0 {
        lemma_all_requests_are_told(requests.drop_last(), count);
    }
}

/// In what an administrator sees of a route the counts since the start are
/// those of all requests that the route had.
pub proof fn law_a_route_shows_all_its_requests(
    shown: Seq<RouteSnapshot>,
    routes: Seq<RouteRecord>,
    requests: Seq<Request>,
    now_ms: u64,
    k: int,
)
    requires
        tells(routes, requests),
        shows_routes(shown, routes, now_ms),
        0 <= k < shown.len(),
    ensures
        ({
            let own = requests_of(requests, name_of(shown[k]));
            &&& shown[k].total_all == told(own.len())
            &&& shown[k].success_all == told(number_under(own, Count::Success))
            &&& shown[k].client_error_all == told(number_under(own, Count::ClientError))
            &&& shown[k].server_error_all == told(number_under(own, Count::ServerError))
        }),
{
    let own = requests_of(requests, name_of(shown[k]));
    assert(is_one_of(shown[k], routes, now_ms));
    let i = choose|i: int|
        0 <= i < routes.len() && shows_route(
            shown[k],
            (#[trigger] routes[i]).name,
            routes[i].route,
            now_ms,
        );
    assert(routes[i].route == route_after(own));
    lemma_all_requests_are_told(own, Count::Total);
    lemma_all_requests_are_told(own, Count::Success);
    lemma_all_requests_are_told(own, Count::ClientError);
    lemma_all_requests_are_told(own, Count::ServerError);
    lemma_total_is_every_request(own);
}

proof fn lemma_total_is_every_request(requests: Seq<Request>)
    ensures
        number_under(requests, Count::Total) == requests.len(),
    decreases requests.len(),
{
    if requests.len() > 0 {
        lemma_total_is_every_request(requests.drop_last());
    }
}

/// An administrator sees every route that had a request once, and no other.
pub proof fn law_every_route_is_shown_once(
    shown: Seq<RouteSnapshot>,
    routes: Seq<RouteRecord>,
    requests: Seq<Request>,
    now_ms: u64,
    name: RouteName,
)
    requires
        tells(routes, requests),
        shows_routes(shown, routes, now_ms),
    ensures
        requests_of(requests, name).len() > 0 <==> exists|j: int|
            0 <= j < shown.len() && name_of(#[trigger] shown[j]) == name,
        forall|a: int, b: int|
            0 <= a < b < shown.len() ==> name_of(#[trigger] shown[a]) != name_of(
                #[trigger] shown[b],
            ),
{
    assert(is_known(routes, name) <==> requests_of(requests, name).len() > 0);
    if is_known(routes, name) {
        let i = choose|i: int| 0 <= i < routes.len() && (#[trigger] routes[i]).name == name;
        assert(shows_one_of(shown, routes[i], now_ms));
        let j = choose|j: int|
            0 <= j < shown.len() && shows_route(
                #[trigger] shown[j],
                routes[i].name,
                routes[i].route,
                now_ms,
            );
        assert(name_of(shown[j]) == name);
    }
    if exists|j: int| 0 <= j < shown.len() && name_of(#[trigger] shown[j]) == name {
        let j = choose|j: int| 0 <= j < shown.len() && name_of(#[trigger] shown[j]) == name;
        assert(is_one_of(shown[j], routes, now_ms));
        let i = choose|i: int|
            0 <= i < routes.len() && shows_route(
                shown[j],
                (#[trigger] routes[i]).name,
                routes[i].route,
                now_ms,
            );
        assert(routes[i].name == name);
    }
}

/// A request went well with a status from 200 to 399, the one who asked was
/// wrong with one from 400 to 499, and the instance with any other.
pub proof fn law_statuses_have_their_class(status: u16, class: StatusClass)
    requires
        call_ensures(classify, (status,), class),
    ensures
        class is Success <==> 200 <= status < 400,
        class is ClientError <==> 400 <= status < 500,
        class is ServerError <==> status < 200 || status >= 500,
{
}

/// An hour has sixty minutes, and an event counts for the hour that it is in
/// and the twenty-three after it.
pub proof fn law_a_day_has_twenty_four_hours(
    events: Events,
    at_ms: u64,
    n: nat,
    now_ms: u64,
)
    requires
        at_ms <= now_ms,
    ensures
        3_600_000 * hour_of(now_ms) <= now_ms < 3_600_000 * (hour_of(now_ms) + 1),
        last_day(events.push((hour_of(at_ms), n)), hour_of(now_ms)) == last_day(
            events,
            hour_of(now_ms),
        ) + if hour_of(now_ms) < hour_of(at_ms) + 24 {
            n
        } else {
            0
        },
        now_ms - at_ms < 82_800_000 ==> hour_of(now_ms) < hour_of(at_ms) + 24,
        now_ms - at_ms >= 86_400_000 ==> hour_of(now_ms) >= hour_of(at_ms) + 24,
{
    assert(events.push((hour_of(at_ms), n)).drop_last() =~= events);
}

/// A counter tells of an event as soon as it was counted, and one more than
/// before, unless there are more than can be told.
pub proof fn law_events_are_counted(
    counter: &mut HourlyCounter,
    now_ms: u64,
    unit: (),
    early: &HourlyCounter,
    before: u64,
    after: &HourlyCounter,
    count: u64,
)
    requires
        old(counter).wf(),
        call_ensures(HourlyCounter::record_at, (counter, now_ms), unit),
        *early == *old(counter),
        *after == *final(counter),
        forall|i: int|
            0 <= i < 24 ==> ((#[trigger] old(counter)@[i]).hour matches Some(h) ==> h <= hour_of(
                now_ms,
            ) && h % 24 == i),
        old(counter)@.len() == 24,
        call_ensures(HourlyCounter::count_24h_at, (early, now_ms), before),
        call_ensures(HourlyCounter::count_24h_at, (after, now_ms), count),
    ensures
        before < u64::MAX ==> count == before + 1,
        before == u64::MAX ==> count == u64::MAX,
{
    let slots = old(counter)@;
    let hour = hour_of(now_ms);
    let s = (hour % ROLLING_WINDOW_HOURS) as int;
    let slot = Slot { hour: Some(hour), count: told(count_in(slots[s], hour) + 1) };
    lemma_window_sum_update(slots, s, slot, hour);
    lemma_window_sum_update(slots, s, Slot { hour: None, count: 0 }, hour);
    if let Some(h) = slots[s].hour {
        assert(h <= hour && h % 24 == s);
        if is_live(slots[s], hour) {
            assert(h == hour);
        }
    }
    assert(weight(slots[s], hour) == count_in(slots[s], hour));
}

/// A histogram keeps the latest samples: one that is taken comes last, and the
/// oldest goes exactly where as many as are kept are there.
pub proof fn law_the_latest_samples_are_kept(
    histogram: &mut RingHistogram,
    at_ms: u64,
    value: u64,
    unit: (),
    i: int,
)
    requires
        old(histogram).wf(),
        call_ensures(RingHistogram::push, (histogram, at_ms, value), unit),
    ensures
        ({
            let before = old(histogram)@;
            let after = final(histogram)@;
            let full = before.len() >= old(histogram).kept();
            &&& after.len() == if full {
                before.len()
            } else {
                before.len() + 1
            }
            &&& after.last() == (TimedSample { at_ms, value })
            &&& full && 0 <= i < after.len() - 1 ==> after[i] == before[i + 1]
            &&& !full && 0 <= i < before.len() ==> after[i] == before[i]
            &&& final(histogram).kept() == old(histogram).kept()
        }),
{
}

/// A sample counts from a time on where it was taken then or later.
pub proof fn law_samples_count_from_their_time(
    samples: Seq<TimedSample>,
    sample: TimedSample,
    since_ms: u64,
)
    ensures
        sample.at_ms >= since_ms ==> values_since(samples.push(sample), since_ms) == values_since(
            samples,
            since_ms,
        ).push(sample.value),
        sample.at_ms < since_ms ==> values_since(samples.push(sample), since_ms) == values_since(
            samples,
            since_ms,
        ),
        values_since(Seq::<TimedSample>::empty(), since_ms) == Seq::<u64>::empty(),
{
    assert(samples.push(sample).drop_last() =~= samples);
}

/// A quantile stands, among the values in their order, at the place that is
/// nearest to its share of the way from the smallest to the largest, and at
/// the upper one of two. There is none without a value, and none beyond the
/// largest.
pub proof fn law_quantiles_stand_at_their_place(
    histogram: &RingHistogram,
    percent: u8,
    since_ms: u64,
    value: Option<u64>,
    up: Seq<u64>,
    place: int,
)
    requires
        histogram.wf(),
        call_ensures(RingHistogram::quantile_since, (histogram, percent, since_ms), value),
        sort::goes_up(up),
        up.to_multiset() == values_since(histogram@, since_ms).to_multiset(),
    ensures
        value is None <==> up.len() == 0,
        up.len() > 0 && percent <= 100 && -100 < 200 * place - 2 * (up.len() - 1) * percent <= 100
            ==> 0 <= place < up.len() && value == Some(up[place]),
        up.len() > 0 && percent > 100 ==> value == Some(up.last()),
{
    let values = values_since(histogram@, since_ms);
    sort::lemma_sorted_is_unique(values, up);
    values.to_multiset_ensures();
    up.to_multiset_ensures();
    assert(values.len() == up.len());
    if up.len() > 0 {
        let n = up.len();
        assert((n - 1) * 100 * 2 == 200 * (n - 1));
        assert(rank(n, 100) == n - 1);
        if percent <= 100 {
            lemma_rank_is_a_place(n, percent as nat);
            let w = (n - 1) * (percent as nat) * 2;
            assert(w == 2 * (n - 1) * percent) by (nonlinear_arith)
                requires
                    w == (n - 1) * (percent as nat) * 2,
            ;
            if -100 < 200 * place - w <= 100 {
                assert((w + 100) / 200 == place);
            }
        }
    }
}

/// All samples count for a quantile that names no time.
pub proof fn law_quantiles_are_of_all_samples(
    histogram: &RingHistogram,
    percent: u8,
    value: Option<u64>,
    since_the_start: Option<u64>,
)
    requires
        histogram.wf(),
        call_ensures(RingHistogram::quantile, (histogram, percent), value),
        call_ensures(RingHistogram::quantile_since, (histogram, percent, 0u64), since_the_start),
    ensures
        value == since_the_start,
{
}

/// A route is shown with the quantiles of what its requests of the last
/// twenty-four hours took: the middle, and what 95 and 99 in a hundred took no
/// longer than.
pub proof fn law_latencies_are_of_the_last_day(
    stats: &RouteStats,
    key: &RouteKey,
    now_ms: u64,
    shown: RouteSnapshot,
)
    requires
        stats.wf(),
        call_ensures(RouteStats::snapshot_at, (stats, key, now_ms), shown),
    ensures
        ({
            let since = if now_ms >= 86_400_000 {
                (now_ms - 86_400_000) as u64
            } else {
                0
            };
            let recent = values_since(stats@.samples, since);
            &&& shown.method@ == key.method@ && shown.path@ == key.path@
            &&& shown.latency_ms_p50_24h == quantile_of(recent, 50)
            &&& shown.latency_ms_p95_24h == quantile_of(recent, 95)
            &&& shown.latency_ms_p99_24h == quantile_of(recent, 99)
        }),
{
}

/// A request is counted in all and in its class, and how long it took is the
/// latest sample.
pub proof fn law_requests_are_counted_in_their_class(
    stats: &mut RouteStats,
    status: u16,
    latency: u64,
    now_ms: u64,
    unit: (),
)
    requires
        old(stats).wf(),
        call_ensures(RouteStats::record_at, (stats, status, latency, now_ms), unit),
        old(stats)@.cumulative.total < u64::MAX,
        old(stats)@.cumulative.success < u64::MAX,
        old(stats)@.cumulative.client_error < u64::MAX,
        old(stats)@.cumulative.server_error < u64::MAX,
    ensures
        ({
            let before = old(stats)@.cumulative;
            let after = final(stats)@.cumulative;
            &&& after.total == before.total + 1
            &&& after.success == before.success + if 200 <= status < 400 {
                1int
            } else {
                0
            }
            &&& after.client_error == before.client_error + if 400 <= status < 500 {
                1int
            } else {
                0
            }
            &&& after.server_error == before.server_error + if status < 200 || status >= 500 {
                1int
            } else {
                0
            }
            &&& final(stats)@.samples.last() == (TimedSample { at_ms: now_ms, value: latency })
        }),
{
}

/// Each lookup in a search cache is counted where it belongs, and nowhere else:
/// a hit or a miss, of the forward or of the reverse one.
pub proof fn law_lookups_are_counted_apart(
    forward_hit: &mut Metrics,
    forward_miss: &mut Metrics,
    reverse_hit: &mut Metrics,
    reverse_miss: &mut Metrics,
    unit: (),
)
    requires
        old(forward_hit).wf() && old(forward_miss).wf() && old(reverse_hit).wf() && old(
            reverse_miss,
        ).wf(),
        call_ensures(Metrics::record_bfs_forward_hit, (forward_hit,), unit),
        call_ensures(Metrics::record_bfs_forward_miss, (forward_miss,), unit),
        call_ensures(Metrics::record_bfs_reverse_hit, (reverse_hit,), unit),
        call_ensures(Metrics::record_bfs_reverse_miss, (reverse_miss,), unit),
        old(forward_hit)@.bfs_forward_hits < u64::MAX,
        old(forward_miss)@.bfs_forward_misses < u64::MAX,
        old(reverse_hit)@.bfs_reverse_hits < u64::MAX,
        old(reverse_miss)@.bfs_reverse_misses < u64::MAX,
    ensures
        final(forward_hit)@ == (MetricsView {
            bfs_forward_hits: (old(forward_hit)@.bfs_forward_hits + 1) as u64,
            ..old(forward_hit)@
        }),
        final(forward_miss)@ == (MetricsView {
            bfs_forward_misses: (old(forward_miss)@.bfs_forward_misses + 1) as u64,
            ..old(forward_miss)@
        }),
        final(reverse_hit)@ == (MetricsView {
            bfs_reverse_hits: (old(reverse_hit)@.bfs_reverse_hits + 1) as u64,
            ..old(reverse_hit)@
        }),
        final(reverse_miss)@ == (MetricsView {
            bfs_reverse_misses: (old(reverse_miss)@.bfs_reverse_misses + 1) as u64,
            ..old(reverse_miss)@
        }),
{
}

/// The hit rate is the share of hits in all lookups of both caches, and there
/// is none before the first lookup. The quantiles are those of all builds of
/// the graph that are kept.
pub proof fn law_the_hit_rate_is_of_all_lookups(metrics: &Metrics, shown: MetricsSnapshot)
    requires
        metrics.wf(),
        call_ensures(Metrics::snapshot, (metrics,), shown),
        metrics@.bfs_forward_hits + metrics@.bfs_reverse_hits + metrics@.bfs_forward_misses
            + metrics@.bfs_reverse_misses <= u64::MAX,
    ensures
        ({
            let m = metrics@;
            let found = m.bfs_forward_hits + m.bfs_reverse_hits;
            let all = found + m.bfs_forward_misses + m.bfs_reverse_misses;
            let loads = values_since(m.graph_loads, 0);
            &&& shown.bfs_total_lookups == all
            &&& shown.bfs_hit_rate is None <==> all == 0
            &&& shown.bfs_hit_rate matches Some(rate) ==> rate.0 == found && rate.1 == all
            &&& shown.graph_load_ms_p50 == quantile_of(loads, 50)
            &&& shown.graph_load_ms_p95 == quantile_of(loads, 95)
            &&& shown.graph_load_ms_p99 == quantile_of(loads, 99)
            &&& shown.last_rebuild_at == m.last_rebuild_at
        }),
{
}

/// A new graph starts without lookups, and what took how long stays known.
pub proof fn law_new_caches_start_without_lookups(
    metrics: &mut Metrics,
    unit: (),
    after: &Metrics,
    shown: MetricsSnapshot,
)
    requires
        old(metrics).wf(),
        call_ensures(Metrics::reset_bfs_counters, (metrics,), unit),
        *after == *final(metrics),
        call_ensures(Metrics::snapshot, (after,), shown),
    ensures
        shown.bfs_hit_rate is None && shown.bfs_total_lookups == 0,
        final(metrics)@.graph_loads == old(metrics)@.graph_loads,
        final(metrics)@.routes == old(metrics)@.routes,
        final(metrics)@.failed_auth == old(metrics)@.failed_auth,
        final(metrics)@.last_rebuild_at == old(metrics)@.last_rebuild_at,
{
}

/// A request is counted under its method and path alone: its route gains a
/// request, where it was known, and is added where it was not; all other
/// routes, and all that is no route, stay as they are.
pub proof fn law_a_request_counts_for_its_route(
    metrics: &mut Metrics,
    method: &str,
    path: &str,
    status: u16,
    latency_ms: u64,
    now_ms: u64,
    unit: (),
    i: int,
)
    requires
        old(metrics).wf(),
        call_ensures(
            Metrics::record_request_at,
            (metrics, method, path, status, latency_ms, now_ms),
            unit,
        ),
        0 <= i < old(metrics)@.routes.len(),
    ensures
        ({
            let before = old(metrics)@.routes;
            let after = final(metrics)@.routes;
            let name = (method@, path@);
            &&& after.len() >= before.len()
            &&& after[i].name == before[i].name
            &&& before[i].name != name ==> after[i] == before[i]
            &&& before[i].name == name ==> after.len() == before.len() && after[i].route.cumulative
                == counted(before[i].route.cumulative, status)
                && after[i].route.samples.last() == (TimedSample {
                at_ms: now_ms,
                value: latency_ms,
            })
            &&& (forall|j: int| 0 <= j < before.len() ==> (#[trigger] before[j]).name != name)
                ==> after.len() == before.len() + 1 && after.last().name == name
            &&& final(metrics)@.failed_auth == old(metrics)@.failed_auth
            &&& final(metrics)@.graph_loads == old(metrics)@.graph_loads
            &&& final(metrics)@.last_rebuild_at == old(metrics)@.last_rebuild_at
        }),
{
    let before = old(metrics)@.routes;
    let name = (method@, path@);
    if before[i].name == name {
        assert(is_known(before, name));
    }
}

/// A build of the graph, a rebuild and a failed login are each recorded where
/// they belong, and nothing else changes.
pub proof fn law_events_are_recorded_where_they_belong(
    loaded: &mut Metrics,
    rebuilt: &mut Metrics,
    refused: &mut Metrics,
    ms: u64,
    at: (i64, u32),
    now_ms: u64,
    unit: (),
)
    requires
        old(loaded).wf() && old(rebuilt).wf() && old(refused).wf(),
        call_ensures(Metrics::record_graph_load_ms_at, (loaded, ms, now_ms), unit),
        call_ensures(Metrics::set_last_rebuild, (rebuilt, at), unit),
        call_ensures(Metrics::record_failed_auth_at, (refused, now_ms), unit),
    ensures
        final(loaded)@.graph_loads.len() > 0 && final(loaded)@.graph_loads.last() == (TimedSample {
            at_ms: now_ms,
            value: ms,
        }),
        final(loaded)@ == (MetricsView {
            graph_loads: final(loaded)@.graph_loads,
            ..old(loaded)@
        }),
        final(rebuilt)@ == (MetricsView { last_rebuild_at: Some(at), ..old(rebuilt)@ }),
        final(refused)@ == (MetricsView {
            failed_auth: final(refused)@.failed_auth,
            ..old(refused)@
        }),
        ({
            let before = old(refused)@.failed_auth;
            let after = final(refused)@.failed_auth;
            let hour = hour_of(now_ms);
            let s = (hour % 24) as int;
            before.len() == 24 ==> {
                &&& after.len() == 24
                &&& after[s].hour == Some(hour)
                &&& before[s].hour != Some(hour) ==> after[s].count == 1
                &&& before[s].hour == Some(hour) && before[s].count < u64::MAX ==> after[s].count
                    == before[s].count + 1
            }
        }),
{
}

/// The routes are shown with those first that had the most requests of the
/// last day, and each is shown once.
pub proof fn law_busy_routes_come_first(
    metrics: &Metrics,
    now_ms: u64,
    shown: Vec<RouteSnapshot>,
    i: int,
    j: int,
)
    requires
        metrics.wf(),
        call_ensures(Metrics::route_snapshot_at, (metrics, now_ms), shown),
        0 <= i < j < shown@.len(),
    ensures
        shown@.len() == metrics@.routes.len(),
        shown@[i].total_24h >= shown@[j].total_24h,
        shown@[i].method@ != shown@[j].method@ || shown@[i].path@ != shown@[j].path@,
{
    assert(name_of(shown@[i]) != name_of(shown@[j]));
}

/// A route keeps how long its latest 1024 requests took.
pub proof fn law_a_route_keeps_its_latest_requests(
    stats: &mut RouteStats,
    status: u16,
    latency: u64,
    now_ms: u64,
    unit: (),
    i: int,
)
    requires
        old(stats).wf(),
        call_ensures(RouteStats::record_at, (stats, status, latency, now_ms), unit),
        old(stats)@.samples.len() <= 1024,
    ensures
        ({
            let before = old(stats)@.samples;
            let after = final(stats)@.samples;
            &&& before.len() < 1024 ==> after.len() == before.len() + 1 && (0 <= i < before.len()
                ==> after[i] == before[i])
            &&& before.len() == 1024 ==> after.len() == 1024 && (0 <= i < 1023 ==> after[i]
                == before[i + 1])
        }),
{
}

} // verus!
