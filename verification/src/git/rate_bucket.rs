//! A bucket that keeps requests that share a credential apart.
use vstd::prelude::*;

use crate::time::{Duration, Instant};

verus! {

/// A bucket that lets requests through no closer than `min_interval` to one another.
#[derive(Debug)]
pub struct RateBucket {
    min_interval: Duration,
    /// When the last request went through, or will.
    last: Option<Instant>,
}

/// What is known of a bucket.
pub ghost struct RateBucketView {
    pub min_interval: nat,
    pub last: Option<int>,
}

impl View for RateBucket {
    type V = RateBucketView;

    closed spec fn view(&self) -> RateBucketView {
        RateBucketView {
            min_interval: self.min_interval.nanos as nat,
            last: match self.last {
                Some(t) => Some(t.nanos as int),
                None => None,
            },
        }
    }
}

/// The first time from `now` on at which the bucket lets a request through.
pub open spec fn slot(bucket: RateBucketView, now: int) -> int {
    match bucket.last {
        None => now,
        Some(prev) => if prev + bucket.min_interval > now {
            prev + bucket.min_interval
        } else {
            now
        },
    }
}

/// Whether the clock can tell the first time at which the bucket lets a request through.
pub open spec fn slot_is_on_the_clock(bucket: RateBucketView) -> bool {
    bucket.last matches Some(prev) ==> prev + bucket.min_interval <= u128::MAX
}

/// The bucket after a request took the first slot from `now` on.
pub open spec fn reserved(bucket: RateBucketView, now: int) -> RateBucketView {
    RateBucketView { last: Some(slot(bucket, now)), ..bucket }
}

/// The bucket after a waiting request went through at `now`.
pub open spec fn settled(bucket: RateBucketView, now: int) -> RateBucketView {
    match bucket.last {
        Some(prev) if now > prev => RateBucketView { last: Some(now), ..bucket },
        _ => bucket,
    }
}

/// The bucket after a request that does not wait came in at `now`.
pub open spec fn tried(bucket: RateBucketView, now: int) -> RateBucketView {
    if slot(bucket, now) == now {
        RateBucketView { last: Some(now), ..bucket }
    } else {
        bucket
    }
}

impl RateBucket {
    /// A bucket through which no request has gone.
    pub fn new(min_interval: Duration) -> (r: RateBucket)
        ensures
            r@ == (RateBucketView { min_interval: min_interval.nanos as nat, last: None }),
    {
        RateBucket { min_interval, last: None }
    }

    /// The shortest time between two requests.
    pub fn min_interval(&self) -> (r: Duration)
        ensures
            r.nanos == self@.min_interval,
    {
        self.min_interval
    }

    /// Whether the clock can tell the first time at which the bucket lets a request through.
    pub fn has_slot(&self) -> (r: bool)
        ensures
            r == slot_is_on_the_clock(self@),
    {
        match self.last {
            Some(prev) => prev.nanos.checked_add(self.min_interval.nanos).is_some(),
            None => true,
        }
    }

    /// Takes the first slot from `now` on, for a request that waits until then. Later requests
    /// keep their distance from that slot, though it may lie ahead.
    pub fn reserve(&mut self, now: Instant) -> (r: Instant)
        requires
            slot_is_on_the_clock(old(self)@),
        ensures
            r.nanos == slot(old(self)@, now.nanos as int),
            final(self)@ == reserved(old(self)@, now.nanos as int),
    {
        let target: Instant = match self.last {
            None => now,
            Some(prev) => {
                let earliest: u128 = prev.nanos + self.min_interval.nanos;
                if earliest > now.nanos {
                    Instant { nanos: earliest }
                } else {
                    now
                }
            },
        };
        self.last = Some(target);
        target
    }

    /// Takes in that a waiting request went through at `now`. A request that went through after
    /// its slot counts from when it did.
    pub fn settle(&mut self, now: Instant)
        ensures
            final(self)@ == settled(old(self)@, now.nanos as int),
    {
        match self.last {
            Some(prev) => {
                if now.nanos > prev.nanos {
                    self.last = Some(now);
                }
            },
            None => {},
        }
    }

    /// Lets a request through at `now`, or says how much too early it is.
    pub fn try_acquire(&mut self, now: Instant) -> (r: Result<(), Duration>)
        requires
            slot_is_on_the_clock(old(self)@),
        ensures
            r is Ok <==> slot(old(self)@, now.nanos as int) == now.nanos,
            r matches Err(wait) ==> wait.nanos == slot(old(self)@, now.nanos as int) - now.nanos,
            final(self)@ == tried(old(self)@, now.nanos as int),
    {
        match self.last {
            None => {
                self.last = Some(now);
                Ok(())
            },
            Some(prev) => {
                let target: u128 = prev.nanos + self.min_interval.nanos;
                if target > now.nanos {
                    Err(Duration { nanos: target - now.nanos })
                } else {
                    self.last = Some(now);
                    Ok(())
                }
            },
        }
    }
}

/// The first request goes through at once.
pub proof fn first_request_goes_through_at_once(min_interval: nat, now: int)
    ensures
        slot(RateBucketView { min_interval, last: None }, now) == now,
{
}

/// A request that went through at `passed`, late or not, keeps the next one at a distance from
/// when it did.
pub proof fn a_request_counts_from_when_it_went_through(
    bucket: RateBucketView,
    passed: int,
    now: int,
)
    requires
        bucket.last is Some,
    ensures
        slot(settled(bucket, passed), now) >= passed + bucket.min_interval,
{
}

/// What may happen to a bucket, each at a time.
pub ghost enum BucketEvent {
    Reserve(int),
    Settle(int),
    Try(int),
}

/// The bucket after some events.
pub open spec fn after_events(bucket: RateBucketView, events: Seq<BucketEvent>) -> RateBucketView
    decreases events.len(),
{
    if events.len() == 0 {
        bucket
    } else {
        let earlier = after_events(bucket, events.drop_last());
        match events.last() {
            BucketEvent::Reserve(now) => reserved(earlier, now),
            BucketEvent::Settle(now) => settled(earlier, now),
            BucketEvent::Try(now) => tried(earlier, now),
        }
    }
}

/// Once a request has a slot, every later request's slot keeps the shortest distance from it,
/// whatever happens to the bucket in between.
pub proof fn a_slot_keeps_later_requests_away(
    bucket: RateBucketView,
    first: int,
    events: Seq<BucketEvent>,
    now: int,
)
    ensures
        slot(after_events(reserved(bucket, first), events), now) >= slot(bucket, first)
            + bucket.min_interval,
{
    last_does_not_go_back(reserved(bucket, first), events);
}

proof fn last_does_not_go_back(bucket: RateBucketView, events: Seq<BucketEvent>)
    requires
        bucket.last is Some,
    ensures
        after_events(bucket, events).min_interval == bucket.min_interval,
        after_events(bucket, events).last is Some,
        after_events(bucket, events).last->0 >= bucket.last->0,
    decreases events.len(),
{
    if events.len() > 0 {
        last_does_not_go_back(bucket, events.drop_last());
    }
}

/// The slots of requests that come in at the given times, one after the other.
pub open spec fn slots(bucket: RateBucketView, times: Seq<int>) -> Seq<int>
    decreases times.len(),
{
    if times.len() == 0 {
        Seq::empty()
    } else {
        let earlier = slots(bucket, times.drop_last());
        earlier.push(slot(after(bucket, times.drop_last()), times.last()))
    }
}

/// The bucket after requests that came in at the given times took their slots.
pub open spec fn after(bucket: RateBucketView, times: Seq<int>) -> RateBucketView
    decreases times.len(),
{
    if times.len() == 0 {
        bucket
    } else {
        reserved(after(bucket, times.drop_last()), times.last())
    }
}

/// Whenever requests come in, at one time or in whatever order of times, their slots keep the
/// shortest distance: of two requests, the later one's slot is later by as many intervals as
/// requests lie between them and one more. No slot lies before its request came in.
pub proof fn slots_keep_their_distance(bucket: RateBucketView, times: Seq<int>, i: int, j: int)
    requires
        0 <= i < j < times.len(),
    ensures
        slots(bucket, times).len() == times.len(),
        slots(bucket, times)[j] >= slots(bucket, times)[i] + (j - i) * bucket.min_interval,
        slots(bucket, times)[i] >= times[i],
        slots(bucket, times)[j] >= times[j],
    decreases times.len(),
{
    let shorter = times.drop_last();
    slots_len(bucket, times);
    slots_len(bucket, shorter);
    let n = times.len() - 1;
    after_keeps_interval(bucket, shorter);
    if j < n {
        slots_keep_their_distance(bucket, shorter, i, j);
        assert(shorter[i] == times[i] && shorter[j] == times[j]);
    } else {
        assert(slots(bucket, times)[n] == slot(after(bucket, shorter), times.last()));
        after_is_the_last_slot(bucket, shorter);
        let last = slots(bucket, shorter)[n - 1];
        assert(slots(bucket, times)[n] >= last + bucket.min_interval);
        slots_are_not_early(bucket, shorter, i);
        assert(slots(bucket, times)[i] == slots(bucket, shorter)[i]);
        if i < n - 1 {
            slots_keep_their_distance(bucket, shorter, i, n - 1);
        } else {
            assert((n - 1 - i) * bucket.min_interval == 0) by (nonlinear_arith)
                requires
                    n - 1 - i == 0,
            ;
        }
        assert((n - i) * bucket.min_interval == (n - 1 - i) * bucket.min_interval
            + bucket.min_interval) by (nonlinear_arith);
    }
}

proof fn slots_len(bucket: RateBucketView, times: Seq<int>)
    ensures
        slots(bucket, times).len() == times.len(),
    decreases times.len(),
{
    if times.len() > 0 {
        slots_len(bucket, times.drop_last());
    }
}

proof fn slots_are_not_early(bucket: RateBucketView, times: Seq<int>, i: int)
    requires
        0 <= i < times.len(),
    ensures
        slots(bucket, times)[i] >= times[i],
    decreases times.len(),
{
    slots_len(bucket, times);
    slots_len(bucket, times.drop_last());
    if i < times.len() - 1 {
        slots_are_not_early(bucket, times.drop_last(), i);
    }
}

proof fn after_keeps_interval(bucket: RateBucketView, times: Seq<int>)
    ensures
        after(bucket, times).min_interval == bucket.min_interval,
    decreases times.len(),
{
    if times.len() > 0 {
        after_keeps_interval(bucket, times.drop_last());
    }
}

proof fn after_is_the_last_slot(bucket: RateBucketView, times: Seq<int>)
    requires
        times.len() > 0,
    ensures
        after(bucket, times).last == Some(slots(bucket, times).last()),
{
    slots_len(bucket, times);
    slots_len(bucket, times.drop_last());
}

/// A new bucket keeps the interval that it was made with, and has let nothing through.
pub proof fn buckets_keep_their_interval(interval: Duration, bucket: RateBucket, r: Duration)
    requires
        call_ensures(RateBucket::new, (interval,), bucket),
        call_ensures(RateBucket::min_interval, (&bucket,), r),
    ensures
        r.nanos == interval.nanos,
        bucket@.last is None,
{
}

/// A request that waits gets the first time that is neither before it came in nor less than an
/// interval after the last slot, and that time is the last slot from then on.
pub proof fn requests_wait_no_longer_than_they_must(
    bucket: &mut RateBucket,
    now: Instant,
    interval: Duration,
    r: Instant,
    free: int,
)
    requires
        slot_is_on_the_clock(old(bucket)@),
        call_ensures(RateBucket::min_interval, (&*old(bucket),), interval),
        call_ensures(RateBucket::reserve, (bucket, now), r),
        free >= now.nanos,
        old(bucket)@.last is Some ==> free >= old(bucket)@.last->0 + interval.nanos,
    ensures
        r.nanos >= now.nanos,
        old(bucket)@.last is Some ==> r.nanos >= old(bucket)@.last->0 + interval.nanos,
        r.nanos <= free,
        final(bucket)@.last == Some(r.nanos as int),
        final(bucket)@.min_interval == interval.nanos,
{
}

/// Of two requests that wait, one after the other, the second gets a time that is later than the
/// first one's by the interval, whenever either came in.
pub proof fn two_requests_keep_apart(
    first: &mut RateBucket,
    second: &mut RateBucket,
    interval: Duration,
    t1: Instant,
    t2: Instant,
    r1: Instant,
    r2: Instant,
)
    requires
        slot_is_on_the_clock(old(first)@),
        call_ensures(RateBucket::min_interval, (&*old(first),), interval),
        call_ensures(RateBucket::reserve, (first, t1), r1),
        *old(second) == *final(first),
        slot_is_on_the_clock(old(second)@),
        call_ensures(RateBucket::reserve, (second, t2), r2),
    ensures
        r2.nanos >= r1.nanos + interval.nanos,
        r2.nanos >= t2.nanos,
        r2.nanos == t2.nanos || r2.nanos == r1.nanos + interval.nanos,
{
}

/// A request that does not wait goes through just where none went through before it or the last
/// did an interval or more ago. One that goes through is the last from then on; one that does
/// not changes nothing, and would go through after the time that it is told.
pub proof fn early_requests_are_told_how_early(
    bucket: &mut RateBucket,
    now: Instant,
    interval: Duration,
    r: Result<(), Duration>,
)
    requires
        slot_is_on_the_clock(old(bucket)@),
        call_ensures(RateBucket::min_interval, (&*old(bucket),), interval),
        call_ensures(RateBucket::try_acquire, (bucket, now), r),
    ensures
        r is Ok <==> (old(bucket)@.last is Some ==> old(bucket)@.last->0 + interval.nanos
            <= now.nanos),
        r is Ok ==> final(bucket)@.last == Some(now.nanos as int),
        r matches Err(wait) ==> wait.nanos > 0 && now.nanos + wait.nanos == old(bucket)@.last->0
            + interval.nanos,
        r is Err ==> final(bucket)@ == old(bucket)@,
        final(bucket)@.min_interval == interval.nanos,
{
}

/// A waiting request that went through late moves the last slot to when it did; one that went
/// through in time leaves it.
pub proof fn late_requests_move_the_last_slot(bucket: &mut RateBucket, now: Instant)
    requires
        call_ensures(RateBucket::settle, (bucket, now), ()),
    ensures
        final(bucket)@.min_interval == old(bucket)@.min_interval,
        old(bucket)@.last is None ==> final(bucket)@.last is None,
        old(bucket)@.last is Some ==> {
            let (before, after) = (old(bucket)@.last->0, final(bucket)@.last->0);
            &&& final(bucket)@.last is Some
            &&& after >= before
            &&& after >= now.nanos
            &&& after == before || after == now.nanos
        },
{
}

/// There is a next slot just where the clock reaches an interval past the last one.
pub proof fn slots_end_with_the_clock(bucket: RateBucket, interval: Duration, r: bool)
    requires
        call_ensures(RateBucket::has_slot, (&bucket,), r),
        call_ensures(RateBucket::min_interval, (&bucket,), interval),
    ensures
        r == slot_is_on_the_clock(bucket@),
        r <==> bucket@.last is None || bucket@.last->0 + interval.nanos
            <= 340_282_366_920_938_463_463_374_607_431_768_211_455,
{
}

} // verus!
