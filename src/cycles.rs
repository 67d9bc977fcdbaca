use vstd::prelude::*;
use std::time::SystemTime;

verus! {

/// std's wall-clock time, carried opaquely from one clock wrapper to the other.
#[verifier::external_type_specification]
#[verifier::external_body]
pub struct ExSystemTime(std::time::SystemTime);

/// Relies on `SystemTime::now`: the current wall-clock time. Nothing is known of its value.
#[verifier::external_body]
fn system_now() -> (r: SystemTime) {
    SystemTime::now()
}

/// Relies on `SystemTime::duration_since` with `UNIX_EPOCH`: the nanoseconds since
/// the epoch, or `None` for a time before it. Nothing is known of the value.
#[verifier::external_body]
fn nanos_since_epoch(t: &SystemTime) -> (r: Option<u128>) {
    match t.duration_since(std::time::UNIX_EPOCH) {
        Ok(d) => Some(d.as_nanos()),
        Err(_) => None,
    }
}

/// Reads the wall clock in nanoseconds since the epoch; a clock set before the
/// epoch reads as zero.
fn clock_nanos() -> (r: u128) {
    let t = system_now();
    match nanos_since_epoch(&t) {
        Some(n) => n,
        None => 0,
    }
}

/// Nanoseconds in a second.
pub const NANOS_PER_SECOND: u128 = 1_000_000_000;

/// The interval in nanoseconds between two events at `rate` events per second.
pub open spec fn interval_of(rate: u32) -> u128 {
    (NANOS_PER_SECOND / (rate as u128)) as u128
}

/// A coordinator that fires at most once per interval: `offset` is the interval in
/// nanoseconds and `last_execution` the time of the last firing.
pub struct Coordinator {
    pub rate: u32,
    pub offset: u128,
    pub last_execution: u128,
}

impl Coordinator {
    /// Whether it fires at time `now`. A time before the last firing is
    /// never due.
    pub open spec fn is_due(self, now: u128) -> bool {
        now >= self.last_execution && now - self.last_execution >= self.offset
    }

    /// The coordinator after it is asked at time `now`.
    pub open spec fn after(self, now: u128) -> Coordinator {
        if self.is_due(now) {
            Coordinator { last_execution: now, ..self }
        } else {
            self
        }
    }

    /// The nanoseconds from `now` until it next fires: zero when it is due,
    /// and at most `u128::MAX`.
    pub open spec fn delay_at(self, now: u128) -> u128 {
        let due = self.last_execution + self.offset;
        if due <= now {
            0
        } else if due - now > u128::MAX {
            u128::MAX
        } else {
            (due - now) as u128
        }
    }

    /// A coordinator for `rate` events per second, as if it last fired at time zero.
    pub fn new(rate: u32) -> (r: Coordinator)
        requires
            rate > 0,
        ensures
            r.rate == rate,
            r.offset == interval_of(rate),
            r.last_execution == 0,
    {
        Coordinator { rate, offset: NANOS_PER_SECOND / rate as u128, last_execution: 0 }
    }

    /// Whether it fires at time `now`; if it does, `now` becomes the time
    /// of the last firing.
    pub fn should_cycle_at(&mut self, now: u128) -> (r: bool)
        ensures
            r == old(self).is_due(now),
            *final(self) == old(self).after(now),
    {
        if now >= self.last_execution && now - self.last_execution >= self.offset {
            self.last_execution = now;
            true
        } else {
            false
        }
    }

    /// Whether it fires now, by the wall clock.
    pub fn should_cycle(&mut self) -> (r: bool)
        ensures
            exists|now: u128| r == old(self).is_due(now) && *final(self) == old(self).after(now),
    {
        let now = clock_nanos();
        self.should_cycle_at(now)
    }

    /// The nanoseconds from time `now` until it next fires.
    pub fn delay_until_cycle_at(&self, now: u128) -> (r: u128)
        ensures
            r == self.delay_at(now),
    {
        if now >= self.last_execution {
            let elapsed = now - self.last_execution;
            if elapsed >= self.offset {
                0
            } else {
                self.offset - elapsed
            }
        } else {
            (self.last_execution - now).saturating_add(self.offset)
        }
    }

    /// The nanoseconds until it next fires, by the wall clock.
    pub fn delay_until_cycle(&self) -> (r: u128)
        ensures
            exists|now: u128| r == self.delay_at(now),
    {
        let now = clock_nanos();
        self.delay_until_cycle_at(now)
    }

    /// The least delay at time `now` among `coordinators`: how long a loop that
    /// serves all of them may sleep.
    pub fn smallest_delay_until_cycle_at(coordinators: &[&Coordinator], now: u128) -> (r: u128)
        requires
            coordinators@.len() > 0,
        ensures
            r == smallest_delay(deref_all(coordinators@), now),
    {
        let ghost cs = deref_all(coordinators@);
        let mut best = coordinators[0].delay_until_cycle_at(now);
        let mut i: usize = 1;
        assert(cs.take(1).len() == 1);
        while i < coordinators.len()
            invariant
                1 <= i <= cs.len(),
                cs == deref_all(coordinators@),
                best == smallest_delay(cs.take(i as int), now),
            decreases cs.len() - i,
        {
            let d = coordinators[i].delay_until_cycle_at(now);
            assert(cs.take(i + 1).drop_last() =~= cs.take(i as int));
            if d < best {
                best = d;
            }
            i = i + 1;
        }
        assert(cs.take(cs.len() as int) =~= cs);
        best
    }

    /// The least delay among `coordinators`, by one reading of the wall clock.
    pub fn smallest_delay_until_cycle(coordinators: &[&Coordinator]) -> (r: u128)
        requires
            coordinators@.len() > 0,
        ensures
            exists|now: u128| r == #[trigger] smallest_delay(deref_all(coordinators@), now),
    {
        let now = clock_nanos();
        Coordinator::smallest_delay_until_cycle_at(coordinators, now)
    }
}

/// The coordinators that a sequence of references points to.
pub open spec fn deref_all(cs: Seq<&Coordinator>) -> Seq<Coordinator> {
    cs.map_values(|c: &Coordinator| *c)
}

/// The least of the delays at `now` of a non-empty sequence of coordinators.
pub open spec fn smallest_delay(cs: Seq<Coordinator>, now: u128) -> u128
    decreases cs.len(),
{
    if cs.len() <= 1 {
        cs[0].delay_at(now)
    } else {
        let rest = smallest_delay(cs.drop_last(), now);
        let d = cs.last().delay_at(now);
        if d < rest {
            d
        } else {
            rest
        }
    }
}

/// The smallest delay is the delay of one of the coordinators, and no coordinator's delay is smaller.
pub proof fn lemma_smallest_delay_is_minimum(cs: Seq<Coordinator>, now: u128)
    requires
        cs.len() > 0,
    ensures
        exists|i: int| 0 <= i < cs.len() && smallest_delay(cs, now) == #[trigger] cs[i].delay_at(now),
        forall|i: int| 0 <= i < cs.len() ==> smallest_delay(cs, now) <= #[trigger] cs[i].delay_at(now),
    decreases cs.len(),
{
    if cs.len() > 1 {
        lemma_smallest_delay_is_minimum(cs.drop_last(), now);
        let rest = cs.drop_last();
        assert forall|i: int| 0 <= i < cs.len() - 1 implies #[trigger] cs[i] == rest[i] by {}
        if cs.last().delay_at(now) < smallest_delay(rest, now) {
            assert(smallest_delay(cs, now) == cs[cs.len() - 1].delay_at(now));
        } else {
            let j = choose|i: int| 0 <= i < rest.len() && smallest_delay(rest, now) == #[trigger] rest[i].delay_at(now);
            assert(smallest_delay(cs, now) == cs[j].delay_at(now));
        }
    } else {
        assert(smallest_delay(cs, now) == cs[0].delay_at(now));
    }
}

/// Of two coordinators, the smallest delay is that of the sooner one.
pub proof fn lemma_smallest_of_two(sooner: Coordinator, later: Coordinator, now: u128)
    requires
        sooner.delay_at(now) <= later.delay_at(now),
    ensures
        smallest_delay(seq![sooner, later], now) == sooner.delay_at(now),
{
    let s = seq![sooner, later];
    assert(s.drop_last() =~= seq![sooner]);
    assert(s.last() == later);
    assert(smallest_delay(s.drop_last(), now) == sooner.delay_at(now));
}

/// A coordinator that fired at `t1` does not fire again before a full interval has passed.
pub proof fn lemma_no_second_fire_within_interval(c: Coordinator, t1: u128, t2: u128)
    requires
        c.is_due(t1),
        t1 <= t2,
        t2 - t1 < c.offset,
    ensures
        !c.after(t1).is_due(t2),
{
}

} // verus!
