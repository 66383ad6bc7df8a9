//! The per-instance clock state: for each instance, the timestamp of the
//! last operation incorporated from it.

use crate::ident::same_id;
use crate::sync::assoc::{
    distinct_keys, lemma_table_absent, lemma_table_present, lemma_table_push, lemma_table_update,
    table,
};
use crate::sync::timestamp::{next_stamp, NTP64};
use uuid::Uuid;
use vstd::prelude::*;

verus! {

/// A list of (instance, timestamp) pairs with each timestamp as a number.
pub open spec fn stamps(pairs: Seq<(Uuid, NTP64)>) -> Seq<(Uuid, u64)> {
    Seq::new(pairs.len(), |i: int| (pairs[i].0, pairs[i].1@))
}

/// The map that a list of (instance, timestamp) pairs stands for. Where an
/// instance occurs twice the later pair counts.
pub open spec fn marks_of(pairs: Seq<(Uuid, NTP64)>) -> Map<Uuid, u64> {
    table(stamps(pairs))
}

/// The high-water mark of `instance` in `marks`, or -1 where the instance is
/// unknown.
pub open spec fn mark_in(marks: Map<Uuid, u64>, instance: Uuid) -> int {
    if marks.contains_key(instance) {
        marks[instance] as int
    } else {
        -1
    }
}

/// Whether an operation of `instance` stamped `timestamp` would advance the
/// high-water mark.
pub open spec fn is_new_in(marks: Map<Uuid, u64>, instance: Uuid, timestamp: u64) -> bool {
    timestamp > mark_in(marks, instance)
}

/// The marks after `timestamp` was incorporated for `instance`.
pub open spec fn observed(marks: Map<Uuid, u64>, instance: Uuid, timestamp: u64) -> Map<Uuid, u64> {
    if is_new_in(marks, instance, timestamp) {
        marks.insert(instance, timestamp)
    } else {
        marks
    }
}

/// What a tick for `instance` returns when the wall clock reads `now_ms`.
pub open spec fn ticked(marks: Map<Uuid, u64>, instance: Uuid, now_ms: u64) -> Option<u64> {
    next_stamp(mark_in(marks, instance), now_ms)
}

/// The marks after a tick for `instance`.
pub open spec fn after_tick(marks: Map<Uuid, u64>, instance: Uuid, now_ms: u64) -> Map<Uuid, u64> {
    match ticked(marks, instance, now_ms) {
        Some(stamp) => marks.insert(instance, stamp),
        None => marks,
    }
}

/// One call on a clock.
pub enum ClockCall {
    /// `tick` for an instance, with the wall clock's reading.
    Tick { instance: Uuid, now_ms: u64 },
    /// `observe` of a timestamp for an instance.
    Observe { instance: Uuid, timestamp: u64 },
}

/// The marks after one call.
pub open spec fn after_call(marks: Map<Uuid, u64>, call: ClockCall) -> Map<Uuid, u64> {
    match call {
        ClockCall::Tick { instance, now_ms } => after_tick(marks, instance, now_ms),
        ClockCall::Observe { instance, timestamp } => observed(marks, instance, timestamp),
    }
}

/// The marks after a run of calls, made in order.
pub open spec fn after_calls(marks: Map<Uuid, u64>, calls: Seq<ClockCall>) -> Map<Uuid, u64>
    decreases calls.len(),
{
    if calls.len() == 0 {
        marks
    } else {
        after_call(after_calls(marks, calls.drop_last()), calls.last())
    }
}

/// What the call at position `at` of a run gives out: the timestamp of a
/// tick that succeeds, `None` for any other call.
pub open spec fn given_out(marks: Map<Uuid, u64>, calls: Seq<ClockCall>, at: int) -> Option<u64> {
    match calls[at] {
        ClockCall::Tick { instance, now_ms } => ticked(
            after_calls(marks, calls.take(at)),
            instance,
            now_ms,
        ),
        ClockCall::Observe { .. } => None,
    }
}

/// The instance that a call is made for.
pub open spec fn call_instance(call: ClockCall) -> Uuid {
    match call {
        ClockCall::Tick { instance, .. } => instance,
        ClockCall::Observe { instance, .. } => instance,
    }
}

/// No call lowers the mark of any instance.
pub proof fn lemma_call_keeps_marks(marks: Map<Uuid, u64>, call: ClockCall, instance: Uuid)
    ensures
        mark_in(marks, instance) <= mark_in(after_call(marks, call), instance),
{
}

/// Over a run of calls, the mark of an instance never falls.
pub proof fn lemma_marks_never_fall(
    marks: Map<Uuid, u64>,
    calls: Seq<ClockCall>,
    from: int,
    to: int,
    instance: Uuid,
)
    requires
        0 <= from <= to <= calls.len(),
    ensures
        mark_in(after_calls(marks, calls.take(from)), instance) <= mark_in(
            after_calls(marks, calls.take(to)),
            instance,
        ),
    decreases to - from,
{
    if from < to {
        lemma_marks_never_fall(marks, calls, from, to - 1, instance);
        assert(calls.take(to).drop_last() == calls.take(to - 1));
        lemma_call_keeps_marks(after_calls(marks, calls.take(to - 1)), calls[to - 1], instance);
    }
}

/// Clock monotonicity: in any run of `tick` and `observe` calls, for
/// whatever instances and in whatever order, the timestamps that the ticks
/// of one instance give out are strictly increasing.
pub proof fn lemma_ticks_strictly_increase(
    marks: Map<Uuid, u64>,
    calls: Seq<ClockCall>,
    earlier: int,
    later: int,
)
    requires
        0 <= earlier < later < calls.len(),
        call_instance(calls[earlier]) == call_instance(calls[later]),
        given_out(marks, calls, earlier).is_some(),
        given_out(marks, calls, later).is_some(),
    ensures
        given_out(marks, calls, earlier).unwrap() < given_out(marks, calls, later).unwrap(),
{
    let instance = call_instance(calls[earlier]);
    assert(calls.take(earlier + 1).drop_last() == calls.take(earlier));
    assert(mark_in(after_calls(marks, calls.take(earlier + 1)), instance) == given_out(
        marks,
        calls,
        earlier,
    ).unwrap());
    lemma_marks_never_fall(marks, calls, earlier + 1, later, instance);
}

/// The per-instance clock state.
pub struct Clock {
    marks: Vec<(Uuid, NTP64)>,
}

impl View for Clock {
    type V = Map<Uuid, u64>;

    closed spec fn view(&self) -> Map<Uuid, u64> {
        marks_of(self.marks@)
    }
}

impl Clock {
    #[verifier::type_invariant]
    spec fn distinct(self) -> bool {
        distinct_keys(stamps(self.marks@))
    }

    /// The high-water mark of `instance`, or -1 where it is unknown.
    pub open spec fn mark(self, instance: Uuid) -> int {
        mark_in(self@, instance)
    }

    /// A clock that knows no instance.
    pub fn new() -> (clock: Clock)
        ensures
            clock@ == Map::<Uuid, u64>::empty(),
    {
        let clock = Clock { marks: Vec::new() };
        proof {
            assert(stamps(clock.marks@) =~= Seq::empty());
        }
        clock
    }

    /// A clock seeded with the last timestamp recorded for each known
    /// instance. Where an instance is listed twice, the later entry counts.
    pub fn seeded(seed: Vec<(Uuid, NTP64)>) -> (clock: Clock)
        ensures
            clock@ == marks_of(seed@),
    {
        let mut clock = Clock::new();
        proof {
            assert(stamps(seed@.take(0)) =~= Seq::empty());
        }
        let mut i: usize = 0;
        while i < seed.len()
            invariant
                0 <= i <= seed.len(),
                clock@ == marks_of(seed@.take(i as int)),
            decreases seed.len() - i,
        {
            let (instance, stamp) = seed[i];
            clock.set(&instance, stamp);
            proof {
                assert(stamps(seed@.take(i + 1)).drop_last() =~= stamps(seed@.take(i as int)));
            }
            i = i + 1;
        }
        proof {
            assert(seed@.take(seed.len() as int) == seed@);
        }
        clock
    }

    fn find(&self, instance: &Uuid) -> (at: Option<usize>)
        ensures
            match at {
                Some(i) => i < self.marks.len() && self.marks[i as int].0 == *instance,
                None => forall|j: int| 0 <= j < self.marks.len() ==> self.marks[j].0 != *instance,
            },
    {
        let mut i: usize = 0;
        while i < self.marks.len()
            invariant
                0 <= i <= self.marks.len(),
                forall|j: int| 0 <= j < i ==> self.marks[j].0 != *instance,
            decreases self.marks.len() - i,
        {
            if same_id(&self.marks[i].0, instance) {
                return Some(i);
            }
            i = i + 1;
        }
        None
    }

    fn set(&mut self, instance: &Uuid, stamp: NTP64)
        ensures
            final(self)@ == old(self)@.insert(*instance, stamp@),
    {
        proof {
            use_type_invariant(&*self);
        }
        let found = self.find(instance);
        let mut marks: Vec<(Uuid, NTP64)> = Vec::new();
        proof {
            assert(stamps(marks@) =~= Seq::empty());
        }
        std::mem::swap(&mut self.marks, &mut marks);
        let ghost before = stamps(marks@);
        match found {
            Some(i) => {
                proof {
                    lemma_table_update(before, i as int, stamp@);
                }
                marks[i] = (*instance, stamp);
                proof {
                    assert(stamps(marks@) =~= before.update(i as int, (before[i as int].0, stamp@)));
                }
            },
            None => {
                proof {
                    lemma_table_push(before, *instance, stamp@);
                }
                marks.push((*instance, stamp));
                proof {
                    assert(stamps(marks@) =~= before.push((*instance, stamp@)));
                }
            },
        }
        std::mem::swap(&mut self.marks, &mut marks);
    }

    /// The last timestamp incorporated from `instance`, if any.
    pub fn get(&self, instance: &Uuid) -> (stamp: Option<NTP64>)
        ensures
            stamp.is_some() == self@.contains_key(*instance),
            stamp.is_some() ==> stamp.unwrap()@ == self@[*instance],
    {
        proof {
            use_type_invariant(self);
        }
        match self.find(instance) {
            Some(i) => {
                proof {
                    lemma_table_present(stamps(self.marks@), i as int);
                }
                Some(self.marks[i].1)
            },
            None => {
                proof {
                    lemma_table_absent(stamps(self.marks@), *instance);
                }
                None
            },
        }
    }

    /// Whether incorporating `timestamp` for `instance` would advance the
    /// high-water mark. An unknown instance makes every timestamp new.
    pub fn is_new(&self, instance: &Uuid, timestamp: NTP64) -> (new: bool)
        ensures
            new == is_new_in(self@, *instance, timestamp@),
    {
        match self.get(instance) {
            Some(mark) => timestamp.0 > mark.0,
            None => true,
        }
    }

    /// Records that `timestamp` has been incorporated for `instance`. The
    /// mark rises only where the timestamp is new; an old or repeated one
    /// changes nothing.
    pub fn observe(&mut self, instance: &Uuid, timestamp: NTP64)
        ensures
            final(self)@ == observed(old(self)@, *instance, timestamp@),
    {
        if self.is_new(instance, timestamp) {
            self.set(instance, timestamp);
        }
    }

    /// Gives out the next timestamp of `instance` when the wall clock reads
    /// `now_ms`, and raises the mark to it. `None`, with the clock unchanged,
    /// when the mark is the largest 64-bit value.
    pub fn tick(&mut self, instance: &Uuid, now_ms: u64) -> (stamp: Option<NTP64>)
        ensures
            stamp.is_some() == ticked(old(self)@, *instance, now_ms).is_some(),
            stamp.is_some() ==> stamp.unwrap()@ == ticked(old(self)@, *instance, now_ms).unwrap(),
            stamp.is_some() ==> stamp.unwrap()@ > old(self).mark(*instance),
            final(self)@ == after_tick(old(self)@, *instance, now_ms),
    {
        let next = match self.get(instance) {
            Some(mark) => mark.succ(now_ms),
            None => Some(NTP64::from_wall_clock(now_ms)),
        };
        match next {
            Some(stamp) => {
                self.set(instance, stamp);
                Some(stamp)
            },
            None => None,
        }
    }
}

impl Clone for Clock {
    fn clone(&self) -> (copy: Self)
        ensures
            copy@ == self@,
    {
        proof {
            use_type_invariant(self);
        }
        let mut marks: Vec<(Uuid, NTP64)> = Vec::new();
        let mut i: usize = 0;
        while i < self.marks.len()
            invariant
                0 <= i <= self.marks.len(),
                marks@ == self.marks@.take(i as int),
            decreases self.marks.len() - i,
        {
            marks.push(self.marks[i]);
            proof {
                assert(marks@ =~= self.marks@.take(i + 1));
            }
            i = i + 1;
        }
        proof {
            assert(marks@ =~= self.marks@);
        }
        Clock { marks }
    }
}

} // verus!
