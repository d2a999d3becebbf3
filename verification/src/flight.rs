//! Single flight: however the requests for one missing context interleave,
//! one of them builds it and the others use what it built.

use vstd::prelude::*;
use crate::serve::{ContextStep, decide};

verus! {

/// How far one request has come.
pub enum Phase {
    /// It has not looked yet.
    Start,
    /// It looked, missed, and waits for the permit.
    Waiting,
    /// It holds the permit and builds.
    Building,
    /// It has its context.
    Done,
}

/// The requests for one game and version, all under way at once.
pub struct Flight {
    /// Whether the context is in the cache.
    pub present: bool,
    /// The request that holds the permit, if one does.
    pub builder: Option<int>,
    /// How far each request has come.
    pub phases: Seq<Phase>,
    /// How many builds have been started.
    pub builds: nat,
}

/// `count` requests, none of which has looked yet, for a context that is
/// not in the cache.
pub open spec fn flight_start(count: nat) -> Flight {
    Flight {
        present: false,
        builder: None,
        phases: Seq::new(count, |i: int| Phase::Start),
        builds: 0,
    }
}

/// The flight after request `r` has taken its next step, as `decide` tells
/// it to: a request that has not looked looks; a request that waits takes the
/// permit once it is free, looks again, and builds only if it still misses; a
/// request that builds files the context and gives the permit back.
pub open spec fn flight_step(flight: Flight, r: int) -> Flight {
    if !(0 <= r < flight.phases.len()) {
        flight
    } else {
        match flight.phases[r] {
            Phase::Start => match decide(true, flight.present, false) {
                ContextStep::Ready => Flight { phases: flight.phases.update(r, Phase::Done), ..flight },
                ContextStep::AcquirePermit => Flight {
                    phases: flight.phases.update(r, Phase::Waiting),
                    ..flight
                },
                _ => flight,
            },
            Phase::Waiting => if flight.builder is Some {
                flight
            } else {
                match decide(true, flight.present, true) {
                    ContextStep::Ready => Flight {
                        phases: flight.phases.update(r, Phase::Done),
                        ..flight
                    },
                    ContextStep::Build => Flight {
                        builder: Some(r),
                        phases: flight.phases.update(r, Phase::Building),
                        builds: flight.builds + 1,
                        ..flight
                    },
                    _ => flight,
                }
            },
            Phase::Building => Flight {
                present: true,
                builder: None,
                phases: flight.phases.update(r, Phase::Done),
                ..flight
            },
            Phase::Done => flight,
        }
    }
}

/// The flight after the requests have taken steps in the order that
/// `schedule` names them.
pub open spec fn flight_run(flight: Flight, schedule: Seq<int>) -> Flight
    decreases schedule.len(),
{
    if schedule.len() == 0 {
        flight
    } else {
        flight_step(flight_run(flight, schedule.drop_last()), schedule.last())
    }
}

/// What holds of a flight at every moment: only the holder of the permit
/// builds, it builds only what is missing, a build has been started exactly
/// when the context is there or being built, and nobody is done without it.
pub open spec fn flight_invariant(flight: Flight) -> bool {
    &&& flight.builder matches Some(b) ==> 0 <= b < flight.phases.len() && flight.phases[b]
        is Building && !flight.present
    &&& forall|r: int|
        0 <= r < flight.phases.len() && (#[trigger] flight.phases[r]) is Building
            ==> flight.builder == Some(r)
    &&& flight.builds == (if flight.present || flight.builder is Some {
        1nat
    } else {
        0nat
    })
    &&& forall|r: int|
        0 <= r < flight.phases.len() && (#[trigger] flight.phases[r]) is Done ==> flight.present
}

/// A step keeps what holds of a flight.
pub proof fn lemma_flight_step_keeps_invariant(flight: Flight, r: int)
    requires
        flight_invariant(flight),
    ensures
        flight_invariant(flight_step(flight, r)),
        flight_step(flight, r).phases.len() == flight.phases.len(),
{
    let next = flight_step(flight, r);
    if 0 <= r < flight.phases.len() {
        assert forall|q: int|
            0 <= q < next.phases.len() && (#[trigger] next.phases[q]) is Building implies next.builder
            == Some(q) by {
            if q != r {
                assert(next.phases[q] == flight.phases[q]);
            }
        }
        assert forall|q: int|
            0 <= q < next.phases.len() && (#[trigger] next.phases[q]) is Done implies next.present by {
            if q != r {
                assert(next.phases[q] == flight.phases[q]);
            }
        }
        if next.builder is Some {
            let b = next.builder->0;
            if b != r {
                assert(next.phases[b] == flight.phases[b]);
            }
        }
    }
}

/// Single flight: under any number of requests for the same missing context
/// and any interleaving of their steps, at most one build is started; and
/// once any of them is done, exactly one build has been started.
pub proof fn law_single_flight(count: nat, schedule: Seq<int>)
    ensures
        flight_invariant(flight_run(flight_start(count), schedule)),
        flight_run(flight_start(count), schedule).phases.len() == count,
        flight_run(flight_start(count), schedule).builds <= 1,
        forall|r: int|
            0 <= r < count && (#[trigger] flight_run(flight_start(count), schedule).phases[r])
                is Done ==> flight_run(flight_start(count), schedule).builds == 1,
    decreases schedule.len(),
{
    if schedule.len() == 0 {
    } else {
        law_single_flight(count, schedule.drop_last());
        lemma_flight_step_keeps_invariant(
            flight_run(flight_start(count), schedule.drop_last()),
            schedule.last(),
        );
    }
}

} // verus!
