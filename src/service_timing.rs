use vstd::prelude::*;

use crate::time::TimeDuration;

verus! {

/// When the caller should next call `update`.
#[derive(Clone, Copy, Debug, PartialEq, Eq, Structural)]
pub enum ServiceTiming {
    /// Call again as soon as possible.
    Immediate,
    /// Nothing happens until at least this much time has passed.
    Delay(TimeDuration),
    /// Nothing is pending: call again only when the input changes.
    Idle,
}

/// How soon a timing asks to be served: smaller is more urgent.
/// `Immediate` comes first, then delays by length, then `Idle`.
pub open spec fn urgency(t: ServiceTiming) -> int {
    match t {
        ServiceTiming::Immediate => 0,
        ServiceTiming::Delay(d) => d.millis + 1,
        ServiceTiming::Idle => u64::MAX + 2,
    }
}

/// The more urgent of two timings (the first one on a tie).
pub open spec fn sooner(a: ServiceTiming, b: ServiceTiming) -> ServiceTiming {
    if urgency(a) <= urgency(b) {
        a
    } else {
        b
    }
}

impl ServiceTiming {
    /// Returns the sooner of two service timings.
    pub fn min(self, other: ServiceTiming) -> (r: ServiceTiming)
        ensures
            r == sooner(self, other),
    {
        match (self, other) {
            (ServiceTiming::Immediate, _) | (_, ServiceTiming::Immediate) => ServiceTiming::Immediate,
            (ServiceTiming::Delay(a), ServiceTiming::Delay(b)) => {
                if a.as_millis() <= b.as_millis() {
                    ServiceTiming::Delay(a)
                } else {
                    ServiceTiming::Delay(b)
                }
            },
            (ServiceTiming::Delay(d), ServiceTiming::Idle) | (ServiceTiming::Idle, ServiceTiming::Delay(d)) => {
                ServiceTiming::Delay(d)
            },
            (ServiceTiming::Idle, ServiceTiming::Idle) => ServiceTiming::Idle,
        }
    }
}

/// Two timings of equal urgency are the same timing.
pub proof fn lemma_urgency_injective(a: ServiceTiming, b: ServiceTiming)
    requires
        urgency(a) == urgency(b),
    ensures
        a == b,
{
}

/// Combining timings does not depend on the order of the two arguments.
pub proof fn lemma_min_commutative(a: ServiceTiming, b: ServiceTiming)
    ensures
        sooner(a, b) == sooner(b, a),
{
    if urgency(a) == urgency(b) {
        lemma_urgency_injective(a, b);
    }
}

/// Combining three timings does not depend on how they are grouped.
pub proof fn lemma_min_associative(a: ServiceTiming, b: ServiceTiming, c: ServiceTiming)
    ensures
        sooner(sooner(a, b), c) == sooner(a, sooner(b, c)),
{
}

/// `Immediate` wins over every timing, and `Idle` gives way to every timing.
pub proof fn lemma_min_extremes(a: ServiceTiming)
    ensures
        sooner(ServiceTiming::Immediate, a) == ServiceTiming::Immediate,
        sooner(a, ServiceTiming::Immediate) == ServiceTiming::Immediate,
        sooner(ServiceTiming::Idle, a) == a,
        sooner(a, ServiceTiming::Idle) == a,
{
    lemma_min_commutative(ServiceTiming::Immediate, a);
    lemma_min_commutative(ServiceTiming::Idle, a);
}

} // verus!
