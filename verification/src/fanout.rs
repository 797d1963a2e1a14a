//! The bounded fan-out over segment loads: a scheduler that decides which
//! segment location to load next while capping how many loads are in flight
//! at once. The cap exists to limit simultaneous open connections against
//! the storage backend; it is `min(fan_out, segment_count)`, with the
//! fan-out a policy constant, not a structural requirement. An outer driver
//! performs the actual asynchronous loads and reports each completion back.

use vstd::prelude::*;

verus! {

/// The default fan-out policy: how many segment loads may overlap.
pub const DEFAULT_SEGMENT_FANOUT: usize = 10;

/// Schedules segment loads under a fixed concurrency bound. Locations are
/// handed out from the back of the pending list; the driver reports each
/// finished load so that the next may start.
pub struct SegmentLoadScheduler {
    pending: Vec<String>,
    in_flight: Vec<String>,
    bound: usize,
}

impl SegmentLoadScheduler {
    /// The locations not yet handed out, in reverse hand-out order.
    pub closed spec fn pending_spec(self) -> Seq<Seq<char>> {
        self.pending@.map_values(|s: String| s@)
    }

    /// The locations currently being loaded.
    pub closed spec fn in_flight_spec(self) -> Seq<Seq<char>> {
        self.in_flight@.map_values(|s: String| s@)
    }

    /// The concurrency cap this scheduler was created with.
    pub closed spec fn bound_spec(self) -> nat {
        self.bound as nat
    }

    /// The scheduler's invariant: the loads in flight never exceed the cap.
    pub open spec fn wf(self) -> bool {
        self.in_flight_spec().len() <= self.bound_spec()
    }

    /// A scheduler over the given segment locations whose cap is the
    /// smaller of the fan-out policy and the number of segments.
    pub fn new(segment_locations: Vec<String>, fan_out: usize) -> (r: Self)
        ensures
            r.wf(),
            r.bound_spec() == (if fan_out <= segment_locations@.len() {
                fan_out as nat
            } else {
                segment_locations@.len() as nat
            }),
            r.pending_spec() == segment_locations@.map_values(|s: String| s@),
            r.in_flight_spec() == Seq::<Seq<char>>::empty(),
    {
        let n = segment_locations.len();
        let bound = if fan_out <= n {
            fan_out
        } else {
            n
        };
        let r = SegmentLoadScheduler { pending: segment_locations, in_flight: Vec::new(), bound };
        proof {
            assert(r.in_flight_spec() =~= Seq::<Seq<char>>::empty());
        }
        r
    }

    /// How many loads are in flight right now.
    pub fn in_flight_count(&self) -> (r: usize)
        ensures
            r == self.in_flight_spec().len(),
    {
        self.in_flight.len()
    }

    /// Hands out the next location to load, or nothing when the pending
    /// list is empty or the cap is reached. The cap is never exceeded.
    pub fn start_next(&mut self) -> (r: Option<String>)
        requires
            old(self).wf(),
        ensures
            final(self).wf(),
            final(self).bound_spec() == old(self).bound_spec(),
            match r {
                Some(loc) => {
                    &&& old(self).pending_spec().len() > 0
                    &&& old(self).in_flight_spec().len() < old(self).bound_spec()
                    &&& loc@ == old(self).pending_spec().last()
                    &&& final(self).pending_spec() == old(self).pending_spec().drop_last()
                    &&& final(self).in_flight_spec() == old(self).in_flight_spec().push(loc@)
                },
                None => {
                    &&& old(self).pending_spec().len() == 0 || old(self).in_flight_spec().len()
                        >= old(self).bound_spec()
                    &&& final(self).pending_spec() == old(self).pending_spec()
                    &&& final(self).in_flight_spec() == old(self).in_flight_spec()
                },
            },
    {
        if self.in_flight.len() >= self.bound {
            return None;
        }
        let popped = self.pending.pop();
        match popped {
            Some(loc) => {
                let handed = loc.clone();
                self.in_flight.push(loc);
                proof {
                    assert(self.pending_spec() =~= old(self).pending_spec().drop_last());
                    assert(self.in_flight_spec() =~= old(self).in_flight_spec().push(handed@));
                }
                Some(handed)
            },
            None => {
                proof {
                    assert(self.pending_spec() =~= old(self).pending_spec());
                }
                None
            },
        }
    }

    /// Records that the load of a location finished, freeing one slot under
    /// the cap. Answers whether the location was in flight at all.
    pub fn complete(&mut self, location: &str) -> (r: bool)
        requires
            old(self).wf(),
        ensures
            final(self).wf(),
            final(self).bound_spec() == old(self).bound_spec(),
            final(self).pending_spec() == old(self).pending_spec(),
            r ==> exists|j: int|
                0 <= j < old(self).in_flight_spec().len() && old(self).in_flight_spec()[j]
                    == location@ && final(self).in_flight_spec() == old(
                    self,
                ).in_flight_spec().remove(j),
            !r ==> *final(self) == *old(self) && !old(self).in_flight_spec().contains(location@),
    {
        let loc = location.to_string();
        let mut j: usize = 0;
        while j < self.in_flight.len()
            invariant
                old(self).wf(),
                j <= self.in_flight@.len(),
                loc@ == location@,
                *self == *old(self),
                forall|k: int| 0 <= k < j ==> old(self).in_flight_spec()[k] != location@,
            decreases self.in_flight@.len() - j,
        {
            if self.in_flight[j] == loc {
                proof {
                    assert(old(self).in_flight_spec()[j as int] == location@);
                }
                self.in_flight.remove(j);
                proof {
                    assert(self.in_flight_spec() =~= old(self).in_flight_spec().remove(j as int));
                }
                return true;
            }
            j = j + 1;
        }
        proof {
            assert forall|k: int|
                0 <= k < old(self).in_flight_spec().len() implies old(self).in_flight_spec()[k]
                != location@ by {}
        }
        false
    }

    /// The concurrency bound as a law: however the scheduler is driven, at
    /// no point are more than `min(fan_out, segment_count)` loads in
    /// flight.
    pub proof fn lemma_concurrency_bound(self)
        requires
            self.wf(),
        ensures
            self.in_flight_spec().len() <= self.bound_spec(),
    {
    }
}

} // verus!
