//! The unique-location generator: the consumed interface that hands the
//! block writer a fresh, collision-free storage location for every block it
//! persists.

use vstd::prelude::*;

verus! {

/// A source of fresh storage locations. No location is handed out twice:
/// each call returns one outside the set already generated. `supply` says
/// how many more locations the source can still produce.
pub trait LocationGenerator: Sized {
    /// The locations handed out so far.
    spec fn generated(&self) -> Set<Seq<char>>;

    /// How many more locations this source can produce.
    spec fn supply(&self) -> nat;

    /// Produces a location that no earlier call of this source returned.
    fn generate_location(&mut self) -> (r: String)
        requires
            old(self).supply() > 0,
        ensures
            final(self).supply() == old(self).supply() - 1,
            !old(self).generated().contains(r@),
            final(self).generated() == old(self).generated().insert(r@),
    ;
}

/// A finite location source fed from a prepared list of pairwise-distinct
/// names, handed out back to front.
pub struct PresetLocations {
    pending: Vec<String>,
    handed_out: Ghost<Set<Seq<char>>>,
}

impl PresetLocations {
    /// The names still to be handed out never repeat and never collide with
    /// one already handed out. A source that violated this could not count
    /// its remaining supply, so `supply` is defined to vanish with it.
    spec fn inv(self) -> bool {
        &&& forall|i: int, j: int|
            0 <= i < j < self.pending@.len() ==> (#[trigger] self.pending@[i])@
                != (#[trigger] self.pending@[j])@
        &&& forall|i: int|
            0 <= i < self.pending@.len() ==> !self.handed_out@.contains(
                (#[trigger] self.pending@[i])@,
            )
    }

    /// Builds a source from a list of names, or nothing if two names are
    /// equal. The last name of the list is handed out first.
    pub fn from_list(names: Vec<String>) -> (r: Option<Self>)
        ensures
            r matches Some(g) ==> g.supply() == names@.len() && g.generated() == Set::<
                Seq<char>,
            >::empty(),
            r is Some <==> forall|i: int, j: int|
                0 <= i < j < names@.len() ==> (#[trigger] names@[i])@ != (#[trigger] names@[j])@,
    {
        let n = names.len();
        let mut i: usize = 0;
        while i < n
            invariant
                i <= n,
                n == names@.len(),
                forall|a: int, b: int|
                    0 <= a < b < names@.len() && a < i ==> (#[trigger] names@[a])@
                        != (#[trigger] names@[b])@,
            decreases n - i,
        {
            let mut j: usize = i + 1;
            while j < n
                invariant
                    i < j || j == i + 1,
                    i < n,
                    j <= n,
                    n == names@.len(),
                    forall|b: int| i < b < j ==> (#[trigger] names@[b])@ != names@[i as int]@,
                decreases n - j,
            {
                if names[i] == names[j] {
                    proof {
                        assert(names@[i as int]@ == names@[j as int]@ && i < j);
                    }
                    return None;
                }
                j = j + 1;
            }
            i = i + 1;
        }
        Some(PresetLocations { pending: names, handed_out: Ghost(Set::empty()) })
    }
}

impl LocationGenerator for PresetLocations {
    closed spec fn generated(&self) -> Set<Seq<char>> {
        self.handed_out@
    }

    closed spec fn supply(&self) -> nat {
        if self.inv() {
            self.pending@.len()
        } else {
            0
        }
    }

    fn generate_location(&mut self) -> (r: String) {
        let name = match self.pending.pop() {
            Some(s) => s,
            None => vstd::pervasive::unreached(),
        };
        proof {
            self.handed_out@ = self.handed_out@.insert(name@);
        }
        name
    }
}

} // verus!
