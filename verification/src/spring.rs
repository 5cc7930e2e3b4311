//! The spring record of one vertex.

use vstd::prelude::*;

verus! {

/// Number of spring slots per vertex: four structural (top, bottom, left,
/// right), four shear (the diagonals) and four bend (two steps along each
/// axis).
pub const SPRING_SLOTS: usize = 12;

/// Per-vertex spring adjacency: twelve neighbour slots, with the rest length
/// fixed at construction and the current length refreshed every tick.  An
/// absent slot holds the owning vertex's own id and a rest distance of zero.
#[derive(Debug)]
pub struct Spring {
    pub links: Vec<u32>,
    pub rest_distance: Vec<i64>,
    pub current_distance: Vec<i64>,
}

impl Spring {
    /// The three slot arrays have exactly [`SPRING_SLOTS`] entries.
    pub open spec fn wf(self) -> bool {
        self.links@.len() == SPRING_SLOTS && self.rest_distance@.len() == SPRING_SLOTS
            && self.current_distance@.len() == SPRING_SLOTS
    }

    /// A spring record with every slot zeroed.
    pub fn new() -> (s: Spring)
        ensures
            s.wf(),
            forall|k: int| 0 <= k < SPRING_SLOTS ==> s.links@[k] == 0,
            forall|k: int| 0 <= k < SPRING_SLOTS ==> s.rest_distance@[k] == 0,
            forall|k: int| 0 <= k < SPRING_SLOTS ==> s.current_distance@[k] == 0,
    {
        let mut links: Vec<u32> = Vec::new();
        let mut rest_distance: Vec<i64> = Vec::new();
        let mut current_distance: Vec<i64> = Vec::new();
        let mut k: usize = 0;
        while k < SPRING_SLOTS
            invariant
                k <= SPRING_SLOTS,
                links@.len() == k,
                rest_distance@.len() == k,
                current_distance@.len() == k,
                forall|j: int| 0 <= j < k ==> links@[j] == 0,
                forall|j: int| 0 <= j < k ==> rest_distance@[j] == 0,
                forall|j: int| 0 <= j < k ==> current_distance@[j] == 0,
            decreases SPRING_SLOTS - k,
        {
            links.push(0);
            rest_distance.push(0);
            current_distance.push(0);
            k = k + 1;
        }
        Spring { links, rest_distance, current_distance }
    }
}

} // verus!
