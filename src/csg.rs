//! Constructive solid geometry: how the answers of two child shapes combine.
use vstd::prelude::*;

verus! {

/// The set operation that a CSG node applies to its two children A and B.
#[derive(Clone, Copy, Debug, PartialEq, Eq, Structural)]
pub enum Operator {
    Union,
    Intersection,
    Difference,
}

/// Containment of the combined solid, given the containment of each child.
pub open spec fn inside_spec(op: Operator, a_inside: bool, b_inside: bool) -> bool {
    match op {
        Operator::Union => a_inside || b_inside,
        Operator::Intersection => a_inside && b_inside,
        Operator::Difference => a_inside && !b_inside,
    }
}

/// Whether a hit on child A's surface is a hit on the combined solid, given
/// whether that point lies inside B.
pub open spec fn keeps_a_hit_spec(op: Operator, b_inside: bool) -> bool {
    match op {
        Operator::Union => !b_inside,
        Operator::Intersection => b_inside,
        Operator::Difference => !b_inside,
    }
}

/// Whether a hit on child B's surface is a hit on the combined solid, given
/// whether that point lies inside A. For a difference the kept B hits form
/// the back wall of the carved-out region.
pub open spec fn keeps_b_hit_spec(op: Operator, a_inside: bool) -> bool {
    match op {
        Operator::Union => !a_inside,
        Operator::Intersection => a_inside,
        Operator::Difference => a_inside,
    }
}

/// Surface membership of the combined solid.
pub open spec fn on_surface_spec(
    op: Operator,
    a_on: bool,
    a_inside: bool,
    b_on: bool,
    b_inside: bool,
) -> bool {
    (a_on && keeps_a_hit_spec(op, b_inside)) || (b_on && keeps_b_hit_spec(op, a_inside))
}

/// Which child answers a normal or UV query at a point.
#[derive(Clone, Copy, Debug, PartialEq, Eq, Structural)]
pub enum SurfaceSource {
    /// The point is on A's surface.
    A,
    /// The point is on B's surface and not on A's.
    B,
    /// Neither child claims the point: the caller uses its fallback value.
    Neither,
}

impl Operator {
    /// Whether a point is inside the combined solid.
    pub fn is_inside(self, a_inside: bool, b_inside: bool) -> (r: bool)
        ensures
            r == inside_spec(self, a_inside, b_inside),
    {
        match self {
            Operator::Union => a_inside || b_inside,
            Operator::Intersection => a_inside && b_inside,
            Operator::Difference => a_inside && !b_inside,
        }
    }

    /// Whether a hit on A's surface is kept.
    pub fn keeps_a_hit(self, b_inside: bool) -> (r: bool)
        ensures
            r == keeps_a_hit_spec(self, b_inside),
    {
        match self {
            Operator::Union => !b_inside,
            Operator::Intersection => b_inside,
            Operator::Difference => !b_inside,
        }
    }

    /// Whether a hit on B's surface is kept.
    pub fn keeps_b_hit(self, a_inside: bool) -> (r: bool)
        ensures
            r == keeps_b_hit_spec(self, a_inside),
    {
        match self {
            Operator::Union => !a_inside,
            Operator::Intersection => a_inside,
            Operator::Difference => a_inside,
        }
    }

    /// Whether a point is on the surface of the combined solid.
    pub fn is_on_surface(self, a_on: bool, a_inside: bool, b_on: bool, b_inside: bool) -> (r:
        bool)
        ensures
            r == on_surface_spec(self, a_on, a_inside, b_on, b_inside),
    {
        (a_on && self.keeps_a_hit(b_inside)) || (b_on && self.keeps_b_hit(a_inside))
    }

    /// Of the candidate hits of one child, the positions of those kept.
    /// `other_inside[i]` tells whether the point of hit `i` lies inside the
    /// other child; `from_a` tells which child the hits belong to.
    pub fn kept_hits(self, from_a: bool, other_inside: &Vec<bool>) -> (r: Vec<usize>)
        ensures
            forall|j: int|
                0 <= j < r@.len() ==> 0 <= r@[j] < other_inside@.len() && keeps_hit(
                    self,
                    from_a,
                    other_inside@[r@[j] as int],
                ),
            forall|j: int, k: int| 0 <= j < k < r@.len() ==> r@[j] < r@[k],
            forall|i: int|
                0 <= i < other_inside@.len() && keeps_hit(self, from_a, other_inside@[i])
                    ==> r@.contains(i as usize),
    {
        let mut r: Vec<usize> = Vec::new();
        let mut i: usize = 0;
        while i < other_inside.len()
            invariant
                i <= other_inside@.len(),
                forall|j: int|
                    0 <= j < r@.len() ==> 0 <= r@[j] < i && keeps_hit(
                        self,
                        from_a,
                        other_inside@[r@[j] as int],
                    ),
                forall|j: int, k: int| 0 <= j < k < r@.len() ==> r@[j] < r@[k],
                forall|m: int|
                    0 <= m < i && keeps_hit(self, from_a, other_inside@[m]) ==> r@.contains(
                        m as usize,
                    ),
            decreases other_inside@.len() - i,
        {
            let keep = if from_a {
                self.keeps_a_hit(other_inside[i])
            } else {
                self.keeps_b_hit(other_inside[i])
            };
            let ghost old_r = r@;
            if keep {
                r.push(i);
                proof {
                    assert(r@[old_r.len() as int] == i);
                    assert forall|m: int|
                        0 <= m < i && keeps_hit(self, from_a, other_inside@[m]) implies r@.contains(
                            m as usize,
                        ) by {
                        let w = choose|w: int| 0 <= w < old_r.len() && old_r[w] == m as usize;
                        assert(r@[w] == m as usize);
                    }
                }
            }
            i = i + 1;
        }
        r
    }

    /// Which child's surface answers a normal or UV query at a point: A when
    /// the point is on A's surface, else B when it is on B's.
    pub fn surface_source(self, a_on: bool, b_on: bool) -> (r: SurfaceSource)
        ensures
            r == (if a_on {
                SurfaceSource::A
            } else if b_on {
                SurfaceSource::B
            } else {
                SurfaceSource::Neither
            }),
    {
        if a_on {
            SurfaceSource::A
        } else if b_on {
            SurfaceSource::B
        } else {
            SurfaceSource::Neither
        }
    }
}

/// Whether a hit of one child is kept, given the containment in the other.
pub open spec fn keeps_hit(op: Operator, from_a: bool, other_inside: bool) -> bool {
    if from_a {
        keeps_a_hit_spec(op, other_inside)
    } else {
        keeps_b_hit_spec(op, other_inside)
    }
}

/// Containment in a union is containment in either child, in an intersection
/// containment in both, and in a difference containment in A but not in B.
pub proof fn lemma_csg_inside_truth_table(a_inside: bool, b_inside: bool)
    ensures
        inside_spec(Operator::Union, a_inside, b_inside) == (a_inside || b_inside),
        inside_spec(Operator::Intersection, a_inside, b_inside) == (a_inside && b_inside),
        inside_spec(Operator::Difference, a_inside, b_inside) == (a_inside && !b_inside),
{
}

} // verus!
