//! Hit testing between players and hazard lists: which hazards a
//! player standing at a point consumes, and which survive the sweep.
use vstd::prelude::*;

use crate::config::HIT_RADIUS;
use crate::geom::{abs, abs_i64, Vec2i};
use crate::hazards::{all_in_bounds, ObjectPos};

verus! {

/// A hazard within the hit radius of a player on both axes.
pub open spec fn hits(p: Vec2i, h: ObjectPos) -> bool {
    abs(h.pos.x - p.x) < HIT_RADIUS && abs(h.pos.y - p.y) < HIT_RADIUS
}

/// The hazards of a list that a player at `p` does not touch, in order.
pub open spec fn misses(s: Seq<ObjectPos>, p: Vec2i) -> Seq<ObjectPos>
    decreases s.len(),
{
    if s.len() == 0 {
        Seq::empty()
    } else {
        let rest = misses(s.drop_last(), p);
        if hits(p, s.last()) {
            rest
        } else {
            rest.push(s.last())
        }
    }
}

/// The hazards of a list that a player at `p` touches, in order.
pub open spec fn struck(s: Seq<ObjectPos>, p: Vec2i) -> Seq<ObjectPos>
    decreases s.len(),
{
    if s.len() == 0 {
        Seq::empty()
    } else {
        let rest = struck(s.drop_last(), p);
        if hits(p, s.last()) {
            rest.push(s.last())
        } else {
            rest
        }
    }
}

/// Every hazard of a list is either missed or struck, and nothing else.
pub proof fn lemma_misses_struck_partition(s: Seq<ObjectPos>, p: Vec2i)
    ensures
        misses(s, p).len() + struck(s, p).len() == s.len(),
        struck(s, p).len() == 0 ==> misses(s, p) == s,
        struck(s, p).len() == 0 <==> (forall|i: int| 0 <= i < s.len() ==> !hits(p, #[trigger] s[i])),
    decreases s.len(),
{
    if s.len() == 0 {
        assert(misses(s, p) =~= s);
    } else {
        lemma_misses_struck_partition(s.drop_last(), p);
        if struck(s, p).len() == 0 {
            assert(!hits(p, s.last()));
            assert(misses(s, p) =~= s);
        }
        if forall|i: int| 0 <= i < s.len() ==> !hits(p, #[trigger] s[i]) {
            assert(forall|i: int| 0 <= i < s.drop_last().len() ==> !hits(
                p,
                #[trigger] s.drop_last()[i],
            ));
            assert(!hits(p, s.last()));
        }
    }
}

/// Remove from `list` every hazard within the hit radius of `p`,
/// returning the removed hazards in their list order.
pub fn split_hits(list: &mut Vec<ObjectPos>, p: Vec2i) -> (removed: Vec<ObjectPos>)
    requires
        all_in_bounds(old(list)@),
        p.in_bounds(),
    ensures
        final(list)@ == misses(old(list)@, p),
        removed@ == struck(old(list)@, p),
        all_in_bounds(final(list)@),
{
    let ghost s0 = list@;
    let mut kept: Vec<ObjectPos> = Vec::new();
    let mut removed: Vec<ObjectPos> = Vec::new();
    let mut i: usize = 0;
    while i < list.len()
        invariant
            i <= s0.len(),
            list@ == s0,
            all_in_bounds(s0),
            p.in_bounds(),
            kept@ == misses(s0.take(i as int), p),
            removed@ == struck(s0.take(i as int), p),
            all_in_bounds(kept@),
        decreases s0.len() - i,
    {
        let h = list[i];
        proof {
            assert(h.pos.in_bounds());
        }
        let dx = h.pos.x - p.x;
        let dy = h.pos.y - p.y;
        if abs_i64(dx) < HIT_RADIUS && abs_i64(dy) < HIT_RADIUS {
            removed.push(h);
        } else {
            kept.push(h);
        }
        proof {
            assert(s0.take(i + 1).drop_last() =~= s0.take(i as int));
            assert(s0.take(i + 1).last() == s0[i as int]);
        }
        i = i + 1;
    }
    proof {
        assert(s0.take(s0.len() as int) =~= s0);
    }
    *list = kept;
    removed
}

} // verus!
