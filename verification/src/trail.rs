//! A bounded history of a body's recent positions, oldest first, drawn as a
//! polyline whose opacity fades with age.

use vstd::prelude::*;
use crate::vec2d::Vec2d;

verus! {

/// One drawable piece of a trail: the segment between two consecutive stored
/// positions. Its opacity is the exact fraction `opacity_num / opacity_den`,
/// close to zero on the oldest segment and close to one on the newest.
#[derive(Clone, Copy, Debug, PartialEq, Eq, Structural)]
pub struct TrailSegment {
    pub from: Vec2d,
    pub to: Vec2d,
    pub opacity_num: usize,
    pub opacity_den: usize,
}

/// A bounded FIFO of positions: appending beyond the capacity evicts the
/// oldest entry.
#[derive(Clone, Debug)]
pub struct Trail {
    positions: Vec<Vec2d>,
    max_length: usize,
}

/// What one append does to the stored history.
pub open spec fn push_model(s: Seq<Vec2d>, cap: nat, p: Vec2d) -> Seq<Vec2d>
    recommends
        cap >= 1,
{
    if s.len() < cap {
        s.push(p)
    } else {
        s.subrange(1, s.len() as int).push(p)
    }
}

/// The suffix of at most `cap` most recent entries of `ps`, in order.
pub open spec fn recent(ps: Seq<Vec2d>, cap: nat) -> Seq<Vec2d> {
    if ps.len() <= cap {
        ps
    } else {
        ps.subrange(ps.len() - cap, ps.len() as int)
    }
}

/// The history that a sequence of appends leaves behind, oldest first.
pub open spec fn run_pushes(ps: Seq<Vec2d>, cap: nat) -> Seq<Vec2d>
    decreases ps.len(),
{
    if ps.len() == 0 {
        Seq::<Vec2d>::empty()
    } else {
        push_model(run_pushes(ps.drop_last(), cap), cap, ps.last())
    }
}

/// After any number of appends into an empty trail of capacity `cap`, the
/// stored history is exactly the most recent `min(n, cap)` appended values,
/// in append order.
pub proof fn lemma_trail_history(ps: Seq<Vec2d>, cap: nat)
    requires
        cap >= 1,
    ensures
        run_pushes(ps, cap) == recent(ps, cap),
        run_pushes(ps, cap).len() == if ps.len() <= cap {
            ps.len()
        } else {
            cap
        },
    decreases ps.len(),
{
    if ps.len() == 0 {
        assert(run_pushes(ps, cap) =~= recent(ps, cap));
    } else {
        let prev = ps.drop_last();
        lemma_trail_history(prev, cap);
        if prev.len() < cap {
            assert(run_pushes(ps, cap) =~= recent(ps, cap));
        } else {
            assert(recent(prev, cap).len() == cap);
            assert(run_pushes(ps, cap) =~= recent(ps, cap));
        }
    }
}

impl View for Trail {
    type V = Seq<Vec2d>;

    closed spec fn view(&self) -> Seq<Vec2d> {
        self.positions@
    }
}

impl Trail {
    /// How many positions the trail may hold at once.
    pub closed spec fn capacity(&self) -> nat {
        self.max_length as nat
    }

    /// The stored history never exceeds the (positive) capacity.
    pub open spec fn wf(&self) -> bool {
        self@.len() <= self.capacity() && self.capacity() >= 1
    }

    /// An empty trail with the given capacity.
    pub fn new(max_length: usize) -> (r: Trail)
        requires
            max_length >= 1,
        ensures
            r@ == Seq::<Vec2d>::empty(),
            r.capacity() == max_length,
            r.wf(),
    {
        Trail { positions: Vec::new(), max_length }
    }

    /// Appends `pos`; if the trail is full, the oldest entry leaves.
    pub fn update(&mut self, pos: Vec2d)
        requires
            old(self).wf(),
        ensures
            final(self).wf(),
            final(self).capacity() == old(self).capacity(),
            final(self)@ == push_model(old(self)@, old(self).capacity(), pos),
    {
        self.positions.push(pos);
        if self.positions.len() > self.max_length {
            self.positions.remove(0);
            assert(self@ =~= push_model(old(self)@, old(self).capacity(), pos));
        }
    }

    /// The segments connecting consecutive stored positions, each with its
    /// age-based opacity fraction: the segment ending at the `i`-th stored
    /// position has opacity `i / count`.
    pub fn draw(&self) -> (r: Vec<TrailSegment>)
        ensures
            self@.len() == 0 ==> r@.len() == 0,
            self@.len() >= 1 ==> r@.len() == self@.len() - 1,
            forall|k: int|
                0 <= k < r@.len() ==> {
                    &&& (#[trigger] r@[k]).from == self@[k]
                    &&& r@[k].to == self@[k + 1]
                    &&& r@[k].opacity_num == k + 1
                    &&& r@[k].opacity_den == self@.len()
                },
    {
        let mut segments: Vec<TrailSegment> = Vec::new();
        let count = self.positions.len();
        let mut i: usize = 1;
        while i < count
            invariant
                1 <= i,
                count == self@.len(),
                i <= count || count == 0,
                segments@.len() == if count == 0 {
                    0int
                } else {
                    i - 1
                },
                forall|k: int|
                    0 <= k < segments@.len() ==> {
                        &&& (#[trigger] segments@[k]).from == self@[k]
                        &&& segments@[k].to == self@[k + 1]
                        &&& segments@[k].opacity_num == k + 1
                        &&& segments@[k].opacity_den == count
                    },
            decreases count - i,
        {
            let seg = TrailSegment {
                from: self.positions[i - 1],
                to: self.positions[i],
                opacity_num: i,
                opacity_den: count,
            };
            segments.push(seg);
            i = i + 1;
        }
        segments
    }
}

} // verus!
