//! The agent's body: an ordered sequence of positions, head first, and its
//! current heading.
use vstd::prelude::*;

use crate::game::{Direction, Point};

verus! {

/// The agent's body, head first, with its current heading as a unit
/// displacement (or the zero displacement before the first step).
#[derive(Clone, Debug, PartialEq)]
pub struct Snake {
    pub points: Vec<Point>,
    pub dir: Point,
}

/// The heading after a step that requests `req`: a request for the exact
/// opposite of the current heading is ignored and the heading is kept.
pub open spec fn step_dir_spec(cur: Point, req: Direction) -> Point {
    if req.opposite_spec().to_point_spec() == cur {
        cur
    } else {
        req.to_point_spec()
    }
}

/// If the current heading is some direction and the requested direction is
/// its exact opposite, the heading after the step is unchanged.
pub proof fn lemma_reversal_guard(cur: Direction, req: Direction)
    requires
        req == cur.opposite_spec(),
    ensures
        step_dir_spec(cur.to_point_spec(), req) == cur.to_point_spec(),
{
}

impl Snake {
    pub fn new(points: Vec<Point>, dir: Point) -> (r: Self)
        ensures
            r.points == points,
            r.dir == dir,
    {
        Self { points, dir }
    }

    /// Advances the body one cell: the heading turns to `new_dir` unless that
    /// is the exact opposite of the current heading, the head moves one cell
    /// along the heading, every other segment takes its predecessor's former
    /// position, and the former tail position is returned so that the caller
    /// can re-append it on growth.
    pub fn step(&mut self, new_dir: Direction) -> (r: Point)
        requires
            old(self).points.len() >= 1,
            i32::MIN <= old(self).points[0].x + step_dir_spec(old(self).dir, new_dir).x
                <= i32::MAX,
            i32::MIN <= old(self).points[0].y + step_dir_spec(old(self).dir, new_dir).y
                <= i32::MAX,
        ensures
            final(self).dir == step_dir_spec(old(self).dir, new_dir),
            final(self).points.len() == old(self).points.len(),
            final(self).points[0].x == old(self).points[0].x + final(self).dir.x,
            final(self).points[0].y == old(self).points[0].y + final(self).dir.y,
            forall|i: int|
                1 <= i < old(self).points.len() ==> final(self).points[i] == old(self).points[i
                    - 1],
            r == old(self).points[old(self).points.len() - 1],
    {
        if new_dir.opposite().to_point() != self.dir {
            self.dir = new_dir.to_point();
        }
        let new_head_point = self.points[0].add(self.dir);
        let prev_tail_point = self.points[self.points.len() - 1];
        let mut new_points: Vec<Point> = Vec::new();
        new_points.push(new_head_point);
        let n = self.points.len();
        let m = n - 1;
        for i in 0..m
            invariant
                m == n - 1,
                n == self.points.len(),
                new_points.len() == i + 1,
                new_points[0] == new_head_point,
                forall|j: int| 1 <= j <= i ==> new_points[j] == self.points[j - 1],
        {
            new_points.push(self.points[i]);
        }
        self.points = new_points;
        prev_tail_point
    }
}

} // verus!
