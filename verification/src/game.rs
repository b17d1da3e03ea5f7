//! Integer 2D coordinates and the four movement directions.
use vstd::prelude::*;

verus! {

/// An integer 2D coordinate on the playing field.
#[derive(Clone, Copy, Debug, PartialEq, Eq, Structural)]
pub struct Point {
    pub x: i32,
    pub y: i32,
}

/// Magnitude of a coordinate in specifications.
pub open spec fn abs_val(v: int) -> int {
    if v < 0 {
        -v
    } else {
        v
    }
}

impl Point {
    /// Component-wise absolute value, used for displacement magnitudes.
    pub fn abs(&self) -> (r: Self)
        requires
            self.x > i32::MIN,
            self.y > i32::MIN,
        ensures
            r.x == abs_val(self.x as int),
            r.y == abs_val(self.y as int),
    {
        Self { x: if self.x < 0 {
            -self.x
        } else {
            self.x
        }, y: if self.y < 0 {
            -self.y
        } else {
            self.y
        } }
    }

    /// Component-wise sum.
    pub fn add(self, dir: Self) -> (r: Self)
        requires
            i32::MIN <= self.x + dir.x <= i32::MAX,
            i32::MIN <= self.y + dir.y <= i32::MAX,
        ensures
            r.x == self.x + dir.x,
            r.y == self.y + dir.y,
    {
        Self { x: self.x + dir.x, y: self.y + dir.y }
    }

    /// Component-wise difference.
    pub fn sub(self, dir: Self) -> (r: Self)
        requires
            i32::MIN <= self.x - dir.x <= i32::MAX,
            i32::MIN <= self.y - dir.y <= i32::MAX,
        ensures
            r.x == self.x - dir.x,
            r.y == self.y - dir.y,
    {
        Self { x: self.x - dir.x, y: self.y - dir.y }
    }
}

/// One of the four headings an agent can take.
#[derive(Clone, Copy, Debug, PartialEq, Eq, Structural)]
pub enum Direction {
    Up,
    Down,
    Left,
    Right,
}

/// Index of the first maximum among the first `n` elements of `s`:
/// on ties, the lowest index wins.
pub open spec fn argmax_upto(s: Seq<i64>, n: int) -> int
    decreases n,
{
    if n <= 1 {
        0
    } else {
        let p = argmax_upto(s, n - 1);
        if s[n - 1] > s[p] {
            n - 1
        } else {
            p
        }
    }
}

/// The first maximum is at least every element, and strictly above every
/// earlier element: the lowest index wins on ties.
pub proof fn lemma_argmax_first(s: Seq<i64>, n: int)
    requires
        1 <= n <= s.len(),
    ensures
        0 <= argmax_upto(s, n) < n,
        forall|i: int| 0 <= i < n ==> #[trigger] s[i] <= s[argmax_upto(s, n)],
        forall|i: int| 0 <= i < argmax_upto(s, n) ==> #[trigger] s[i] < s[argmax_upto(s, n)],
    decreases n,
{
    if n > 1 {
        lemma_argmax_first(s, n - 1);
    }
}

impl Direction {
    /// The direction selected by an output activation index.
    pub open spec fn of_index(i: int) -> Direction {
        if i == 1 {
            Direction::Down
        } else if i == 2 {
            Direction::Left
        } else if i == 3 {
            Direction::Right
        } else {
            Direction::Up
        }
    }

    /// The direction a network output vector selects: the first-encountered
    /// maximum of the four activations.
    pub open spec fn from_network_spec(s: Seq<i64>) -> Direction {
        Direction::of_index(argmax_upto(s, 4))
    }

    /// Converts a network's output activations to the chosen direction by
    /// argmax; on ties the lowest index wins.
    pub fn from_network(network_output: Vec<i64>) -> (r: Direction)
        requires
            network_output.len() == 4,
        ensures
            r == Direction::from_network_spec(network_output@),
    {
        let mut best: usize = 0;
        for i in 1..4usize
            invariant
                network_output.len() == 4,
                0 <= best < i,
                best == argmax_upto(network_output@, i as int),
        {
            if network_output[i] > network_output[best] {
                best = i;
            }
        }
        if best == 0 {
            Direction::Up
        } else if best == 1 {
            Direction::Down
        } else if best == 2 {
            Direction::Left
        } else {
            Direction::Right
        }
    }

    pub open spec fn opposite_spec(self) -> Direction {
        match self {
            Direction::Up => Direction::Down,
            Direction::Down => Direction::Up,
            Direction::Left => Direction::Right,
            Direction::Right => Direction::Left,
        }
    }

    /// The heading that points the other way.
    pub fn opposite(&self) -> (r: Direction)
        ensures
            r == self.opposite_spec(),
    {
        match self {
            Direction::Up => Direction::Down,
            Direction::Down => Direction::Up,
            Direction::Left => Direction::Right,
            Direction::Right => Direction::Left,
        }
    }

    pub open spec fn to_point_spec(self) -> Point {
        match self {
            Direction::Up => Point { x: 0, y: -1i32 },
            Direction::Down => Point { x: 0, y: 1 },
            Direction::Left => Point { x: -1i32, y: 0 },
            Direction::Right => Point { x: 1, y: 0 },
        }
    }

    /// The unit displacement of one step along this heading.
    pub fn to_point(&self) -> (r: Point)
        ensures
            r == self.to_point_spec(),
    {
        match self {
            Direction::Up => Point { x: 0, y: -1i32 },
            Direction::Down => Point { x: 0, y: 1 },
            Direction::Left => Point { x: -1i32, y: 0 },
            Direction::Right => Point { x: 1, y: 0 },
        }
    }
}

} // verus!
