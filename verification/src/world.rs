//! One simulated agent: its body, its goal, its liveness, its counters, its
//! genome and its fitness, together with the sensor encoder that turns the
//! state into the network's input signals and the step function that advances
//! the simulation.
use vstd::prelude::*;

use crate::game::{Direction, Point};
use crate::perceptron::{out_seq, shape_from, Network};
use crate::snake::{step_dir_spec, Snake};
use crate::{INF_SIGNAL, INPUT_LEN, MAX_DIM, OUTPUT_LEN, SCALE};

verus! {

/// The goal the agent is chasing.
#[derive(Clone, Copy, Debug, PartialEq, Eq, Structural)]
pub struct Apple {
    pub position: Point,
}

/// One agent's run-state: alive until a collision, stepped once per tick.
#[derive(Clone, Debug, PartialEq)]
pub struct World {
    pub alive: bool,
    pub last_apple_time: usize,
    pub life_time: usize,
    pub score: usize,
    pub snake: Snake,
    pub apple: Apple,
    pub width: i32,
    pub height: i32,
    pub network: Network,
    pub fitness_score: usize,
}

/// The point lies on the playing field.
pub open spec fn in_bounds(p: Point, w: int, h: int) -> bool {
    0 <= p.x < w && 0 <= p.y < h
}

/// The point lies strictly inside the lethal border.
pub open spec fn interior(p: Point, w: int, h: int) -> bool {
    1 <= p.x < w - 1 && 1 <= p.y < h - 1
}

/// The reciprocal encoding of a distance: far maps toward 0, adjacent maps
/// to SCALE, and a zero distance (nothing found in that direction) maps to
/// the INF_SIGNAL sentinel.
pub open spec fn recip_spec(d: int) -> i64 {
    if d <= 0 {
        INF_SIGNAL
    } else {
        ((SCALE as int) / d) as i64
    }
}

pub open spec fn min2(a: int, b: int) -> int {
    if a < b {
        a
    } else {
        b
    }
}

/// The eight wall features: reciprocal distances to the four walls, then to
/// the four diagonals, a diagonal being the minimum of its two axis
/// distances.
pub open spec fn wall_dists_spec(head: Point, w: int, h: int) -> Seq<i64> {
    let right = w - head.x - 1;
    let up = head.y as int;
    let left = head.x as int;
    let down = h - head.y - 1;
    seq![
        recip_spec(right),
        recip_spec(up),
        recip_spec(left),
        recip_spec(down),
        recip_spec(min2(right, up)),
        recip_spec(min2(left, up)),
        recip_spec(min2(left, down)),
        recip_spec(min2(right, down)),
    ]
}

/// The distance from the head to a body segment along direction `k`, or 0
/// when the segment does not lie in that direction. The axes are 0 right,
/// 1 up, 2 left, 3 down (y grows downward). The four diagonals are indexed
/// by the sign pattern of the offset `head - p`: k = 4 matches a segment
/// left of and below the head (dx > 0, dy < 0), k = 5 one right of and
/// below (dx < 0, dy < 0), k = 6 one right of and above (dx < 0, dy > 0),
/// and k = 7 one left of and above (dx > 0, dy > 0).
pub open spec fn body_cand(head: Point, p: Point, k: int) -> int {
    let dx = head.x - p.x;
    let dy = head.y - p.y;
    if k == 0 {
        if dy == 0 && dx < 0 {
            -dx
        } else {
            0
        }
    } else if k == 1 {
        if dx == 0 && dy > 0 {
            dy
        } else {
            0
        }
    } else if k == 2 {
        if dy == 0 && dx > 0 {
            dx
        } else {
            0
        }
    } else if k == 3 {
        if dx == 0 && dy < 0 {
            -dy
        } else {
            0
        }
    } else if k == 4 {
        if dx > 0 && dy < 0 && dx == -dy {
            dx
        } else {
            0
        }
    } else if k == 5 {
        if dx < 0 && dy < 0 && dx == dy {
            -dx
        } else {
            0
        }
    } else if k == 6 {
        if dx < 0 && dy > 0 && -dx == dy {
            dy
        } else {
            0
        }
    } else {
        if dx > 0 && dy > 0 && dx == dy {
            dy
        } else {
            0
        }
    }
}

/// Folds a new candidate distance into the running minimum, where 0 stands
/// for "none found yet".
pub open spec fn fold_min(prev: int, c: int) -> int {
    if c == 0 {
        prev
    } else if prev == 0 {
        c
    } else if c < prev {
        c
    } else {
        prev
    }
}

/// The distance to the nearest body segment among indices 1..n in direction
/// `k`, or 0 when none lies in that direction.
pub open spec fn min_cand(points: Seq<Point>, k: int, n: int) -> int
    decreases n,
{
    if n <= 1 {
        0
    } else {
        fold_min(min_cand(points, k, n - 1), body_cand(points[0], points[n - 1], k))
    }
}

/// The eight body features: reciprocal distances to the nearest body segment
/// along each of the eight directions.
pub open spec fn body_dists_spec(points: Seq<Point>) -> Seq<i64> {
    Seq::new(8, |k: int| recip_spec(min_cand(points, k, points.len() as int)))
}

/// The nine goal features: reciprocal axis distances to the goal, four
/// binary quadrant flags from the sign of the goal's offset, and the raw
/// (signed) sum of the two offset components as one combined signal.
pub open spec fn apple_dists_spec(head: Point, apple: Point) -> Seq<i64> {
    let avx = head.x - apple.x;
    let avy = head.y - apple.y;
    seq![
        recip_spec(
            if apple.y == head.y && apple.x > head.x {
                apple.x - head.x
            } else {
                0
            },
        ),
        recip_spec(
            if apple.x == head.x && apple.y < head.y {
                head.y - apple.y
            } else {
                0
            },
        ),
        recip_spec(
            if apple.y == head.y && apple.x < head.x {
                head.x - apple.x
            } else {
                0
            },
        ),
        recip_spec(
            if apple.x == head.x && apple.y > head.y {
                apple.y - head.y
            } else {
                0
            },
        ),
        if avx > 0 {
            SCALE
        } else {
            0
        },
        if avy < 0 {
            SCALE
        } else {
            0
        },
        if avx < 0 {
            SCALE
        } else {
            0
        },
        if avy > 0 {
            SCALE
        } else {
            0
        },
        ((avx + avy) * SCALE) as i64,
    ]
}

/// The full input vector the encoder hands to the network: wall features,
/// body features, goal features, then the current heading's two components.
pub open spec fn inputs_spec(w: World) -> Seq<i64> {
    wall_dists_spec(w.snake.points[0], w.width as int, w.height as int) + body_dists_spec(
        w.snake.points@,
    ) + apple_dists_spec(w.snake.points[0], w.apple.position) + seq![
        ((w.snake.dir.x as int) * SCALE) as i64,
        ((w.snake.dir.y as int) * SCALE) as i64,
    ]
}

/// The head collides: it equals another body segment, or it stands on the
/// lethal border cell itself.
pub open spec fn collision_spec(points: Seq<Point>, w: int, h: int) -> bool {
    ||| exists|i: int| 1 <= i < points.len() && #[trigger] points[i] == points[0]
    ||| points[0].x == 0
    ||| points[0].y == 0
    ||| points[0].x == w - 1
    ||| points[0].y == h - 1
}

/// Reciprocal encoding of a distance; negative inputs never arise but take
/// the sentinel branch like zero.
fn recip_enc(d: i32) -> (r: i64)
    ensures
        r == recip_spec(d as int),
        0 <= r <= INF_SIGNAL,
{
    if d <= 0 {
        INF_SIGNAL
    } else {
        let q: u64 = (SCALE as u64) / (d as u64);
        proof {
            assert((SCALE as int) / (d as int) <= SCALE as int) by (nonlinear_arith)
                requires
                    d >= 1,
            ;
            assert((SCALE as int) / (d as int) >= 0) by (nonlinear_arith)
                requires
                    d >= 1,
            ;
        }
        q as i64
    }
}

/// Folds a new candidate distance into the running minimum.
fn fold_min_enc(prev: i32, c: i32) -> (r: i32)
    ensures
        r == fold_min(prev as int, c as int),
{
    if c == 0 {
        prev
    } else if prev == 0 {
        c
    } else if c < prev {
        c
    } else {
        prev
    }
}

/// The candidate distance from `head` to `p` along direction `k`.
fn body_cand_enc(head: Point, p: Point, k: usize) -> (r: i32)
    requires
        k < 8,
        0 <= head.x <= MAX_DIM,
        0 <= head.y <= MAX_DIM,
        0 <= p.x <= MAX_DIM,
        0 <= p.y <= MAX_DIM,
    ensures
        r == body_cand(head, p, k as int),
        0 <= r <= MAX_DIM,
{
    let dx = head.x - p.x;
    let dy = head.y - p.y;
    if k == 0 {
        if dy == 0 && dx < 0 {
            -dx
        } else {
            0
        }
    } else if k == 1 {
        if dx == 0 && dy > 0 {
            dy
        } else {
            0
        }
    } else if k == 2 {
        if dy == 0 && dx > 0 {
            dx
        } else {
            0
        }
    } else if k == 3 {
        if dx == 0 && dy < 0 {
            -dy
        } else {
            0
        }
    } else if k == 4 {
        if dx > 0 && dy < 0 && dx == -dy {
            dx
        } else {
            0
        }
    } else if k == 5 {
        if dx < 0 && dy < 0 && dx == dy {
            -dx
        } else {
            0
        }
    } else if k == 6 {
        if dx < 0 && dy > 0 && -dx == dy {
            dy
        } else {
            0
        }
    } else {
        if dx > 0 && dy > 0 && dx == dy {
            dy
        } else {
            0
        }
    }
}

impl World {
    /// The geometric part of well-formedness: bounded field, the body on the
    /// field, a unit (or zero) heading, the goal inside the border.
    pub open spec fn geom_wf(self) -> bool {
        &&& 3 <= self.width <= MAX_DIM
        &&& 3 <= self.height <= MAX_DIM
        &&& self.snake.points.len() >= 1
        &&& forall|i: int|
            0 <= i < self.snake.points.len() ==> in_bounds(
                #[trigger] self.snake.points[i],
                self.width as int,
                self.height as int,
            )
        &&& -1 <= self.snake.dir.x <= 1
        &&& -1 <= self.snake.dir.y <= 1
        &&& interior(self.apple.position, self.width as int, self.height as int)
    }

    /// Full well-formedness: the geometry, a head inside the border while
    /// alive, a score below the body length, and a genome whose layer chain
    /// accepts the encoder's input vector and ends in one neuron per
    /// direction.
    pub open spec fn wf(self) -> bool {
        &&& self.geom_wf()
        &&& self.alive ==> interior(self.snake.points[0], self.width as int, self.height as int)
        &&& self.score < self.snake.points.len()
        &&& self.network.wf()
        &&& shape_from(self.network.layers@, INPUT_LEN as nat)
        &&& self.network.layers.len() >= 1
        &&& self.network.layers[self.network.layers.len() - 1].neurons.len() == OUTPUT_LEN
    }

    /// The direction the genome chooses on the current state.
    pub open spec fn chosen_dir_spec(self) -> Direction {
        Direction::from_network_spec(out_seq(self.network.layers@, inputs_spec(self)))
    }

    /// The heading after this step: the chosen direction unless it is the
    /// exact opposite of the current heading.
    pub open spec fn moved_dir(self) -> Point {
        step_dir_spec(self.snake.dir, self.chosen_dir_spec())
    }

    /// Where the head lands this step.
    pub open spec fn new_head_spec(self) -> Point {
        Point {
            x: (self.snake.points[0].x + self.moved_dir().x) as i32,
            y: (self.snake.points[0].y + self.moved_dir().y) as i32,
        }
    }

    /// The body after the shift: the new head, then every segment in its
    /// predecessor's former position.
    pub open spec fn shifted_points(self) -> Seq<Point> {
        seq![self.new_head_spec()] + self.snake.points@.take(self.snake.points.len() - 1)
    }

    /// The head lands on the goal this step.
    pub open spec fn ate_spec(self) -> bool {
        self.new_head_spec() == self.apple.position
    }

    /// A fresh run-state: a one-segment body at the field's center, a zero
    /// heading, counters at zero, and the goal at a random interior cell.
    pub fn new(width: i32, height: i32, network: Network) -> (r: World)
        requires
            3 <= width <= MAX_DIM,
            3 <= height <= MAX_DIM,
            network.wf(),
            shape_from(network.layers@, INPUT_LEN as nat),
            network.layers.len() >= 1,
            network.layers[network.layers.len() - 1].neurons.len() == OUTPUT_LEN,
        ensures
            r.wf(),
            r.alive,
            r.last_apple_time == 0,
            r.life_time == 0,
            r.score == 0,
            r.fitness_score == 0,
            r.width == width,
            r.height == height,
            r.network == network,
            r.snake.points.len() == 1,
            r.snake.points[0].x == width as int / 2,
            r.snake.points[0].y == height as int / 2,
            r.snake.dir == (Point { x: 0, y: 0 }),
            interior(r.apple.position, width as int, height as int),
    {
        let apple = Apple { position: Point { x: 3, y: 3 } };
        let hx: i32 = ((width as u32) / 2) as i32;
        let hy: i32 = ((height as u32) / 2) as i32;
        proof {
            assert(1 <= width as int / 2 <= width - 2) by (nonlinear_arith)
                requires
                    3 <= width,
            ;
            assert(1 <= height as int / 2 <= height - 2) by (nonlinear_arith)
                requires
                    3 <= height,
            ;
        }
        let mut points: Vec<Point> = Vec::new();
        points.push(Point { x: hx, y: hy });
        let snake = Snake::new(points, Point { x: 0, y: 0 });
        let mut world = World {
            alive: true,
            last_apple_time: 0,
            life_time: 0,
            score: 0,
            snake,
            apple,
            width,
            height,
            network,
            fitness_score: 0,
        };
        world.apple_random_pos();
        world
    }

    /// Relocates the goal uniformly at random within the interior. The new
    /// cell may coincide with the agent's body: occupancy is not checked.
    fn apple_random_pos(&mut self)
        requires
            3 <= old(self).width <= MAX_DIM,
            3 <= old(self).height <= MAX_DIM,
        ensures
            interior(final(self).apple.position, old(self).width as int, old(self).height as int),
            (*final(self) == World { apple: final(self).apple, ..*old(self) }),
    {
        let new_x = crate::rng::rand_coord(1, self.width - 1);
        let new_y = crate::rng::rand_coord(1, self.height - 1);
        self.apple.position = Point { x: new_x, y: new_y };
    }

    /// The eight wall features of the current state.
    fn get_wall_dist(&self) -> (r: Vec<i64>)
        requires
            self.geom_wf(),
        ensures
            r@ == wall_dists_spec(self.snake.points[0], self.width as int, self.height as int),
            r.len() == 8,
            forall|i: int| 0 <= i < r.len() ==> 0 <= #[trigger] r[i] <= INF_SIGNAL,
    {
        proof {
            assert(in_bounds(self.snake.points[0], self.width as int, self.height as int));
        }
        let head = self.snake.points[0];
        let right: i32 = self.width - head.x - 1;
        let up: i32 = head.y;
        let left: i32 = head.x;
        let down: i32 = self.height - head.y - 1;
        let mut distances: Vec<i64> = Vec::new();
        distances.push(recip_enc(right));
        distances.push(recip_enc(up));
        distances.push(recip_enc(left));
        distances.push(recip_enc(down));
        let right_up = if right < up {
            right
        } else {
            up
        };
        let left_up = if left < up {
            left
        } else {
            up
        };
        let left_down = if left < down {
            left
        } else {
            down
        };
        let right_down = if right < down {
            right
        } else {
            down
        };
        distances.push(recip_enc(right_up));
        distances.push(recip_enc(left_up));
        distances.push(recip_enc(left_down));
        distances.push(recip_enc(right_down));
        proof {
            assert(distances@ =~= wall_dists_spec(
                self.snake.points[0],
                self.width as int,
                self.height as int,
            ));
        }
        distances
    }

    /// The eight body features of the current state.
    fn get_body_dist(&self) -> (r: Vec<i64>)
        requires
            self.geom_wf(),
        ensures
            r@ == body_dists_spec(self.snake.points@),
            r.len() == 8,
            forall|i: int| 0 <= i < r.len() ==> 0 <= #[trigger] r[i] <= INF_SIGNAL,
    {
        let head = self.snake.points[0];
        let mut right: i32 = 0;
        let mut up: i32 = 0;
        let mut left: i32 = 0;
        let mut down: i32 = 0;
        let mut right_up: i32 = 0;
        let mut left_up: i32 = 0;
        let mut left_down: i32 = 0;
        let mut right_down: i32 = 0;
        let n = self.snake.points.len();
        for i in 1..n
            invariant
                self.geom_wf(),
                n == self.snake.points.len(),
                n >= 1,
                head == self.snake.points[0],
                right == min_cand(self.snake.points@, 0, i as int),
                up == min_cand(self.snake.points@, 1, i as int),
                left == min_cand(self.snake.points@, 2, i as int),
                down == min_cand(self.snake.points@, 3, i as int),
                right_up == min_cand(self.snake.points@, 4, i as int),
                left_up == min_cand(self.snake.points@, 5, i as int),
                left_down == min_cand(self.snake.points@, 6, i as int),
                right_down == min_cand(self.snake.points@, 7, i as int),
        {
            proof {
                assert(in_bounds(
                    self.snake.points[i as int],
                    self.width as int,
                    self.height as int,
                ));
            }
            let p = self.snake.points[i];
            right = fold_min_enc(right, body_cand_enc(head, p, 0));
            up = fold_min_enc(up, body_cand_enc(head, p, 1));
            left = fold_min_enc(left, body_cand_enc(head, p, 2));
            down = fold_min_enc(down, body_cand_enc(head, p, 3));
            right_up = fold_min_enc(right_up, body_cand_enc(head, p, 4));
            left_up = fold_min_enc(left_up, body_cand_enc(head, p, 5));
            left_down = fold_min_enc(left_down, body_cand_enc(head, p, 6));
            right_down = fold_min_enc(right_down, body_cand_enc(head, p, 7));
        }
        let mut distances: Vec<i64> = Vec::new();
        distances.push(recip_enc(right));
        distances.push(recip_enc(up));
        distances.push(recip_enc(left));
        distances.push(recip_enc(down));
        distances.push(recip_enc(right_up));
        distances.push(recip_enc(left_up));
        distances.push(recip_enc(left_down));
        distances.push(recip_enc(right_down));
        proof {
            assert(distances@ =~= body_dists_spec(self.snake.points@));
        }
        distances
    }

    /// The nine goal features of the current state.
    fn get_apple_dist(&self) -> (r: Vec<i64>)
        requires
            self.geom_wf(),
        ensures
            r@ == apple_dists_spec(self.snake.points[0], self.apple.position),
            r.len() == 9,
            forall|i: int| 0 <= i < r.len() ==> -INF_SIGNAL <= #[trigger] r[i] <= INF_SIGNAL,
    {
        proof {
            assert(in_bounds(self.snake.points[0], self.width as int, self.height as int));
        }
        let head = self.snake.points[0];
        let apple = self.apple.position;
        let mut right: i32 = 0;
        let mut up: i32 = 0;
        let mut left: i32 = 0;
        let mut down: i32 = 0;
        if apple.y == head.y {
            if apple.x > head.x {
                right = apple.x - head.x;
            }
            if apple.x < head.x {
                left = head.x - apple.x;
            }
        }
        if apple.x == head.x {
            if apple.y > head.y {
                down = apple.y - head.y;
            }
            if apple.y < head.y {
                up = head.y - apple.y;
            }
        }
        let avx = head.x - apple.x;
        let avy = head.y - apple.y;
        let mut distances: Vec<i64> = Vec::new();
        distances.push(recip_enc(right));
        distances.push(recip_enc(up));
        distances.push(recip_enc(left));
        distances.push(recip_enc(down));
        distances.push(if avx > 0 {
            SCALE
        } else {
            0
        });
        distances.push(if avy < 0 {
            SCALE
        } else {
            0
        });
        distances.push(if avx < 0 {
            SCALE
        } else {
            0
        });
        distances.push(if avy > 0 {
            SCALE
        } else {
            0
        });
        distances.push(((avx + avy) as i64) * SCALE);
        proof {
            assert(distances@ =~= apple_dists_spec(self.snake.points[0], self.apple.position));
        }
        distances
    }

    /// The sensor encoder: the full input vector for the genome, a pure
    /// function of the current state.
    pub fn get_inputs(&self) -> (r: Vec<i64>)
        requires
            self.geom_wf(),
        ensures
            r@ == inputs_spec(*self),
            r.len() == INPUT_LEN,
            forall|i: int| 0 <= i < r.len() ==> -INF_SIGNAL <= #[trigger] r[i] <= INF_SIGNAL,
    {
        let mut inputs = self.get_wall_dist();
        let mut body = self.get_body_dist();
        inputs.append(&mut body);
        let mut apple = self.get_apple_dist();
        inputs.append(&mut apple);
        inputs.push((self.snake.dir.x as i64) * SCALE);
        inputs.push((self.snake.dir.y as i64) * SCALE);
        proof {
            assert(inputs@ =~= inputs_spec(*self));
        }
        inputs
    }

    /// The collision test: the head equals another body segment, or it
    /// stands on the border cell itself.
    pub fn check_snake_collision(&self) -> (r: bool)
        requires
            self.snake.points.len() >= 1,
            self.width > i32::MIN,
            self.height > i32::MIN,
        ensures
            r == collision_spec(self.snake.points@, self.width as int, self.height as int),
    {
        let mut collision = false;
        let head = self.snake.points[0];
        let n = self.snake.points.len();
        for i in 1..n
            invariant
                n == self.snake.points.len(),
                n >= 1,
                head == self.snake.points[0],
                collision <==> (exists|j: int|
                    1 <= j < i && #[trigger] self.snake.points[j] == self.snake.points[0]),
        {
            if head == self.snake.points[i] {
                collision = true;
            }
        }
        if head.x == 0 || head.y == 0 || head.x == self.width - 1 || head.y == self.height - 1 {
            collision = true;
        }
        collision
    }

    /// One simulation step while alive: the counters advance, the encoder
    /// and the genome choose a direction, the body moves (growing and
    /// relocating the goal when the head lands on it), and a collision makes
    /// the state Dead. A dead state is returned unchanged.
    pub fn tick(self) -> (r: World)
        requires
            self.wf(),
            self.life_time < usize::MAX,
            self.last_apple_time < usize::MAX,
        ensures
            r.wf(),
            r.width == self.width,
            r.height == self.height,
            r.network == self.network,
            r.fitness_score == self.fitness_score,
            !self.alive ==> r == self,
            self.alive ==> r.life_time == self.life_time + 1,
            self.alive ==> r.snake.dir == self.moved_dir(),
            self.alive ==> r.snake.points[0] == self.new_head_spec(),
            self.alive && self.ate_spec() ==> r.snake.points@ == self.shifted_points().push(
                self.snake.points@.last(),
            ) && r.score == self.score + 1 && r.last_apple_time == 0,
            self.alive && !self.ate_spec() ==> r.snake.points@ == self.shifted_points() && r.score
                == self.score && r.last_apple_time == self.last_apple_time + 1 && r.apple
                == self.apple,
            self.alive ==> r.alive == !collision_spec(
                r.snake.points@,
                self.width as int,
                self.height as int,
            ),
    {
        let ghost orig = self;
        let mut w = self;
        if !w.alive {
            return w;
        }
        w.life_time = w.life_time + 1;
        w.last_apple_time = w.last_apple_time + 1;
        let inputs = w.get_inputs();
        let network_answer = w.network.propagate(inputs);
        let new_dir = Direction::from_network(network_answer);
        proof {
            assert(new_dir == orig.chosen_dir_spec());
            assert(-1 <= step_dir_spec(orig.snake.dir, new_dir).x <= 1 && -1 <= step_dir_spec(
                orig.snake.dir,
                new_dir,
            ).y <= 1);
            assert(interior(orig.snake.points[0], orig.width as int, orig.height as int));
        }
        let ghost_tail = w.snake.step(new_dir);
        proof {
            assert(w.snake.points[0] == orig.new_head_spec());
            assert(in_bounds(w.snake.points[0], orig.width as int, orig.height as int));
            assert(w.snake.points@ =~= orig.shifted_points());
            assert forall|i: int|
                0 <= i < w.snake.points.len() implies in_bounds(
                #[trigger] w.snake.points[i],
                orig.width as int,
                orig.height as int,
            ) by {
                if i >= 1 {
                    assert(w.snake.points[i] == orig.snake.points[i - 1]);
                }
            }
        }
        if w.snake.points[0] == w.apple.position {
            w.snake.points.push(ghost_tail);
            w.score = w.score + 1;
            w.last_apple_time = 0;
            w.apple_random_pos();
        }
        if w.check_snake_collision() {
            w.alive = false;
        }
        w
    }

    /// Fitness: one hundred per goal reached, plus a quarter of the age in
    /// steps, truncated.
    pub fn calculate_fitness_score(&mut self)
        requires
            old(self).score * 100 + old(self).life_time / 4 <= usize::MAX,
        ensures
            final(self).fitness_score == old(self).score * 100 + old(self).life_time / 4,
            (*final(self) == World { fitness_score: final(self).fitness_score, ..*old(self) }),
    {
        let mut fitness_score: usize = 0;
        fitness_score += self.score * 100;
        fitness_score += self.life_time / 4;
        self.fitness_score = fitness_score;
    }

    /// The orchestrator's starvation rule: an agent that has gone
    /// `2 * (width + height)` steps without reaching the goal is
    /// force-killed.
    pub fn enforce_starvation(&mut self)
        requires
            0 <= old(self).width <= MAX_DIM,
            0 <= old(self).height <= MAX_DIM,
        ensures
            final(self).alive == (old(self).alive && old(self).last_apple_time < 2 * (old(
                self,
            ).width + old(self).height)),
            (*final(self) == World { alive: final(self).alive, ..*old(self) }),
    {
        let limit: usize = 2 * ((self.width + self.height) as usize);
        if self.last_apple_time >= limit {
            self.alive = false;
        }
    }
}

} // verus!
