//! Tests of the snake environment: movement, collision, goal consumption,
//! the sensor encoder and the fitness formula.
use neuro_snake::game::{Direction, Point};
use neuro_snake::perceptron::{Layer, Network, Neuron};
use neuro_snake::snake::Snake;
use neuro_snake::world::{Apple, World};
use neuro_snake::{INF_SIGNAL, INPUT_LEN};

fn zero_neuron(bias: i64, fan_in: usize) -> Neuron {
    Neuron { bias, weights: vec![0; fan_in] }
}

/// A genome that always chooses the same direction, whatever it senses.
fn constant_network(dir_index: usize) -> Network {
    let biases: Vec<i64> = (0..4).map(|i| if i == dir_index { 500 } else { 0 }).collect();
    Network {
        layers: vec![
            Layer { neurons: biases.iter().map(|b| zero_neuron(*b, INPUT_LEN)).collect() },
        ],
    }
}

fn test_world(head: Point, apple: Point, dir: Point, network: Network) -> World {
    World {
        alive: true,
        last_apple_time: 0,
        life_time: 0,
        score: 0,
        snake: Snake { points: vec![head], dir },
        apple: Apple { position: apple },
        width: 10,
        height: 10,
        network,
        fitness_score: 0,
    }
}

#[test]
fn direction_opposites() {
    assert!(matches!(Direction::Up.opposite(), Direction::Down));
    assert!(matches!(Direction::Down.opposite(), Direction::Up));
    assert!(matches!(Direction::Left.opposite(), Direction::Right));
    assert!(matches!(Direction::Right.opposite(), Direction::Left));
}

#[test]
fn direction_unit_displacements() {
    assert_eq!(Direction::Up.to_point(), Point { x: 0, y: -1 });
    assert_eq!(Direction::Down.to_point(), Point { x: 0, y: 1 });
    assert_eq!(Direction::Left.to_point(), Point { x: -1, y: 0 });
    assert_eq!(Direction::Right.to_point(), Point { x: 1, y: 0 });
}

#[test]
fn point_componentwise_ops() {
    let p = Point { x: -3, y: 7 };
    assert_eq!(p.abs(), Point { x: 3, y: 7 });
    assert_eq!(p.add(Point { x: 5, y: -2 }), Point { x: 2, y: 5 });
    assert_eq!(p.sub(Point { x: 5, y: -2 }), Point { x: -8, y: 9 });
}

#[test]
fn reversal_request_is_ignored() {
    let mut s = Snake {
        points: vec![Point { x: 5, y: 5 }, Point { x: 4, y: 5 }],
        dir: Point { x: 1, y: 0 },
    };
    let tail = s.step(Direction::Left);
    // Heading Right, requesting Left: the heading is kept and the body moves
    // one cell to the right.
    assert_eq!(s.dir, Point { x: 1, y: 0 });
    assert_eq!(s.points, vec![Point { x: 6, y: 5 }, Point { x: 5, y: 5 }]);
    assert_eq!(tail, Point { x: 4, y: 5 });
}

#[test]
fn turn_request_is_taken() {
    let mut s = Snake { points: vec![Point { x: 5, y: 5 }], dir: Point { x: 1, y: 0 } };
    s.step(Direction::Up);
    assert_eq!(s.dir, Point { x: 0, y: -1 });
    assert_eq!(s.points, vec![Point { x: 5, y: 4 }]);
}

#[test]
fn body_overlap_is_a_collision() {
    let mut w = test_world(
        Point { x: 5, y: 5 },
        Point { x: 8, y: 8 },
        Point { x: 1, y: 0 },
        constant_network(0),
    );
    w.snake.points = vec![Point { x: 5, y: 5 }, Point { x: 4, y: 5 }, Point { x: 5, y: 5 }];
    assert!(w.check_snake_collision());
}

#[test]
fn border_cell_is_lethal_without_overlap() {
    let mut w = test_world(
        Point { x: 0, y: 4 },
        Point { x: 8, y: 8 },
        Point { x: 0, y: 0 },
        constant_network(0),
    );
    assert!(w.check_snake_collision());
    w.snake.points = vec![Point { x: 4, y: 4 }];
    assert!(!w.check_snake_collision());
}

#[test]
fn tick_kills_on_border() {
    // Heading Right from (8, 5): the head lands on the border column.
    let w = test_world(
        Point { x: 8, y: 5 },
        Point { x: 2, y: 2 },
        Point { x: 1, y: 0 },
        constant_network(3),
    );
    let r = w.tick();
    assert!(!r.alive);
    assert_eq!(r.snake.points[0], Point { x: 9, y: 5 });
    assert_eq!(r.life_time, 1);
}

#[test]
fn goal_consumption_grows_scores_and_resets() {
    // Heading Right from (5, 5) onto the goal at (6, 5).
    let mut w = test_world(
        Point { x: 5, y: 5 },
        Point { x: 6, y: 5 },
        Point { x: 1, y: 0 },
        constant_network(3),
    );
    w.last_apple_time = 7;
    w.life_time = 7;
    let r = w.tick();
    assert!(r.alive);
    assert_eq!(r.snake.points.len(), 2);
    assert_eq!(r.snake.points[0], Point { x: 6, y: 5 });
    // The cached tail position extends the body.
    assert_eq!(r.snake.points[1], Point { x: 5, y: 5 });
    assert_eq!(r.score, 1);
    assert_eq!(r.last_apple_time, 0);
    assert_eq!(r.life_time, 8);
    // The goal was relocated into the interior.
    assert!(1 <= r.apple.position.x && r.apple.position.x <= 8);
    assert!(1 <= r.apple.position.y && r.apple.position.y <= 8);
}

#[test]
fn plain_step_keeps_score_and_apple() {
    let w = test_world(
        Point { x: 5, y: 5 },
        Point { x: 2, y: 2 },
        Point { x: 0, y: 1 },
        constant_network(1),
    );
    let r = w.tick();
    assert!(r.alive);
    assert_eq!(r.snake.points, vec![Point { x: 5, y: 6 }]);
    assert_eq!(r.score, 0);
    assert_eq!(r.last_apple_time, 1);
    assert_eq!(r.apple.position, Point { x: 2, y: 2 });
}

#[test]
fn dead_world_does_not_advance() {
    let mut w = test_world(
        Point { x: 5, y: 5 },
        Point { x: 2, y: 2 },
        Point { x: 1, y: 0 },
        constant_network(3),
    );
    w.alive = false;
    w.life_time = 11;
    let r = w.tick();
    assert!(!r.alive);
    assert_eq!(r.life_time, 11);
    assert_eq!(r.snake.points, vec![Point { x: 5, y: 5 }]);
}

#[test]
fn fitness_formula_truncates_age_quarter() {
    let mut w = test_world(
        Point { x: 5, y: 5 },
        Point { x: 2, y: 2 },
        Point { x: 0, y: 0 },
        constant_network(0),
    );
    w.score = 3;
    w.life_time = 10;
    w.calculate_fitness_score();
    assert_eq!(w.fitness_score, 302);
}

#[test]
fn starvation_rule_kills_idle_agents() {
    let mut w = test_world(
        Point { x: 5, y: 5 },
        Point { x: 2, y: 2 },
        Point { x: 0, y: 0 },
        constant_network(0),
    );
    w.last_apple_time = 40;
    w.enforce_starvation();
    assert!(!w.alive);
    let mut v = test_world(
        Point { x: 5, y: 5 },
        Point { x: 2, y: 2 },
        Point { x: 0, y: 0 },
        constant_network(0),
    );
    v.last_apple_time = 39;
    v.enforce_starvation();
    assert!(v.alive);
}

#[test]
fn encoder_features_exact_values() {
    // Head at (5, 5) on a 10x10 field, goal at (7, 5), heading zero, no body.
    let w = test_world(
        Point { x: 5, y: 5 },
        Point { x: 7, y: 5 },
        Point { x: 0, y: 0 },
        constant_network(0),
    );
    let inputs = w.get_inputs();
    assert_eq!(inputs.len(), INPUT_LEN);
    // Wall reciprocals: right 4, up 5, left 5, down 4, then the diagonal
    // minima 4, 5, 4, 4.
    assert_eq!(inputs[0..8].to_vec(), vec![250, 200, 200, 250, 250, 200, 250, 250]);
    // No body segment in any direction: the sentinel everywhere.
    assert_eq!(inputs[8..16].to_vec(), vec![INF_SIGNAL; 8]);
    // Goal two cells to the right; the three other axis features are the
    // sentinel; the flags say "left of the goal"; the combined signal is the
    // raw offset sum.
    assert_eq!(inputs[16..20].to_vec(), vec![500, INF_SIGNAL, INF_SIGNAL, INF_SIGNAL]);
    assert_eq!(inputs[20..24].to_vec(), vec![0, 0, 1000, 0]);
    assert_eq!(inputs[24], -2000);
    // The heading components.
    assert_eq!(inputs[25..27].to_vec(), vec![0, 0]);
}

#[test]
fn encoder_sees_nearest_body_segment() {
    let mut w = test_world(
        Point { x: 5, y: 5 },
        Point { x: 2, y: 2 },
        Point { x: 0, y: 0 },
        constant_network(0),
    );
    // Two segments to the right, at distances 3 and 2, and one diagonal
    // segment up-right at distance 1.
    w.snake.points = vec![
        Point { x: 5, y: 5 },
        Point { x: 8, y: 5 },
        Point { x: 7, y: 5 },
        Point { x: 6, y: 4 },
    ];
    let inputs = w.get_inputs();
    // Nearest to the right is at distance 2.
    assert_eq!(inputs[8], 500);
    // The diagonal neighbour at distance 1 (the segment one cell right and
    // one cell up of the head).
    assert_eq!(inputs[14], 1000);
    // Nothing to the left.
    assert_eq!(inputs[10], INF_SIGNAL);
}

#[test]
fn new_world_starts_centered_and_alive() {
    let w = World::new(10, 12, Network::create_random_network(vec![INPUT_LEN, 4]));
    assert!(w.alive);
    assert_eq!(w.snake.points, vec![Point { x: 5, y: 6 }]);
    assert_eq!(w.snake.dir, Point { x: 0, y: 0 });
    assert_eq!(w.score, 0);
    assert_eq!(w.life_time, 0);
    assert!(1 <= w.apple.position.x && w.apple.position.x <= 8);
    assert!(1 <= w.apple.position.y && w.apple.position.y <= 10);
}
