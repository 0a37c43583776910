use tsa_sim::cooling_methods::{CoolingMethod, ExpCooling, SigmoidCooling};
use tsa_sim::data::{DataNode, Point};
use tsa_sim::render::{handle_update, ObjectType};
use tsa_sim::{TsaError, TSA, TSAConfig};

fn make_data(coords: &[(usize, usize)]) -> Vec<DataNode> {
    let mut data = Vec::new();
    for (i, &(x, y)) in coords.iter().enumerate() {
        data.push(DataNode {
            group: (i + 1) as u8,
            point: Point { x, y },
        });
    }
    data
}

fn is_permutation_of_indices(solution: &Vec<usize>, n: usize) -> bool {
    if solution.len() != n {
        return false;
    }
    let mut seen = vec![false; n];
    for &v in solution.iter() {
        if v >= n || seen[v] {
            return false;
        }
        seen[v] = true;
    }
    true
}

#[test]
fn can_create_with_51_items_as_default() {
    let mut coords = Vec::new();
    for i in 0..51usize {
        coords.push((13 * i % 977, 31 * i % 1009));
    }
    let data = make_data(&coords);
    let config = TSAConfig::create_default();
    let tsa = TSA::create(data, config).unwrap();
    assert_eq!(tsa.distances.len(), 51);
}

#[test]
fn distance_matrix_is_symmetric_with_zero_diagonal() {
    let data = make_data(&[(0, 0), (0, 10), (10, 10), (10, 0), (3, 7)]);
    let config = TSAConfig::<SigmoidCooling>::create(100, 10_000_000, 100, 10);
    let tsa = TSA::create(data, config).unwrap();
    let n = tsa.distances.len();
    assert_eq!(n, 5);
    for i in 0..n {
        assert_eq!(tsa.distances[i][i], 0);
        for j in 0..n {
            assert_eq!(tsa.distances[i][j], tsa.distances[j][i]);
        }
    }
    // exact fixed-point Euclidean distances
    assert_eq!(tsa.distances[0][1], 10_000_000);
    assert_eq!(tsa.distances[0][2], 14_142_135);
}

#[test]
fn dist_of_three_four_five_triangle_is_exact() {
    let a = Point { x: 0, y: 0 };
    let b = Point { x: 3, y: 4 };
    assert_eq!(tsa_sim::distance::dist(&a, &b), 5_000_000);
    assert_eq!(tsa_sim::distance::dist(&b, &a), 5_000_000);
}

#[test]
fn tour_stays_a_permutation_after_every_step() {
    let data = make_data(&[(0, 0), (5, 1), (9, 4), (2, 8), (7, 7), (4, 3)]);
    let config = TSAConfig::<SigmoidCooling>::create(1_000, 5_000_000, 500, 5);
    let mut tsa = TSA::create(data, config).unwrap();
    assert!(is_permutation_of_indices(&tsa.solution, 6));
    for _ in 0..200 {
        tsa.gen_next_solution();
        assert!(is_permutation_of_indices(&tsa.solution, 6));
    }
}

#[test]
fn one_transposition_always_changes_the_tour() {
    let solution: Vec<usize> = vec![0, 1, 2, 3, 4];
    for _ in 0..100 {
        let permuted = tsa_sim::tour::permute(&solution, 1);
        // one swap of two distinct positions of a permutation can never
        // give the same tour back
        assert_ne!(permuted, solution);
        assert!(is_permutation_of_indices(&permuted, 5));
    }
}

#[test]
fn unordered_groups_are_arranged_by_their_group_key() {
    // the loader contract asks only that groups be unique and cover 1..=n;
    // the engine arranges them so that tour index i means group i+1
    let data = vec![
        DataNode { group: 3, point: Point { x: 30, y: 0 } },
        DataNode { group: 1, point: Point { x: 10, y: 0 } },
        DataNode { group: 4, point: Point { x: 40, y: 0 } },
        DataNode { group: 2, point: Point { x: 20, y: 0 } },
    ];
    let config = TSAConfig::<SigmoidCooling>::create(100, 1_000_000, 50, 5);
    let tsa = TSA::create(data, config).unwrap();
    for i in 0..4 {
        assert_eq!(tsa.data[i].group as usize, i + 1);
        assert_eq!(tsa.data[i].point.x, 10 * (i + 1));
    }
    // matrix keyed by group: groups 1 and 2 are 10 apart
    assert_eq!(tsa.distances[0][1], 10_000_000);
}

#[test]
fn step_after_exhaustion_changes_nothing() {
    let data = make_data(&[(0, 0), (4, 2), (1, 9)]);
    let config = TSAConfig::<ExpCooling>::create(1_000, 2_000_000, 25, 4);
    let mut tsa = TSA::create(data, config).unwrap();
    for _ in 0..25 {
        tsa.gen_next_solution();
    }
    assert_eq!(tsa.get_current_iter(), 25);
    let solution = tsa.solution.clone();
    let distance = tsa.get_current_distance();
    let temperature = tsa.get_current_temperature();
    let iters_on_temp = tsa.iters_on_temp;
    for _ in 0..5 {
        tsa.gen_next_solution();
        assert_eq!(tsa.solution, solution);
        assert_eq!(tsa.get_current_distance(), distance);
        assert_eq!(tsa.get_current_temperature(), temperature);
        assert_eq!(tsa.iters_on_temp, iters_on_temp);
        assert_eq!(tsa.get_current_iter(), 25);
    }
}

#[test]
fn four_city_square_reaches_optimal_tour_length() {
    // known optimum: the 10 x 10 square, cycle length 40.0
    let data = make_data(&[(0, 0), (0, 10), (10, 10), (10, 0)]);
    let config = TSAConfig::<ExpCooling>::create(1_000, 50_000_000, 50_000, 10);
    let mut tsa = TSA::create(data, config).unwrap();
    let mut best = tsa.get_current_distance();
    for _ in 0..50_000 {
        tsa.gen_next_solution();
        let d = tsa.get_current_distance();
        if d < best {
            best = d;
        }
    }
    assert_eq!(best, 40_000_000);
}

#[test]
fn single_city_instance_is_degenerate_but_sound() {
    let data = make_data(&[(42, 17)]);
    let config = TSAConfig::<SigmoidCooling>::create(100, 1_000_000, 50, 5);
    let mut tsa = TSA::create(data, config).unwrap();
    assert_eq!(tsa.get_current_distance(), 0);
    assert_eq!(tsa.solution, vec![0usize]);
    for _ in 0..60 {
        tsa.gen_next_solution();
        assert_eq!(tsa.get_current_distance(), 0);
        assert_eq!(tsa.solution, vec![0usize]);
    }
    assert_eq!(tsa.get_current_iter(), 50);
}

#[test]
fn empty_instance_is_rejected() {
    let data: Vec<DataNode> = Vec::new();
    let config = TSAConfig::<SigmoidCooling>::create(100, 1_000_000, 50, 5);
    let r = TSA::create(data, config);
    assert!(matches!(r, Err(TsaError::EmptyInstance)));
}

#[test]
fn render_snapshot_lists_tour_edges_then_city_markers() {
    let coords = [(0usize, 0usize), (0, 10), (10, 10), (10, 0)];
    let data = make_data(&coords);
    let config = TSAConfig::<SigmoidCooling>::create(100, 1_000_000, 50, 5);
    let tsa = TSA::create(data, config).unwrap();
    let objects = handle_update(&tsa);
    assert_eq!(objects.len(), 8);
    for e in 0..4 {
        let line = &objects[e];
        assert!(matches!(line.object_type, ObjectType::LINE));
        assert_eq!(line.pos.len(), 2);
        let from_city = tsa.solution[e];
        let to_city = tsa.solution[(e + 1) % 4];
        assert_eq!(line.pos[0], coords[from_city]);
        assert_eq!(line.pos[1], coords[to_city]);
        // the segments chain into a closed cycle
        let next_line = &objects[(e + 1) % 4];
        assert_eq!(line.pos[1], next_line.pos[0]);
    }
    for i in 0..4 {
        let marker = &objects[4 + i];
        assert!(matches!(marker.object_type, ObjectType::CIRCLE));
        assert_eq!(marker.pos.len(), 1);
        assert_eq!(marker.pos[0], coords[i]);
    }
}

#[test]
fn get_solution_distance_matches_manual_sum() {
    let data = make_data(&[(0, 0), (0, 10), (10, 10), (10, 0)]);
    let config = TSAConfig::<SigmoidCooling>::create(100, 1_000_000, 50, 5);
    let tsa = TSA::create(data, config).unwrap();
    let square_tour: Vec<usize> = vec![0, 1, 2, 3];
    assert_eq!(tsa.get_solution_distance(&square_tour), 40_000_000);
    let crossed_tour: Vec<usize> = vec![0, 2, 1, 3];
    // two sides and two diagonals
    assert_eq!(tsa.get_solution_distance(&crossed_tour), 48_284_270);
}
