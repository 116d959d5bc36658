use parking_escape::board::{Board, ExitPosition, ExitSide};
use parking_escape::solver::{generate_next_states, solve, BoardState};
use parking_escape::vehicle::{Orientation, Vehicle, VehicleKind};

fn sample_vehicles() -> Vec<Vehicle> {
    vec![
        Vehicle::new("p", VehicleKind::PlayerRed, 1, 2, 2, Orientation::Horizontal, true),
        Vehicle::new("c1", VehicleKind::CarSedanBlue, 3, 1, 2, Orientation::Vertical, false),
        Vehicle::new("t1", VehicleKind::TruckDelivery, 4, 2, 3, Orientation::Vertical, false),
    ]
}

#[test]
fn test_simple_solver() {
    let vehicles = sample_vehicles();

    let exit = ExitPosition {
        side: ExitSide::Right,
        row: 2,
        col: 0,
    };

    let result = solve(6, 6, exit, &vehicles);
    assert!(result.is_some(), "Puzzle should be solvable");
    assert!(result.unwrap() >= 2);
}

#[test]
fn solver_finds_least_number_of_moves() {
    let exit = ExitPosition { side: ExitSide::Right, row: 2, col: 0 };
    // The sedan and the truck must each leave row 2 before the player drives out.
    assert_eq!(solve(6, 6, exit, &sample_vehicles()), Some(3));
}

#[test]
fn solver_already_solved() {
    let exit = ExitPosition { side: ExitSide::Right, row: 2, col: 0 };
    let v = vec![Vehicle::new("p", VehicleKind::PlayerRed, 4, 2, 2, Orientation::Horizontal, true)];
    assert_eq!(solve(6, 6, exit, &v), Some(0));
    let v = vec![Vehicle::new("p", VehicleKind::PlayerRed, 1, 2, 2, Orientation::Horizontal, true)];
    assert_eq!(solve(6, 6, exit, &v), Some(1));
}

#[test]
fn solver_without_player_gives_none() {
    let exit = ExitPosition { side: ExitSide::Right, row: 2, col: 0 };
    let v = vec![Vehicle::new("c", VehicleKind::CarSedanBlue, 1, 2, 2, Orientation::Horizontal, false)];
    assert_eq!(solve(6, 6, exit, &v), None);
    assert_eq!(solve(6, 6, exit, &[]), None);
}

#[test]
fn solver_unsolvable_gives_none() {
    let exit = ExitPosition { side: ExitSide::Right, row: 2, col: 0 };
    let v = vec![
        Vehicle::new("p", VehicleKind::PlayerRed, 0, 2, 2, Orientation::Horizontal, true),
        Vehicle::new("wall", VehicleKind::TruckDelivery, 3, 0, 3, Orientation::Vertical, false),
    ];
    assert_eq!(solve(6, 3, exit, &v), None);
}

#[test]
fn successor_states() {
    let v = sample_vehicles();
    let start: Vec<(i32, i32)> = v.iter().map(|x| (x.x, x.y)).collect();
    let next = generate_next_states(6, 6, &BoardState(start.clone()), &v);
    assert_eq!(next.len(), 8);
    assert!(next.contains(&BoardState(vec![(0, 2), (3, 1), (4, 2)])));
    assert!(next.contains(&BoardState(vec![(1, 2), (3, 0), (4, 2)])));
    assert!(next.contains(&BoardState(vec![(1, 2), (3, 4), (4, 2)])));
    assert!(next.contains(&BoardState(vec![(1, 2), (3, 1), (4, 0)])));
    assert!(next.contains(&BoardState(vec![(1, 2), (3, 1), (4, 3)])));
    assert!(!next.contains(&BoardState(vec![(2, 2), (3, 1), (4, 2)])));
    assert!(!next.contains(&BoardState(start.clone())));
    let st = BoardState(start);
    assert_eq!(st.0.len(), 3);
}

#[test]
fn solver_moves_match_board_bounds() {
    let v = sample_vehicles();
    let start: Vec<(i32, i32)> = v.iter().map(|x| (x.x, x.y)).collect();
    let next = generate_next_states(6, 6, &BoardState(start.clone()), &v);
    let exit = ExitPosition { side: ExitSide::Right, row: 2, col: 0 };
    let board = Board::new(6, 6, exit, v.iter().map(|x| x.clone()).collect(), vec![]);
    let mut expected = 0;
    for idx in 0..v.len() {
        let (lo, hi) = board.compute_movement_bounds(idx);
        for k in lo..=hi {
            if k == 0 {
                continue;
            }
            expected += 1;
            let mut t = start.clone();
            match v[idx].orientation {
                Orientation::Horizontal => t[idx].0 += k,
                Orientation::Vertical => t[idx].1 += k,
            }
            assert!(next.contains(&BoardState(t)));
        }
    }
    assert_eq!(next.len(), expected);
}

#[test]
fn successors_of_zero_length_vehicles_are_distinct() {
    let v = vec![
        Vehicle::new("p", VehicleKind::PlayerRed, 1, 2, 2, Orientation::Horizontal, true),
        Vehicle::new("z", VehicleKind::Unknown, 3, 3, 0, Orientation::Vertical, false),
    ];
    let start: Vec<(i32, i32)> = v.iter().map(|x| (x.x, x.y)).collect();
    let next = generate_next_states(6, 6, &BoardState(start.clone()), &v);
    for i in 0..next.len() {
        assert_ne!(next[i], BoardState(start.clone()));
        for j in 0..i {
            assert_ne!(next[i], next[j]);
        }
    }
    assert!(next.contains(&BoardState(vec![(1, 2), (3, 0)])));
}
