use parking_escape::audio::SoundTrigger;
use parking_escape::board::{Board, ExitPosition, ExitSide};
use parking_escape::obstacle::Obstacle;
use parking_escape::theme::Theme;
use parking_escape::vehicle::{Orientation, Vehicle, VehicleKind};

fn right_exit(row: i32) -> ExitPosition {
    ExitPosition {
        side: ExitSide::Right,
        row,
        col: 0,
    }
}

#[test]
fn test_board_movement_and_undo() {
    let vehicles = vec![
        Vehicle::new("p", VehicleKind::PlayerRed, 1, 2, 2, Orientation::Horizontal, true),
        Vehicle::new("c1", VehicleKind::CarSedanBlue, 3, 1, 2, Orientation::Vertical, false),
    ];

    let exit = ExitPosition {
        side: ExitSide::Right,
        row: 2,
        col: 0,
    };

    let mut board = Board::new(6, 6, exit, vehicles, vec![]);
    assert_eq!(board.move_count, 0);

    let (min_b, max_b) = board.compute_movement_bounds(0);
    assert_eq!(min_b, -1);
    assert_eq!(max_b, 0);

    let (c1_min, c1_max) = board.compute_movement_bounds(1);
    assert_eq!(c1_min, -1);
    assert_eq!(c1_max, 3);

    // The drag of c1 ends two cells down; the whole-cell part of releasing
    // it is committed here.
    let trigger = board.finalize_vehicle_offset(1, 2);
    assert_eq!(trigger, Some(SoundTrigger::Slide));
    assert_eq!(board.vehicles[1].y, 3);
    assert_eq!(board.move_count, 1);

    let (p_min, p_max) = board.compute_movement_bounds(0);
    assert_eq!(p_min, -1);
    assert_eq!(p_max, 3);

    assert!(board.undo());
    assert_eq!(board.vehicles[1].y, 1);
    assert_eq!(board.move_count, 0);
}

#[test]
fn test_board_obstacles_collision_and_interaction() {
    let player = Vehicle::new("p", VehicleKind::PlayerRed, 0, 2, 2, Orientation::Horizontal, true);
    let rock = Obstacle::rock_1x1(3, 2);
    let buoy = Obstacle::buoy_1x1(0, 0);

    let exit = ExitPosition {
        side: ExitSide::Right,
        row: 2,
        col: 0,
    };

    let board = Board::new(6, 6, exit, vec![player], vec![rock, buoy]);

    let (p_min, p_max) = board.compute_movement_bounds(0);
    assert_eq!(p_min, 0);
    assert_eq!(p_max, 1);

    assert!(!board.is_cell_free(3, 2, None));
    assert!(!board.is_cell_free(0, 0, None));
    assert!(board.is_cell_free(4, 2, None));

    assert_eq!(board.find_obstacle_at(3, 2), Some(0));
    let outcome = board.trigger_bump(0, true);
    // The rock that stopped the player is the obstacle that wobbles.
    assert_eq!(outcome.struck_obstacle, Some(0));
    assert_eq!(outcome.sound, SoundTrigger::Alarm);
    assert_eq!(outcome.drifting_vehicle, None);
}

#[test]
fn board_new_starts_clean() {
    let v = vec![Vehicle::new("p", VehicleKind::PlayerRed, 0, 2, 2, Orientation::Horizontal, true)];
    let board = Board::new(6, 6, right_exit(2), v, vec![]);
    assert_eq!(board.width, 6);
    assert_eq!(board.height, 6);
    assert_eq!(board.move_count, 0);
    assert!(board.history.is_empty());
    assert!(!board.is_won);
    assert_eq!(board.theme, Theme::City);
    assert_eq!(board.initial_vehicles.len(), 1);
}

#[test]
fn board_inside_and_free_cells() {
    let v = vec![
        Vehicle::new("p", VehicleKind::PlayerRed, 0, 2, 2, Orientation::Horizontal, true),
        Vehicle::new("c", VehicleKind::CarTaxiYellow, 4, 0, 3, Orientation::Vertical, false),
    ];
    let board = Board::new(6, 5, right_exit(2), v, vec![Obstacle::new(2, 4, 2, 1, None)]);
    assert!(board.is_inside_board(0, 0));
    assert!(board.is_inside_board(5, 4));
    assert!(!board.is_inside_board(6, 0));
    assert!(!board.is_inside_board(0, 5));
    assert!(!board.is_inside_board(-1, 2));
    assert!(!board.is_cell_free(1, 2, None));
    assert!(board.is_cell_free(1, 2, Some(0)));
    assert!(!board.is_cell_free(1, 2, Some(1)));
    assert!(!board.is_cell_free(4, 2, None));
    assert!(!board.is_cell_free(3, 4, Some(0)));
    assert!(board.is_cell_free(3, 3, None));
    assert!(!board.is_cell_free(6, 3, None));
}

#[test]
fn winning_move_reaches_the_exit() {
    let v = vec![Vehicle::new("p", VehicleKind::PlayerRed, 1, 2, 2, Orientation::Horizontal, true)];
    let mut board = Board::new(6, 6, right_exit(2), v, vec![]);
    let (_, hi) = board.compute_movement_bounds(0);
    assert_eq!(hi, 3);
    assert_eq!(board.finalize_vehicle_offset(0, 3), Some(SoundTrigger::Win));
    assert!(board.is_won);
    assert_eq!(board.vehicles[0].x, 4);
    assert_eq!(board.move_count, 1);
    // A won level cannot be taken back.
    assert!(!board.undo());
    assert_eq!(board.vehicles[0].x, 4);
}

#[test]
fn zero_offset_is_no_move() {
    let v = vec![Vehicle::new("p", VehicleKind::PlayerRed, 1, 2, 2, Orientation::Horizontal, true)];
    let mut board = Board::new(6, 6, right_exit(2), v, vec![]);
    assert_eq!(board.finalize_vehicle_offset(0, 0), None);
    assert_eq!(board.move_count, 0);
    assert!(board.history.is_empty());
    assert!(!board.undo());
}

#[test]
fn reset_restores_start_layout() {
    let v = vec![
        Vehicle::new("p", VehicleKind::PlayerRed, 0, 2, 2, Orientation::Horizontal, true),
        Vehicle::new("c", VehicleKind::CarSedanBlue, 3, 0, 2, Orientation::Vertical, false),
    ];
    let mut board = Board::new(6, 6, right_exit(2), v, vec![]);
    board.finalize_vehicle_offset(1, 3);
    board.finalize_vehicle_offset(0, 1);
    assert_eq!(board.move_count, 2);
    assert_eq!(board.history.len(), 2);
    board.reset();
    assert_eq!(board.move_count, 0);
    assert!(board.history.is_empty());
    assert_eq!((board.vehicles[0].x, board.vehicles[0].y), (0, 2));
    assert_eq!((board.vehicles[1].x, board.vehicles[1].y), (3, 0));
    assert!(!board.is_won);
}

#[test]
fn undo_twice_walks_back() {
    let v = vec![
        Vehicle::new("p", VehicleKind::PlayerRed, 0, 2, 2, Orientation::Horizontal, true),
        Vehicle::new("c", VehicleKind::CarSedanBlue, 3, 0, 2, Orientation::Vertical, false),
    ];
    let mut board = Board::new(6, 6, right_exit(2), v, vec![]);
    board.finalize_vehicle_offset(1, 3);
    board.finalize_vehicle_offset(0, 2);
    assert!(board.undo());
    assert_eq!(board.vehicles[0].x, 0);
    assert_eq!(board.vehicles[1].y, 3);
    assert_eq!(board.move_count, 1);
    assert!(board.undo());
    assert_eq!(board.vehicles[1].y, 0);
    assert_eq!(board.move_count, 0);
    assert!(!board.undo());
}

#[test]
fn exit_is_reached_on_each_side() {
    let right = right_exit(2);
    assert!(right.is_reached(Orientation::Horizontal, 4, 2, 2, 6, 6));
    assert!(!right.is_reached(Orientation::Horizontal, 3, 2, 2, 6, 6));
    assert!(!right.is_reached(Orientation::Horizontal, 4, 1, 2, 6, 6));
    assert!(!right.is_reached(Orientation::Vertical, 4, 2, 2, 6, 6));
    let left = ExitPosition { side: ExitSide::Left, row: 1, col: 0 };
    assert!(left.is_reached(Orientation::Horizontal, 0, 1, 3, 6, 6));
    assert!(!left.is_reached(Orientation::Horizontal, 1, 1, 3, 6, 6));
    let bottom = ExitPosition { side: ExitSide::Bottom, row: 0, col: 3 };
    assert!(bottom.is_reached(Orientation::Vertical, 3, 4, 2, 6, 6));
    assert!(!bottom.is_reached(Orientation::Vertical, 2, 4, 2, 6, 6));
    let top = ExitPosition { side: ExitSide::Top, row: 0, col: 5 };
    assert!(top.is_reached(Orientation::Vertical, 5, 0, 2, 6, 6));
    assert!(!top.is_reached(Orientation::Vertical, 5, 1, 2, 6, 6));
}

#[test]
fn bump_sounds_and_targets() {
    let v = vec![
        Vehicle::new("police", VehicleKind::CarPolice, 0, 0, 2, Orientation::Horizontal, false),
        Vehicle::new("amb", VehicleKind::Ambulance, 0, 1, 3, Orientation::Horizontal, false),
        Vehicle::new("sedan", VehicleKind::CarSedanBlue, 0, 2, 2, Orientation::Horizontal, false),
        Vehicle::new("blocker", VehicleKind::TruckDelivery, 4, 0, 3, Orientation::Vertical, false),
    ];
    let board = Board::new(6, 6, right_exit(0), v, vec![]);
    assert_eq!(board.trigger_bump(2, true).sound, SoundTrigger::Alarm);
    assert_eq!(board.trigger_bump(0, false).sound, SoundTrigger::Siren);
    assert_eq!(board.trigger_bump(1, true).sound, SoundTrigger::Siren);
    // The police car slides right until the truck at column 4 stops it.
    assert_eq!(board.find_obstacle_vehicle(0, true), Some(3));
    assert_eq!(board.find_obstacle_vehicle(1, true), Some(3));
    // Backwards it stops at the board edge.
    assert_eq!(board.find_obstacle_vehicle(0, false), None);
    // Away from water nothing drifts.
    assert_eq!(board.trigger_bump(0, true).drifting_vehicle, None);
}

#[test]
fn marine_bump_makes_the_struck_vessel_drift() {
    let v = vec![
        Vehicle::new("a", VehicleKind::CarSedanBlue, 0, 1, 2, Orientation::Horizontal, false),
        Vehicle::new("b", VehicleKind::CarTaxiYellow, 3, 1, 2, Orientation::Horizontal, false),
    ];
    let mut board = Board::new(6, 6, right_exit(1), v, vec![]);
    board.theme = Theme::Marine;
    let out = board.trigger_bump(0, true);
    assert_eq!(out.drifting_vehicle, Some(1));
    assert_eq!(out.struck_obstacle, None);
    let wall = board.trigger_bump(1, true);
    assert_eq!(wall.drifting_vehicle, None);
}

#[test]
fn test_fast_slide_bump_and_emergency_vehicle() {
    let vehicles = vec![
        Vehicle::new("police", VehicleKind::CarPolice, 0, 0, 2, Orientation::Horizontal, false),
        Vehicle::new("ambulance", VehicleKind::Ambulance, 0, 1, 3, Orientation::Horizontal, false),
        Vehicle::new("sedan", VehicleKind::CarSedanBlue, 0, 2, 2, Orientation::Horizontal, false),
    ];
    let exit = ExitPosition {
        side: ExitSide::Right,
        row: 0,
        col: 0,
    };
    let board = Board::new(6, 6, exit, vehicles, vec![]);

    // Standard sedan bump -> Alarm trigger
    let sedan = board.trigger_bump(2, true);
    assert_eq!(sedan.sound, SoundTrigger::Alarm);
    assert!(!board.vehicles[2].kind.is_emergency());

    // Police car bump -> Siren trigger
    let police = board.trigger_bump(0, false);
    assert_eq!(police.sound, SoundTrigger::Siren);
    assert!(board.vehicles[0].kind.is_emergency());

    // Ambulance bump -> Siren trigger
    let ambulance = board.trigger_bump(1, true);
    assert_eq!(ambulance.sound, SoundTrigger::Siren);
    assert!(board.vehicles[1].kind.is_emergency());
}

#[test]
fn test_marine_theme_and_water_inertia() {
    let ship = Vehicle::new("p", VehicleKind::PlayerRed, 0, 0, 2, Orientation::Horizontal, true);
    assert_eq!(
        ship.kind.sprite_for_theme(Orientation::Horizontal, Theme::City),
        "player_red_h"
    );
    assert_eq!(
        ship.kind.sprite_for_theme(Orientation::Horizontal, Theme::Marine),
        "ship_player_red_h"
    );
    assert_eq!(
        ship.kind.sprite_for_theme(Orientation::Vertical, Theme::Marine),
        "ship_player_red_v"
    );
    assert_eq!(
        VehicleKind::CarPolice.sprite_for_theme(Orientation::Horizontal, Theme::Marine),
        "ship_patrol_h"
    );
    assert_eq!(
        VehicleKind::Ambulance.sprite_for_theme(Orientation::Horizontal, Theme::Marine),
        "ship_sar_rescue_h"
    );
}

#[test]
fn test_marine_theme_collision_no_rebounce_and_obstacle_drift() {
    let boat_player = Vehicle::new("p", VehicleKind::PlayerRed, 1, 2, 2, Orientation::Horizontal, true);
    let boat_blocker = Vehicle::new("b", VehicleKind::CarSedanBlue, 3, 1, 2, Orientation::Vertical, false);
    let exit = ExitPosition {
        side: ExitSide::Right,
        row: 2,
        col: 0,
    };
    let mut board = Board::new(6, 6, exit, vec![boat_player, boat_blocker], vec![]);
    board.theme = Theme::Marine;

    let hit_vehicle = board.find_obstacle_vehicle(0, true);
    assert_eq!(hit_vehicle, Some(1), "Obstacle vehicle hit should be boat 1");

    let outcome = board.trigger_bump(0, true);
    assert_eq!(outcome.sound, SoundTrigger::Alarm);
    // The struck boat is the one that drifts away.
    assert_eq!(outcome.drifting_vehicle, Some(1));
    assert_eq!(outcome.struck_obstacle, None);
}

#[test]
fn test_marine_wall_collision() {
    let boat = Vehicle::new("p", VehicleKind::PlayerRed, 0, 0, 2, Orientation::Horizontal, true);
    let exit = ExitPosition {
        side: ExitSide::Right,
        row: 0,
        col: 0,
    };
    let mut board = Board::new(6, 6, exit, vec![boat], vec![]);
    board.theme = Theme::Marine;

    let hit_vehicle = board.find_obstacle_vehicle(0, false);
    assert_eq!(hit_vehicle, None, "Hitting wall should not find another vehicle");

    let outcome = board.trigger_bump(0, false);
    assert_eq!(outcome.sound, SoundTrigger::Alarm);
    assert_eq!(outcome.drifting_vehicle, None);
}

#[test]
fn commit_slide_holds_the_move_within_bounds() {
    let v = vec![
        Vehicle::new("p", VehicleKind::PlayerRed, 0, 2, 2, Orientation::Horizontal, true),
        Vehicle::new("c", VehicleKind::CarSedanBlue, 4, 1, 2, Orientation::Vertical, false),
    ];
    let mut board = Board::new(6, 6, right_exit(2), v, vec![]);
    // The car at column 4 stops the player after two cells.
    assert_eq!(board.compute_movement_bounds(0), (0, 2));
    assert_eq!(board.commit_slide(0, 5), Some(SoundTrigger::Slide));
    assert_eq!(board.vehicles[0].x, 2);
    assert_eq!(board.move_count, 1);
    // Backwards it can go back to the edge, no further.
    assert_eq!(board.commit_slide(0, -9), Some(SoundTrigger::Slide));
    assert_eq!(board.vehicles[0].x, 0);
    // Against the edge a backward slide is no move at all.
    assert_eq!(board.commit_slide(0, -1), None);
    assert_eq!(board.move_count, 2);
    // Once the car is out of the way the player drives out.
    assert_eq!(board.commit_slide(1, 3), Some(SoundTrigger::Slide));
    assert_eq!(board.vehicles[1].y, 4);
    assert_eq!(board.commit_slide(0, 10), Some(SoundTrigger::Win));
    assert_eq!(board.vehicles[0].x, 4);
    assert!(board.is_won);
}
