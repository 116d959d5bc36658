use parking_escape::obstacle::{default_obstacle_size, Obstacle, ObstacleKind};
use parking_escape::theme::Theme;
use parking_escape::vehicle::{Orientation, Vehicle, VehicleKind};

#[test]
fn test_obstacle_contains_cell_and_iterator() {
    let obs = Obstacle::new(2, 3, 2, 2, Some(ObstacleKind::Rock));
    assert!(obs.contains_cell(2, 3));
    assert!(obs.contains_cell(3, 3));
    assert!(obs.contains_cell(2, 4));
    assert!(obs.contains_cell(3, 4));
    assert!(!obs.contains_cell(1, 3));
    assert!(!obs.contains_cell(4, 4));

    let cells: Vec<(i32, i32)> = obs.cells();
    assert_eq!(cells, vec![(2, 3), (3, 3), (2, 4), (3, 4)]);
}

#[test]
fn test_obstacle_theme_conversion() {
    assert_eq!(ObstacleKind::Pillar.marine_sprite_name(), "marine_buoy");
    assert_eq!(ObstacleKind::Barrier.marine_sprite_name(), "marine_rock");
    assert_eq!(ObstacleKind::Rock.marine_sprite_name(), "marine_rock");
    assert_eq!(ObstacleKind::Buoy.marine_sprite_name(), "marine_buoy");

    assert_eq!(ObstacleKind::Buoy.city_sprite_name(), "city_pillar");
    assert_eq!(ObstacleKind::Pillar.city_sprite_name(), "city_pillar");
    assert_eq!(ObstacleKind::Barrier.city_sprite_name(), "city_barrier");
    assert_eq!(ObstacleKind::Rock.city_sprite_name(), "city_rock");

    assert_eq!(
        ObstacleKind::Pillar.sprite_for_theme(Theme::Marine),
        "marine_buoy"
    );
    assert_eq!(
        ObstacleKind::Pillar.sprite_for_theme(Theme::City),
        "city_pillar"
    );

    let pillar_obs = Obstacle::new(0, 0, 1, 1, Some(ObstacleKind::Pillar));
    assert_eq!(pillar_obs.sprite_name(Theme::Marine), "marine_buoy");
    assert_eq!(pillar_obs.sprite_name(Theme::City), "city_pillar");

    let barrier_obs = Obstacle::new(0, 0, 1, 1, Some(ObstacleKind::Barrier));
    assert_eq!(barrier_obs.sprite_name(Theme::Marine), "marine_rock");
    assert_eq!(barrier_obs.sprite_name(Theme::City), "city_barrier");

    let unspecified_obs = Obstacle::new(0, 0, 1, 1, None);
    assert_eq!(unspecified_obs.sprite_name(Theme::Marine), "marine_buoy");
    assert_eq!(unspecified_obs.sprite_name(Theme::City), "city_rock");
    assert_eq!(
        unspecified_obs.sprite_name(Theme::Railroad),
        "railroad_buffer_stop"
    );

    assert_eq!(
        ObstacleKind::Pillar.railroad_sprite_name(),
        "railroad_semaphore"
    );
    assert_eq!(
        ObstacleKind::Barrier.railroad_sprite_name(),
        "railroad_buffer_stop"
    );
    assert_eq!(
        ObstacleKind::Rock.railroad_sprite_name(),
        "railroad_coal_pile"
    );
    assert_eq!(
        ObstacleKind::Pillar.sprite_for_theme(Theme::Railroad),
        "railroad_semaphore"
    );
}

#[test]
fn obstacle_new_clamps_size_to_one_cell() {
    let o = Obstacle::new(4, 5, 0, -3, None);
    assert_eq!((o.x, o.y, o.width, o.height), (4, 5, 1, 1));
    assert_eq!(o.cells(), vec![(4, 5)]);
    assert_eq!(default_obstacle_size(), 1);
}

#[test]
fn obstacle_presets() {
    let r = Obstacle::rock_1x1(3, 2);
    assert_eq!(r, Obstacle::new(3, 2, 1, 1, Some(ObstacleKind::Rock)));
    let b = Obstacle::buoy_1x1(0, 0);
    assert_eq!(b.kind, Some(ObstacleKind::Buoy));
    assert_eq!(b.cells(), vec![(0, 0)]);
}

#[test]
fn obstacle_default_kinds_per_theme() {
    assert_eq!(ObstacleKind::default_for_theme(Theme::City), ObstacleKind::Rock);
    assert_eq!(ObstacleKind::default_for_theme(Theme::Marine), ObstacleKind::Buoy);
    assert_eq!(ObstacleKind::default_for_theme(Theme::Railroad), ObstacleKind::Barrier);
    assert_eq!(ObstacleKind::Buoy.railroad_sprite_name(), "railroad_buffer_stop");
}

#[test]
fn obstacle_cells_match_contains_cell() {
    let o = Obstacle::new(1, 1, 3, 2, None);
    let cells = o.cells();
    assert_eq!(cells.len(), 6);
    for y in -1..5 {
        for x in -1..6 {
            assert_eq!(o.contains_cell(x, y), cells.contains(&(x, y)));
        }
    }
}

#[test]
fn orientation_cells() {
    assert_eq!(Orientation::Horizontal.cells(1, 2, 3), vec![(1, 2), (2, 2), (3, 2)]);
    assert_eq!(Orientation::Vertical.cells(4, 0, 2), vec![(4, 0), (4, 1)]);
    assert!(Orientation::Vertical.cells(4, 0, 0).is_empty());
}

#[test]
fn vehicle_cells_match_contains_cell() {
    let v = Vehicle::new("t1", VehicleKind::TruckDelivery, 4, 2, 3, Orientation::Vertical, false);
    let cells = v.orientation.cells(v.x, v.y, v.length);
    assert_eq!(cells, vec![(4, 2), (4, 3), (4, 4)]);
    for y in 0..7 {
        for x in 0..7 {
            assert_eq!(v.contains_cell(x, y), cells.contains(&(x, y)));
        }
    }
}

#[test]
fn vehicle_new_keeps_fields() {
    let v = Vehicle::new("p", VehicleKind::PlayerRed, 1, 2, 2, Orientation::Horizontal, true);
    assert_eq!(v.id, "p");
    assert_eq!(v.kind, VehicleKind::PlayerRed);
    assert_eq!((v.x, v.y, v.length), (1, 2, 2));
    assert_eq!(v.orientation, Orientation::Horizontal);
    assert!(v.is_player);
    let c = v.clone();
    assert_eq!(c.id, "p");
    assert_eq!((c.x, c.y), (1, 2));
}

#[test]
fn emergency_vehicles() {
    assert!(VehicleKind::CarPolice.is_emergency());
    assert!(VehicleKind::Ambulance.is_emergency());
    assert!(!VehicleKind::CarSedanBlue.is_emergency());
    assert!(!VehicleKind::PlayerRed.is_emergency());
    assert!(!VehicleKind::BusTransit.is_emergency());
}

#[test]
fn vehicle_sprite_names() {
    assert_eq!(VehicleKind::PlayerRed.sprite_name(Orientation::Horizontal), "player_red_h");
    assert_eq!(VehicleKind::CarPolice.sprite_name(Orientation::Vertical), "car_police_v");
    assert_eq!(VehicleKind::Unknown.sprite_name(Orientation::Vertical), "player_red_v");
    assert_eq!(
        VehicleKind::PlayerRed.sprite_for_theme(Orientation::Horizontal, Theme::Marine),
        "ship_player_red_h"
    );
    assert_eq!(
        VehicleKind::PlayerRed.sprite_for_theme(Orientation::Vertical, Theme::Marine),
        "ship_player_red_v"
    );
    assert_eq!(
        VehicleKind::CarPolice.sprite_for_theme(Orientation::Horizontal, Theme::Marine),
        "ship_patrol_h"
    );
    assert_eq!(
        VehicleKind::Ambulance.sprite_for_theme(Orientation::Horizontal, Theme::Marine),
        "ship_sar_rescue_h"
    );
    assert_eq!(
        VehicleKind::BusTransit.sprite_for_theme(Orientation::Horizontal, Theme::City),
        "bus_transit_h"
    );
}

#[test]
fn channel_buoys_alternate_on_water() {
    let red = Obstacle::buoy_1x1(1, 1);
    let green = Obstacle::buoy_1x1(1, 2);
    assert_eq!(red.drawn_sprite_name(Theme::Marine), "marine_buoy");
    assert_eq!(green.drawn_sprite_name(Theme::Marine), "marine_buoy_green");
    assert_eq!(Obstacle::new(0, 1, 1, 1, None).drawn_sprite_name(Theme::Marine), "marine_buoy_green");
    assert_eq!(Obstacle::new(0, -1, 1, 1, None).drawn_sprite_name(Theme::Marine), "marine_buoy");
    assert_eq!(Obstacle::rock_1x1(1, 2).drawn_sprite_name(Theme::Marine), "marine_rock");
    assert_eq!(green.drawn_sprite_name(Theme::City), "city_pillar");
    assert_eq!(green.drawn_sprite_name(Theme::Railroad), "railroad_buffer_stop");
}
