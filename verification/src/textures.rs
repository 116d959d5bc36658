use vstd::prelude::*;

use crate::obstacle::{drawn_sprite_spec, obstacle_sprite_spec, Obstacle, ObstacleKind};
use crate::text::{chars_eq, chars_of};
use crate::theme::{background_key_spec, exit_gate_key_spec, ground_key_spec, Theme};
use crate::vehicle::{themed_sprite_spec, Orientation, VehicleKind};

verus! {

/// Every texture the game draws, by key, with its file below the asset directory.
pub open spec fn texture_table() -> Seq<(Seq<char>, Seq<char>)> {
    seq![
        ("badge_parking"@, "ui/badge_parking.png"@),
        ("star_gold"@, "ui/star_gold.png"@),
        ("star_empty"@, "ui/star_empty.png"@),
        ("icon_undo"@, "ui/icon_undo.png"@),
        ("icon_reset"@, "ui/icon_reset.png"@),
        ("icon_back"@, "ui/icon_back.png"@),
        ("icon_sound_on"@, "ui/icon_sound_on.png"@),
        ("icon_sound_off"@, "ui/icon_sound_off.png"@),
        ("city_background"@, "themes/city/environment/background.png"@),
        ("city_ground"@, "themes/city/environment/ground.png"@),
        ("stall_marker"@, "themes/city/environment/stall_marker.png"@),
        ("city_exit_gate"@, "themes/city/environment/exit_gate.png"@),
        ("city_rock"@, "themes/city/obstacles/rock.png"@),
        ("city_pillar"@, "themes/city/obstacles/pillar.png"@),
        ("city_barrier"@, "themes/city/obstacles/barrier.png"@),
        ("player_red_h"@, "themes/city/vehicles/player_red_h.png"@),
        ("player_red_v"@, "themes/city/vehicles/player_red_v.png"@),
        ("car_sedan_blue_h"@, "themes/city/vehicles/car_sedan_blue_h.png"@),
        ("car_sedan_blue_v"@, "themes/city/vehicles/car_sedan_blue_v.png"@),
        ("car_taxi_yellow_h"@, "themes/city/vehicles/car_taxi_yellow_h.png"@),
        ("car_taxi_yellow_v"@, "themes/city/vehicles/car_taxi_yellow_v.png"@),
        ("car_hatchback_green_h"@, "themes/city/vehicles/car_hatchback_green_h.png"@),
        ("car_hatchback_green_v"@, "themes/city/vehicles/car_hatchback_green_v.png"@),
        ("car_police_h"@, "themes/city/vehicles/car_police_h.png"@),
        ("car_police_v"@, "themes/city/vehicles/car_police_v.png"@),
        ("truck_delivery_h"@, "themes/city/vehicles/truck_delivery_h.png"@),
        ("truck_delivery_v"@, "themes/city/vehicles/truck_delivery_v.png"@),
        ("limo_white_h"@, "themes/city/vehicles/limo_white_h.png"@),
        ("limo_white_v"@, "themes/city/vehicles/limo_white_v.png"@),
        ("ambulance_h"@, "themes/city/vehicles/ambulance_h.png"@),
        ("ambulance_v"@, "themes/city/vehicles/ambulance_v.png"@),
        ("semi_truck_h"@, "themes/city/vehicles/semi_truck_h.png"@),
        ("semi_truck_v"@, "themes/city/vehicles/semi_truck_v.png"@),
        ("bus_transit_h"@, "themes/city/vehicles/bus_transit_h.png"@),
        ("bus_transit_v"@, "themes/city/vehicles/bus_transit_v.png"@),
        ("marine_background"@, "themes/marine/environment/background.png"@),
        ("marine_ground"@, "themes/marine/environment/ground.png"@),
        ("marine_exit_gate"@, "themes/marine/environment/exit_gate.png"@),
        ("marine_buoy"@, "themes/marine/obstacles/buoy.png"@),
        ("marine_buoy_green"@, "themes/marine/obstacles/buoy_green.png"@),
        ("marine_rock"@, "themes/marine/obstacles/rock.png"@),
        ("ship_player_red_h"@, "themes/marine/vehicles/ship_player_red_h.png"@),
        ("ship_player_red_v"@, "themes/marine/vehicles/ship_player_red_v.png"@),
        ("ship_sail_blue_h"@, "themes/marine/vehicles/ship_sail_blue_h.png"@),
        ("ship_sail_blue_v"@, "themes/marine/vehicles/ship_sail_blue_v.png"@),
        ("ship_taxi_yellow_h"@, "themes/marine/vehicles/ship_taxi_yellow_h.png"@),
        ("ship_taxi_yellow_v"@, "themes/marine/vehicles/ship_taxi_yellow_v.png"@),
        ("ship_tug_green_h"@, "themes/marine/vehicles/ship_tug_green_h.png"@),
        ("ship_tug_green_v"@, "themes/marine/vehicles/ship_tug_green_v.png"@),
        ("ship_patrol_h"@, "themes/marine/vehicles/ship_patrol_h.png"@),
        ("ship_patrol_v"@, "themes/marine/vehicles/ship_patrol_v.png"@),
        ("ship_cargo_h"@, "themes/marine/vehicles/ship_cargo_h.png"@),
        ("ship_cargo_v"@, "themes/marine/vehicles/ship_cargo_v.png"@),
        ("ship_yacht_white_h"@, "themes/marine/vehicles/ship_yacht_white_h.png"@),
        ("ship_yacht_white_v"@, "themes/marine/vehicles/ship_yacht_white_v.png"@),
        ("ship_sar_rescue_h"@, "themes/marine/vehicles/ship_sar_rescue_h.png"@),
        ("ship_sar_rescue_v"@, "themes/marine/vehicles/ship_sar_rescue_v.png"@),
        ("ship_container_h"@, "themes/marine/vehicles/ship_container_h.png"@),
        ("ship_container_v"@, "themes/marine/vehicles/ship_container_v.png"@),
        ("ship_ferry_h"@, "themes/marine/vehicles/ship_ferry_h.png"@),
        ("ship_ferry_v"@, "themes/marine/vehicles/ship_ferry_v.png"@),
        ("railroad_background"@, "themes/railroad/environment/background.png"@),
        ("railroad_ground"@, "themes/railroad/environment/ground.png"@),
        ("railroad_exit_gate"@, "themes/railroad/environment/exit_gate.png"@),
        ("railroad_buffer_stop"@, "themes/railroad/obstacles/buffer_stop.png"@),
        ("railroad_coal_pile"@, "themes/railroad/obstacles/coal_pile.png"@),
        ("railroad_semaphore"@, "themes/railroad/obstacles/semaphore.png"@),
        ("railroad_rock"@, "themes/railroad/obstacles/rock.png"@),
        ("train_locomotive_red_h"@, "themes/railroad/vehicles/train_locomotive_red_h.png"@),
        ("train_locomotive_red_v"@, "themes/railroad/vehicles/train_locomotive_red_v.png"@),
        ("train_coach_blue_h"@, "themes/railroad/vehicles/train_coach_blue_h.png"@),
        ("train_coach_blue_v"@, "themes/railroad/vehicles/train_coach_blue_v.png"@),
        ("train_tanker_yellow_h"@, "themes/railroad/vehicles/train_tanker_yellow_h.png"@),
        ("train_tanker_yellow_v"@, "themes/railroad/vehicles/train_tanker_yellow_v.png"@),
        ("train_shunter_green_h"@, "themes/railroad/vehicles/train_shunter_green_h.png"@),
        ("train_shunter_green_v"@, "themes/railroad/vehicles/train_shunter_green_v.png"@),
        ("train_caboose_red_h"@, "themes/railroad/vehicles/train_caboose_red_h.png"@),
        ("train_caboose_red_v"@, "themes/railroad/vehicles/train_caboose_red_v.png"@),
        ("train_cargo_flat_h"@, "themes/railroad/vehicles/train_cargo_flat_h.png"@),
        ("train_cargo_flat_v"@, "themes/railroad/vehicles/train_cargo_flat_v.png"@),
        ("train_luxury_pullman_h"@, "themes/railroad/vehicles/train_luxury_pullman_h.png"@),
        ("train_luxury_pullman_v"@, "themes/railroad/vehicles/train_luxury_pullman_v.png"@),
        ("train_heavy_crane_h"@, "themes/railroad/vehicles/train_heavy_crane_h.png"@),
        ("train_heavy_crane_v"@, "themes/railroad/vehicles/train_heavy_crane_v.png"@),
        ("train_coal_hopper_h"@, "themes/railroad/vehicles/train_coal_hopper_h.png"@),
        ("train_coal_hopper_v"@, "themes/railroad/vehicles/train_coal_hopper_v.png"@),
        ("train_passenger_long_h"@, "themes/railroad/vehicles/train_passenger_long_h.png"@),
        ("train_passenger_long_v"@, "themes/railroad/vehicles/train_passenger_long_v.png"@),
    ]
}

/// Whether some texture file is listed for `key`.
pub open spec fn has_texture(key: Seq<char>) -> bool {
    exists|i: int| 0 <= i < texture_table().len() && #[trigger] texture_table()[i].0 == key
}

/// The texture table as values the program can walk through.
pub fn texture_entries() -> (v: Vec<(&'static str, &'static str)>)
    ensures
        v@.map_values(|e: (&'static str, &'static str)| (e.0@, e.1@)) == texture_table(),
{
    let mut v: Vec<(&'static str, &'static str)> = Vec::new();
    v.push(("badge_parking", "ui/badge_parking.png"));
    v.push(("star_gold", "ui/star_gold.png"));
    v.push(("star_empty", "ui/star_empty.png"));
    v.push(("icon_undo", "ui/icon_undo.png"));
    v.push(("icon_reset", "ui/icon_reset.png"));
    v.push(("icon_back", "ui/icon_back.png"));
    v.push(("icon_sound_on", "ui/icon_sound_on.png"));
    v.push(("icon_sound_off", "ui/icon_sound_off.png"));
    v.push(("city_background", "themes/city/environment/background.png"));
    v.push(("city_ground", "themes/city/environment/ground.png"));
    v.push(("stall_marker", "themes/city/environment/stall_marker.png"));
    v.push(("city_exit_gate", "themes/city/environment/exit_gate.png"));
    v.push(("city_rock", "themes/city/obstacles/rock.png"));
    v.push(("city_pillar", "themes/city/obstacles/pillar.png"));
    v.push(("city_barrier", "themes/city/obstacles/barrier.png"));
    v.push(("player_red_h", "themes/city/vehicles/player_red_h.png"));
    v.push(("player_red_v", "themes/city/vehicles/player_red_v.png"));
    v.push(("car_sedan_blue_h", "themes/city/vehicles/car_sedan_blue_h.png"));
    v.push(("car_sedan_blue_v", "themes/city/vehicles/car_sedan_blue_v.png"));
    v.push(("car_taxi_yellow_h", "themes/city/vehicles/car_taxi_yellow_h.png"));
    v.push(("car_taxi_yellow_v", "themes/city/vehicles/car_taxi_yellow_v.png"));
    v.push(("car_hatchback_green_h", "themes/city/vehicles/car_hatchback_green_h.png"));
    v.push(("car_hatchback_green_v", "themes/city/vehicles/car_hatchback_green_v.png"));
    v.push(("car_police_h", "themes/city/vehicles/car_police_h.png"));
    v.push(("car_police_v", "themes/city/vehicles/car_police_v.png"));
    v.push(("truck_delivery_h", "themes/city/vehicles/truck_delivery_h.png"));
    v.push(("truck_delivery_v", "themes/city/vehicles/truck_delivery_v.png"));
    v.push(("limo_white_h", "themes/city/vehicles/limo_white_h.png"));
    v.push(("limo_white_v", "themes/city/vehicles/limo_white_v.png"));
    v.push(("ambulance_h", "themes/city/vehicles/ambulance_h.png"));
    v.push(("ambulance_v", "themes/city/vehicles/ambulance_v.png"));
    v.push(("semi_truck_h", "themes/city/vehicles/semi_truck_h.png"));
    v.push(("semi_truck_v", "themes/city/vehicles/semi_truck_v.png"));
    v.push(("bus_transit_h", "themes/city/vehicles/bus_transit_h.png"));
    v.push(("bus_transit_v", "themes/city/vehicles/bus_transit_v.png"));
    v.push(("marine_background", "themes/marine/environment/background.png"));
    v.push(("marine_ground", "themes/marine/environment/ground.png"));
    v.push(("marine_exit_gate", "themes/marine/environment/exit_gate.png"));
    v.push(("marine_buoy", "themes/marine/obstacles/buoy.png"));
    v.push(("marine_buoy_green", "themes/marine/obstacles/buoy_green.png"));
    v.push(("marine_rock", "themes/marine/obstacles/rock.png"));
    v.push(("ship_player_red_h", "themes/marine/vehicles/ship_player_red_h.png"));
    v.push(("ship_player_red_v", "themes/marine/vehicles/ship_player_red_v.png"));
    v.push(("ship_sail_blue_h", "themes/marine/vehicles/ship_sail_blue_h.png"));
    v.push(("ship_sail_blue_v", "themes/marine/vehicles/ship_sail_blue_v.png"));
    v.push(("ship_taxi_yellow_h", "themes/marine/vehicles/ship_taxi_yellow_h.png"));
    v.push(("ship_taxi_yellow_v", "themes/marine/vehicles/ship_taxi_yellow_v.png"));
    v.push(("ship_tug_green_h", "themes/marine/vehicles/ship_tug_green_h.png"));
    v.push(("ship_tug_green_v", "themes/marine/vehicles/ship_tug_green_v.png"));
    v.push(("ship_patrol_h", "themes/marine/vehicles/ship_patrol_h.png"));
    v.push(("ship_patrol_v", "themes/marine/vehicles/ship_patrol_v.png"));
    v.push(("ship_cargo_h", "themes/marine/vehicles/ship_cargo_h.png"));
    v.push(("ship_cargo_v", "themes/marine/vehicles/ship_cargo_v.png"));
    v.push(("ship_yacht_white_h", "themes/marine/vehicles/ship_yacht_white_h.png"));
    v.push(("ship_yacht_white_v", "themes/marine/vehicles/ship_yacht_white_v.png"));
    v.push(("ship_sar_rescue_h", "themes/marine/vehicles/ship_sar_rescue_h.png"));
    v.push(("ship_sar_rescue_v", "themes/marine/vehicles/ship_sar_rescue_v.png"));
    v.push(("ship_container_h", "themes/marine/vehicles/ship_container_h.png"));
    v.push(("ship_container_v", "themes/marine/vehicles/ship_container_v.png"));
    v.push(("ship_ferry_h", "themes/marine/vehicles/ship_ferry_h.png"));
    v.push(("ship_ferry_v", "themes/marine/vehicles/ship_ferry_v.png"));
    v.push(("railroad_background", "themes/railroad/environment/background.png"));
    v.push(("railroad_ground", "themes/railroad/environment/ground.png"));
    v.push(("railroad_exit_gate", "themes/railroad/environment/exit_gate.png"));
    v.push(("railroad_buffer_stop", "themes/railroad/obstacles/buffer_stop.png"));
    v.push(("railroad_coal_pile", "themes/railroad/obstacles/coal_pile.png"));
    v.push(("railroad_semaphore", "themes/railroad/obstacles/semaphore.png"));
    v.push(("railroad_rock", "themes/railroad/obstacles/rock.png"));
    v.push(("train_locomotive_red_h", "themes/railroad/vehicles/train_locomotive_red_h.png"));
    v.push(("train_locomotive_red_v", "themes/railroad/vehicles/train_locomotive_red_v.png"));
    v.push(("train_coach_blue_h", "themes/railroad/vehicles/train_coach_blue_h.png"));
    v.push(("train_coach_blue_v", "themes/railroad/vehicles/train_coach_blue_v.png"));
    v.push(("train_tanker_yellow_h", "themes/railroad/vehicles/train_tanker_yellow_h.png"));
    v.push(("train_tanker_yellow_v", "themes/railroad/vehicles/train_tanker_yellow_v.png"));
    v.push(("train_shunter_green_h", "themes/railroad/vehicles/train_shunter_green_h.png"));
    v.push(("train_shunter_green_v", "themes/railroad/vehicles/train_shunter_green_v.png"));
    v.push(("train_caboose_red_h", "themes/railroad/vehicles/train_caboose_red_h.png"));
    v.push(("train_caboose_red_v", "themes/railroad/vehicles/train_caboose_red_v.png"));
    v.push(("train_cargo_flat_h", "themes/railroad/vehicles/train_cargo_flat_h.png"));
    v.push(("train_cargo_flat_v", "themes/railroad/vehicles/train_cargo_flat_v.png"));
    v.push(("train_luxury_pullman_h", "themes/railroad/vehicles/train_luxury_pullman_h.png"));
    v.push(("train_luxury_pullman_v", "themes/railroad/vehicles/train_luxury_pullman_v.png"));
    v.push(("train_heavy_crane_h", "themes/railroad/vehicles/train_heavy_crane_h.png"));
    v.push(("train_heavy_crane_v", "themes/railroad/vehicles/train_heavy_crane_v.png"));
    v.push(("train_coal_hopper_h", "themes/railroad/vehicles/train_coal_hopper_h.png"));
    v.push(("train_coal_hopper_v", "themes/railroad/vehicles/train_coal_hopper_v.png"));
    v.push(("train_passenger_long_h", "themes/railroad/vehicles/train_passenger_long_h.png"));
    v.push(("train_passenger_long_v", "themes/railroad/vehicles/train_passenger_long_v.png"));
    assert(v@.map_values(|e: (&'static str, &'static str)| (e.0@, e.1@)) =~= texture_table());
    v
}

/// The file of texture `name`: the first entry of the table with that key,
/// or `None` when the table lists none.
pub fn texture_file(name: &str) -> (r: Option<&'static str>)
    ensures
        r is Some <==> has_texture(name@),
        r matches Some(f) ==> exists|i: int|
            0 <= i < texture_table().len() && texture_table()[i] == (name@, f@) && forall|j: int|
                0 <= j < i ==> (#[trigger] texture_table()[j]).0 != name@,
{
    let entries = texture_entries();
    let ghost t = texture_table();
    let key = chars_of(name);
    let mut i: usize = 0;
    while i < entries.len()
        invariant
            entries@.map_values(|e: (&'static str, &'static str)| (e.0@, e.1@)) == t,
            t == texture_table(),
            key@ == name@,
            i <= entries@.len(),
            forall|j: int| 0 <= j < i ==> (#[trigger] t[j]).0 != name@,
        decreases entries@.len() - i,
    {
        let (k, f) = entries[i];
        assert(t[i as int] == (k@, f@));
        let kc = chars_of(k);
        if chars_eq(key.as_slice(), kc.as_slice()) {
            assert(texture_table()[i as int].0 == name@);
            return Some(f);
        }
        i = i + 1;
    }
    proof {
        if has_texture(name@) {
            let j = choose|j: int| 0 <= j < texture_table().len() && #[trigger] texture_table()[j].0 == name@;
            assert(t[j].0 != name@);
        }
    }
    None
}

/// Every texture key the library hands out has a file: the backgrounds,
/// grounds and exit gates of each theme, every vehicle and obstacle sprite in
/// every theme and orientation, and the stars and icons of the interface.
pub proof fn lemma_library_keys_have_textures()
    ensures
        forall|t: Theme| #[trigger] has_texture(background_key_spec(t)),
        forall|t: Theme| #[trigger] has_texture(ground_key_spec(t)),
        forall|t: Theme| #[trigger] has_texture(exit_gate_key_spec(t)),
        forall|k: VehicleKind, o: Orientation, t: Theme| #[trigger] has_texture(themed_sprite_spec(k, o, t)),
        forall|k: ObstacleKind, t: Theme| #[trigger] has_texture(obstacle_sprite_spec(k, t)),
        forall|o: Obstacle, t: Theme| #[trigger] has_texture(drawn_sprite_spec(o, t)),
        has_texture("badge_parking"@),
        has_texture("star_gold"@),
        has_texture("star_empty"@),
        has_texture("icon_undo"@),
        has_texture("icon_reset"@),
        has_texture("icon_back"@),
        has_texture("icon_sound_on"@),
        has_texture("icon_sound_off"@),
{
    let tt = texture_table();
    assert(tt[0].0 == "badge_parking"@);
    assert(tt[1].0 == "star_gold"@);
    assert(tt[2].0 == "star_empty"@);
    assert(tt[3].0 == "icon_undo"@);
    assert(tt[4].0 == "icon_reset"@);
    assert(tt[5].0 == "icon_back"@);
    assert(tt[6].0 == "icon_sound_on"@);
    assert(tt[7].0 == "icon_sound_off"@);
    assert forall|t: Theme| #[trigger] has_texture(background_key_spec(t)) by {
        match t {
            Theme::City => assert(tt[8].0 == background_key_spec(t)),
            Theme::Marine => assert(tt[35].0 == background_key_spec(t)),
            Theme::Railroad => assert(tt[61].0 == background_key_spec(t)),
        }
    }
    assert forall|t: Theme| #[trigger] has_texture(ground_key_spec(t)) by {
        match t {
            Theme::City => assert(tt[9].0 == ground_key_spec(t)),
            Theme::Marine => assert(tt[36].0 == ground_key_spec(t)),
            Theme::Railroad => assert(tt[62].0 == ground_key_spec(t)),
        }
    }
    assert forall|t: Theme| #[trigger] has_texture(exit_gate_key_spec(t)) by {
        match t {
            Theme::City => assert(tt[11].0 == exit_gate_key_spec(t)),
            Theme::Marine => assert(tt[37].0 == exit_gate_key_spec(t)),
            Theme::Railroad => assert(tt[63].0 == exit_gate_key_spec(t)),
        }
    }
    assert forall|k: VehicleKind, o: Orientation, t: Theme| #[trigger] has_texture(themed_sprite_spec(k, o, t)) by {
        match t {
            Theme::City => match k {
                VehicleKind::PlayerRed => match o {
                    Orientation::Horizontal => assert(tt[15].0 == themed_sprite_spec(k, o, t)),
                    Orientation::Vertical => assert(tt[16].0 == themed_sprite_spec(k, o, t)),
                },
                VehicleKind::CarSedanBlue => match o {
                    Orientation::Horizontal => assert(tt[17].0 == themed_sprite_spec(k, o, t)),
                    Orientation::Vertical => assert(tt[18].0 == themed_sprite_spec(k, o, t)),
                },
                VehicleKind::CarTaxiYellow => match o {
                    Orientation::Horizontal => assert(tt[19].0 == themed_sprite_spec(k, o, t)),
                    Orientation::Vertical => assert(tt[20].0 == themed_sprite_spec(k, o, t)),
                },
                VehicleKind::CarHatchbackGreen => match o {
                    Orientation::Horizontal => assert(tt[21].0 == themed_sprite_spec(k, o, t)),
                    Orientation::Vertical => assert(tt[22].0 == themed_sprite_spec(k, o, t)),
                },
                VehicleKind::CarPolice => match o {
                    Orientation::Horizontal => assert(tt[23].0 == themed_sprite_spec(k, o, t)),
                    Orientation::Vertical => assert(tt[24].0 == themed_sprite_spec(k, o, t)),
                },
                VehicleKind::TruckDelivery => match o {
                    Orientation::Horizontal => assert(tt[25].0 == themed_sprite_spec(k, o, t)),
                    Orientation::Vertical => assert(tt[26].0 == themed_sprite_spec(k, o, t)),
                },
                VehicleKind::LimoWhite => match o {
                    Orientation::Horizontal => assert(tt[27].0 == themed_sprite_spec(k, o, t)),
                    Orientation::Vertical => assert(tt[28].0 == themed_sprite_spec(k, o, t)),
                },
                VehicleKind::Ambulance => match o {
                    Orientation::Horizontal => assert(tt[29].0 == themed_sprite_spec(k, o, t)),
                    Orientation::Vertical => assert(tt[30].0 == themed_sprite_spec(k, o, t)),
                },
                VehicleKind::SemiTruck => match o {
                    Orientation::Horizontal => assert(tt[31].0 == themed_sprite_spec(k, o, t)),
                    Orientation::Vertical => assert(tt[32].0 == themed_sprite_spec(k, o, t)),
                },
                VehicleKind::BusTransit => match o {
                    Orientation::Horizontal => assert(tt[33].0 == themed_sprite_spec(k, o, t)),
                    Orientation::Vertical => assert(tt[34].0 == themed_sprite_spec(k, o, t)),
                },
                VehicleKind::Unknown => match o {
                    Orientation::Horizontal => assert(tt[15].0 == themed_sprite_spec(k, o, t)),
                    Orientation::Vertical => assert(tt[16].0 == themed_sprite_spec(k, o, t)),
                },
            },
            Theme::Marine => match k {
                VehicleKind::PlayerRed => match o {
                    Orientation::Horizontal => assert(tt[41].0 == themed_sprite_spec(k, o, t)),
                    Orientation::Vertical => assert(tt[42].0 == themed_sprite_spec(k, o, t)),
                },
                VehicleKind::CarSedanBlue => match o {
                    Orientation::Horizontal => assert(tt[43].0 == themed_sprite_spec(k, o, t)),
                    Orientation::Vertical => assert(tt[44].0 == themed_sprite_spec(k, o, t)),
                },
                VehicleKind::CarTaxiYellow => match o {
                    Orientation::Horizontal => assert(tt[45].0 == themed_sprite_spec(k, o, t)),
                    Orientation::Vertical => assert(tt[46].0 == themed_sprite_spec(k, o, t)),
                },
                VehicleKind::CarHatchbackGreen => match o {
                    Orientation::Horizontal => assert(tt[47].0 == themed_sprite_spec(k, o, t)),
                    Orientation::Vertical => assert(tt[48].0 == themed_sprite_spec(k, o, t)),
                },
                VehicleKind::CarPolice => match o {
                    Orientation::Horizontal => assert(tt[49].0 == themed_sprite_spec(k, o, t)),
                    Orientation::Vertical => assert(tt[50].0 == themed_sprite_spec(k, o, t)),
                },
                VehicleKind::TruckDelivery => match o {
                    Orientation::Horizontal => assert(tt[51].0 == themed_sprite_spec(k, o, t)),
                    Orientation::Vertical => assert(tt[52].0 == themed_sprite_spec(k, o, t)),
                },
                VehicleKind::LimoWhite => match o {
                    Orientation::Horizontal => assert(tt[53].0 == themed_sprite_spec(k, o, t)),
                    Orientation::Vertical => assert(tt[54].0 == themed_sprite_spec(k, o, t)),
                },
                VehicleKind::Ambulance => match o {
                    Orientation::Horizontal => assert(tt[55].0 == themed_sprite_spec(k, o, t)),
                    Orientation::Vertical => assert(tt[56].0 == themed_sprite_spec(k, o, t)),
                },
                VehicleKind::SemiTruck => match o {
                    Orientation::Horizontal => assert(tt[57].0 == themed_sprite_spec(k, o, t)),
                    Orientation::Vertical => assert(tt[58].0 == themed_sprite_spec(k, o, t)),
                },
                VehicleKind::BusTransit => match o {
                    Orientation::Horizontal => assert(tt[59].0 == themed_sprite_spec(k, o, t)),
                    Orientation::Vertical => assert(tt[60].0 == themed_sprite_spec(k, o, t)),
                },
                VehicleKind::Unknown => match o {
                    Orientation::Horizontal => assert(tt[41].0 == themed_sprite_spec(k, o, t)),
                    Orientation::Vertical => assert(tt[42].0 == themed_sprite_spec(k, o, t)),
                },
            },
            Theme::Railroad => match k {
                VehicleKind::PlayerRed => match o {
                    Orientation::Horizontal => assert(tt[68].0 == themed_sprite_spec(k, o, t)),
                    Orientation::Vertical => assert(tt[69].0 == themed_sprite_spec(k, o, t)),
                },
                VehicleKind::CarSedanBlue => match o {
                    Orientation::Horizontal => assert(tt[70].0 == themed_sprite_spec(k, o, t)),
                    Orientation::Vertical => assert(tt[71].0 == themed_sprite_spec(k, o, t)),
                },
                VehicleKind::CarTaxiYellow => match o {
                    Orientation::Horizontal => assert(tt[72].0 == themed_sprite_spec(k, o, t)),
                    Orientation::Vertical => assert(tt[73].0 == themed_sprite_spec(k, o, t)),
                },
                VehicleKind::CarHatchbackGreen => match o {
                    Orientation::Horizontal => assert(tt[74].0 == themed_sprite_spec(k, o, t)),
                    Orientation::Vertical => assert(tt[75].0 == themed_sprite_spec(k, o, t)),
                },
                VehicleKind::CarPolice => match o {
                    Orientation::Horizontal => assert(tt[76].0 == themed_sprite_spec(k, o, t)),
                    Orientation::Vertical => assert(tt[77].0 == themed_sprite_spec(k, o, t)),
                },
                VehicleKind::TruckDelivery => match o {
                    Orientation::Horizontal => assert(tt[78].0 == themed_sprite_spec(k, o, t)),
                    Orientation::Vertical => assert(tt[79].0 == themed_sprite_spec(k, o, t)),
                },
                VehicleKind::LimoWhite => match o {
                    Orientation::Horizontal => assert(tt[80].0 == themed_sprite_spec(k, o, t)),
                    Orientation::Vertical => assert(tt[81].0 == themed_sprite_spec(k, o, t)),
                },
                VehicleKind::Ambulance => match o {
                    Orientation::Horizontal => assert(tt[82].0 == themed_sprite_spec(k, o, t)),
                    Orientation::Vertical => assert(tt[83].0 == themed_sprite_spec(k, o, t)),
                },
                VehicleKind::SemiTruck => match o {
                    Orientation::Horizontal => assert(tt[84].0 == themed_sprite_spec(k, o, t)),
                    Orientation::Vertical => assert(tt[85].0 == themed_sprite_spec(k, o, t)),
                },
                VehicleKind::BusTransit => match o {
                    Orientation::Horizontal => assert(tt[86].0 == themed_sprite_spec(k, o, t)),
                    Orientation::Vertical => assert(tt[87].0 == themed_sprite_spec(k, o, t)),
                },
                VehicleKind::Unknown => match o {
                    Orientation::Horizontal => assert(tt[68].0 == themed_sprite_spec(k, o, t)),
                    Orientation::Vertical => assert(tt[69].0 == themed_sprite_spec(k, o, t)),
                },
            },
        }
    }
    assert forall|k: ObstacleKind, t: Theme| #[trigger] has_texture(obstacle_sprite_spec(k, t)) by {
        match t {
            Theme::City => match k {
                ObstacleKind::Rock => assert(tt[12].0 == obstacle_sprite_spec(k, t)),
                ObstacleKind::Pillar => assert(tt[13].0 == obstacle_sprite_spec(k, t)),
                ObstacleKind::Barrier => assert(tt[14].0 == obstacle_sprite_spec(k, t)),
                ObstacleKind::Buoy => assert(tt[13].0 == obstacle_sprite_spec(k, t)),
                ObstacleKind::Unknown => assert(tt[12].0 == obstacle_sprite_spec(k, t)),
            },
            Theme::Marine => match k {
                ObstacleKind::Rock => assert(tt[40].0 == obstacle_sprite_spec(k, t)),
                ObstacleKind::Barrier => assert(tt[40].0 == obstacle_sprite_spec(k, t)),
                ObstacleKind::Buoy => assert(tt[38].0 == obstacle_sprite_spec(k, t)),
                ObstacleKind::Pillar => assert(tt[38].0 == obstacle_sprite_spec(k, t)),
                ObstacleKind::Unknown => assert(tt[38].0 == obstacle_sprite_spec(k, t)),
            },
            Theme::Railroad => match k {
                ObstacleKind::Rock => assert(tt[65].0 == obstacle_sprite_spec(k, t)),
                ObstacleKind::Barrier => assert(tt[64].0 == obstacle_sprite_spec(k, t)),
                ObstacleKind::Buoy => assert(tt[64].0 == obstacle_sprite_spec(k, t)),
                ObstacleKind::Pillar => assert(tt[66].0 == obstacle_sprite_spec(k, t)),
                ObstacleKind::Unknown => assert(tt[64].0 == obstacle_sprite_spec(k, t)),
            },
        }
    }
    assert forall|o: Obstacle, t: Theme| #[trigger] has_texture(drawn_sprite_spec(o, t)) by {
        assert(tt[39].0 == "marine_buoy_green"@);
        assert(has_texture(obstacle_sprite_spec(o.kind_for(t), t)));
    }
}

} // verus!
