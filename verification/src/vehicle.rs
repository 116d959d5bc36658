use vstd::prelude::*;

use crate::theme::Theme;

verus! {

/// Axis along which a vehicle is parked and may slide.
#[derive(Debug, Clone, Copy, PartialEq, Eq, Hash, Structural)]
pub enum Orientation {
    Horizontal,
    Vertical,
}

/// The `i`-th cell of a straight run of cells starting at `(x, y)`.
pub open spec fn line_cell(orient: Orientation, x: i32, y: i32, i: int) -> (i32, i32) {
    match orient {
        Orientation::Horizontal => ((x + i) as i32, y),
        Orientation::Vertical => (x, (y + i) as i32),
    }
}

/// The `length` cells of a straight run starting at `(x, y)`, front last.
pub open spec fn line_cells(orient: Orientation, x: i32, y: i32, length: i32) -> Seq<(i32, i32)> {
    if length <= 0 {
        Seq::empty()
    } else {
        Seq::new(length as nat, |i: int| line_cell(orient, x, y, i))
    }
}

/// Whether the run of cells lies within the range of `i32`.
pub open spec fn line_fits(orient: Orientation, x: i32, y: i32, length: i32) -> bool {
    length <= 0 || match orient {
        Orientation::Horizontal => x + length - 1 <= i32::MAX,
        Orientation::Vertical => y + length - 1 <= i32::MAX,
    }
}

impl Orientation {
    /// The grid cells occupied by a vehicle of `length` whose rear cell is `(x, y)`.
    pub fn cells(self, x: i32, y: i32, length: i32) -> (v: Vec<(i32, i32)>)
        requires
            line_fits(self, x, y, length),
        ensures
            v@ == line_cells(self, x, y, length),
    {
        let mut v: Vec<(i32, i32)> = Vec::new();
        let mut i: i32 = 0;
        while i < length
            invariant
                line_fits(self, x, y, length),
                0 <= i,
                length > 0 ==> i <= length,
                length <= 0 ==> i == 0,
                v@ == Seq::new(i as nat, |k: int| line_cell(self, x, y, k)),
            decreases length - i,
        {
            let c = match self {
                Orientation::Horizontal => (x + i, y),
                Orientation::Vertical => (x, y + i),
            };
            v.push(c);
            proof {
                assert(v@ =~= Seq::new((i + 1) as nat, |k: int| line_cell(self, x, y, k)));
            }
            i = i + 1;
        }
        proof {
            if length <= 0 {
                assert(v@ =~= Seq::<(i32, i32)>::empty());
            }
        }
        v
    }
}

/// Kinds (and looks) of vehicles.
#[derive(Debug, Clone, Copy, PartialEq, Eq, Hash, Structural)]
pub enum VehicleKind {
    PlayerRed,
    CarSedanBlue,
    CarTaxiYellow,
    CarHatchbackGreen,
    CarPolice,
    TruckDelivery,
    LimoWhite,
    Ambulance,
    SemiTruck,
    BusTransit,
    Unknown,
}

pub open spec fn is_emergency_spec(kind: VehicleKind) -> bool {
    kind == VehicleKind::CarPolice || kind == VehicleKind::Ambulance
}

/// Road sprite names: the base name and the orientation suffix `_h` / `_v`.
pub open spec fn city_sprite_spec(kind: VehicleKind, o: Orientation) -> Seq<char> {
    let h = o == Orientation::Horizontal;
    match kind {
        VehicleKind::PlayerRed => if h { "player_red_h"@ } else { "player_red_v"@ },
        VehicleKind::CarSedanBlue => if h { "car_sedan_blue_h"@ } else { "car_sedan_blue_v"@ },
        VehicleKind::CarTaxiYellow => if h { "car_taxi_yellow_h"@ } else { "car_taxi_yellow_v"@ },
        VehicleKind::CarHatchbackGreen => if h { "car_hatchback_green_h"@ } else { "car_hatchback_green_v"@ },
        VehicleKind::CarPolice => if h { "car_police_h"@ } else { "car_police_v"@ },
        VehicleKind::TruckDelivery => if h { "truck_delivery_h"@ } else { "truck_delivery_v"@ },
        VehicleKind::LimoWhite => if h { "limo_white_h"@ } else { "limo_white_v"@ },
        VehicleKind::Ambulance => if h { "ambulance_h"@ } else { "ambulance_v"@ },
        VehicleKind::SemiTruck => if h { "semi_truck_h"@ } else { "semi_truck_v"@ },
        VehicleKind::BusTransit => if h { "bus_transit_h"@ } else { "bus_transit_v"@ },
        VehicleKind::Unknown => if h { "player_red_h"@ } else { "player_red_v"@ },
    }
}

/// Vessel sprite names used on water.
pub open spec fn marine_sprite_spec(kind: VehicleKind, o: Orientation) -> Seq<char> {
    let h = o == Orientation::Horizontal;
    match kind {
        VehicleKind::PlayerRed => if h { "ship_player_red_h"@ } else { "ship_player_red_v"@ },
        VehicleKind::CarSedanBlue => if h { "ship_sail_blue_h"@ } else { "ship_sail_blue_v"@ },
        VehicleKind::CarTaxiYellow => if h { "ship_taxi_yellow_h"@ } else { "ship_taxi_yellow_v"@ },
        VehicleKind::CarHatchbackGreen => if h { "ship_tug_green_h"@ } else { "ship_tug_green_v"@ },
        VehicleKind::CarPolice => if h { "ship_patrol_h"@ } else { "ship_patrol_v"@ },
        VehicleKind::TruckDelivery => if h { "ship_cargo_h"@ } else { "ship_cargo_v"@ },
        VehicleKind::LimoWhite => if h { "ship_yacht_white_h"@ } else { "ship_yacht_white_v"@ },
        VehicleKind::Ambulance => if h { "ship_sar_rescue_h"@ } else { "ship_sar_rescue_v"@ },
        VehicleKind::SemiTruck => if h { "ship_container_h"@ } else { "ship_container_v"@ },
        VehicleKind::BusTransit => if h { "ship_ferry_h"@ } else { "ship_ferry_v"@ },
        VehicleKind::Unknown => if h { "ship_player_red_h"@ } else { "ship_player_red_v"@ },
    }
}

/// Rolling-stock sprite names used on rails.
pub open spec fn railroad_sprite_spec(kind: VehicleKind, o: Orientation) -> Seq<char> {
    let h = o == Orientation::Horizontal;
    match kind {
        VehicleKind::PlayerRed => if h { "train_locomotive_red_h"@ } else { "train_locomotive_red_v"@ },
        VehicleKind::CarSedanBlue => if h { "train_coach_blue_h"@ } else { "train_coach_blue_v"@ },
        VehicleKind::CarTaxiYellow => if h { "train_tanker_yellow_h"@ } else { "train_tanker_yellow_v"@ },
        VehicleKind::CarHatchbackGreen => if h { "train_shunter_green_h"@ } else { "train_shunter_green_v"@ },
        VehicleKind::CarPolice => if h { "train_caboose_red_h"@ } else { "train_caboose_red_v"@ },
        VehicleKind::TruckDelivery => if h { "train_cargo_flat_h"@ } else { "train_cargo_flat_v"@ },
        VehicleKind::LimoWhite => if h { "train_luxury_pullman_h"@ } else { "train_luxury_pullman_v"@ },
        VehicleKind::Ambulance => if h { "train_heavy_crane_h"@ } else { "train_heavy_crane_v"@ },
        VehicleKind::SemiTruck => if h { "train_coal_hopper_h"@ } else { "train_coal_hopper_v"@ },
        VehicleKind::BusTransit => if h { "train_passenger_long_h"@ } else { "train_passenger_long_v"@ },
        VehicleKind::Unknown => if h { "train_locomotive_red_h"@ } else { "train_locomotive_red_v"@ },
    }
}

pub open spec fn themed_sprite_spec(kind: VehicleKind, o: Orientation, theme: Theme) -> Seq<char> {
    match theme {
        Theme::City => city_sprite_spec(kind, o),
        Theme::Marine => marine_sprite_spec(kind, o),
        Theme::Railroad => railroad_sprite_spec(kind, o),
    }
}

impl VehicleKind {
    /// Police cars and ambulances are emergency vehicles.
    pub fn is_emergency(&self) -> (b: bool)
        ensures
            b == is_emergency_spec(*self),
    {
        match self {
            VehicleKind::CarPolice | VehicleKind::Ambulance => true,
            _ => false,
        }
    }

    /// Road sprite of this kind in the given orientation.
    pub fn sprite_name(&self, orientation: Orientation) -> (s: &'static str)
        ensures
            s@ == city_sprite_spec(*self, orientation),
    {
        let h = match orientation {
            Orientation::Horizontal => true,
            Orientation::Vertical => false,
        };
        match self {
            VehicleKind::PlayerRed => if h { "player_red_h" } else { "player_red_v" },
            VehicleKind::CarSedanBlue => if h { "car_sedan_blue_h" } else { "car_sedan_blue_v" },
            VehicleKind::CarTaxiYellow => if h { "car_taxi_yellow_h" } else { "car_taxi_yellow_v" },
            VehicleKind::CarHatchbackGreen => if h { "car_hatchback_green_h" } else { "car_hatchback_green_v" },
            VehicleKind::CarPolice => if h { "car_police_h" } else { "car_police_v" },
            VehicleKind::TruckDelivery => if h { "truck_delivery_h" } else { "truck_delivery_v" },
            VehicleKind::LimoWhite => if h { "limo_white_h" } else { "limo_white_v" },
            VehicleKind::Ambulance => if h { "ambulance_h" } else { "ambulance_v" },
            VehicleKind::SemiTruck => if h { "semi_truck_h" } else { "semi_truck_v" },
            VehicleKind::BusTransit => if h { "bus_transit_h" } else { "bus_transit_v" },
            VehicleKind::Unknown => if h { "player_red_h" } else { "player_red_v" },
        }
    }

    /// Sprite of this kind for the theme of the level: cars in the city,
    /// vessels on water, rolling stock on rails.
    pub fn sprite_for_theme(&self, orientation: Orientation, theme: Theme) -> (s: &'static str)
        ensures
            s@ == themed_sprite_spec(*self, orientation, theme),
    {
        let h = match orientation {
            Orientation::Horizontal => true,
            Orientation::Vertical => false,
        };
        match theme {
            Theme::City => self.sprite_name(orientation),
            Theme::Marine => match self {
                VehicleKind::PlayerRed => if h { "ship_player_red_h" } else { "ship_player_red_v" },
                VehicleKind::CarSedanBlue => if h { "ship_sail_blue_h" } else { "ship_sail_blue_v" },
                VehicleKind::CarTaxiYellow => if h { "ship_taxi_yellow_h" } else { "ship_taxi_yellow_v" },
                VehicleKind::CarHatchbackGreen => if h { "ship_tug_green_h" } else { "ship_tug_green_v" },
                VehicleKind::CarPolice => if h { "ship_patrol_h" } else { "ship_patrol_v" },
                VehicleKind::TruckDelivery => if h { "ship_cargo_h" } else { "ship_cargo_v" },
                VehicleKind::LimoWhite => if h { "ship_yacht_white_h" } else { "ship_yacht_white_v" },
                VehicleKind::Ambulance => if h { "ship_sar_rescue_h" } else { "ship_sar_rescue_v" },
                VehicleKind::SemiTruck => if h { "ship_container_h" } else { "ship_container_v" },
                VehicleKind::BusTransit => if h { "ship_ferry_h" } else { "ship_ferry_v" },
                VehicleKind::Unknown => if h { "ship_player_red_h" } else { "ship_player_red_v" },
            },
            Theme::Railroad => match self {
                VehicleKind::PlayerRed => if h { "train_locomotive_red_h" } else { "train_locomotive_red_v" },
                VehicleKind::CarSedanBlue => if h { "train_coach_blue_h" } else { "train_coach_blue_v" },
                VehicleKind::CarTaxiYellow => if h { "train_tanker_yellow_h" } else { "train_tanker_yellow_v" },
                VehicleKind::CarHatchbackGreen => if h { "train_shunter_green_h" } else { "train_shunter_green_v" },
                VehicleKind::CarPolice => if h { "train_caboose_red_h" } else { "train_caboose_red_v" },
                VehicleKind::TruckDelivery => if h { "train_cargo_flat_h" } else { "train_cargo_flat_v" },
                VehicleKind::LimoWhite => if h { "train_luxury_pullman_h" } else { "train_luxury_pullman_v" },
                VehicleKind::Ambulance => if h { "train_heavy_crane_h" } else { "train_heavy_crane_v" },
                VehicleKind::SemiTruck => if h { "train_coal_hopper_h" } else { "train_coal_hopper_v" },
                VehicleKind::BusTransit => if h { "train_passenger_long_h" } else { "train_passenger_long_v" },
                VehicleKind::Unknown => if h { "train_locomotive_red_h" } else { "train_locomotive_red_v" },
            },
        }
    }
}

/// A vehicle parked on the grid: its rear cell is `(x, y)` and it covers
/// `length` cells along its orientation.
#[derive(Debug)]
pub struct Vehicle {
    pub id: String,
    pub kind: VehicleKind,
    pub x: i32,
    pub y: i32,
    pub length: i32,
    pub orientation: Orientation,
    pub is_player: bool,
}

impl Clone for Vehicle {
    fn clone(&self) -> (r: Vehicle)
        ensures
            r == *self,
    {
        Vehicle {
            id: self.id.clone(),
            kind: self.kind,
            x: self.x,
            y: self.y,
            length: self.length,
            orientation: self.orientation,
            is_player: self.is_player,
        }
    }
}

impl Vehicle {
    /// Whether the vehicle covers cell `(cx, cy)`.
    pub open spec fn covers(self, cx: int, cy: int) -> bool {
        match self.orientation {
            Orientation::Horizontal => cy == self.y && self.x <= cx < self.x + self.length,
            Orientation::Vertical => cx == self.x && self.y <= cy < self.y + self.length,
        }
    }

    /// Coordinate of the rear cell along the vehicle's axis.
    pub open spec fn axis_pos(self) -> int {
        match self.orientation {
            Orientation::Horizontal => self.x as int,
            Orientation::Vertical => self.y as int,
        }
    }

    /// The cell at coordinate `p` along the vehicle's axis, in its lane.
    pub open spec fn lane_cell(self, p: int) -> (int, int) {
        match self.orientation {
            Orientation::Horizontal => (p, self.y as int),
            Orientation::Vertical => (self.x as int, p),
        }
    }

    pub fn new(
        id: &str,
        kind: VehicleKind,
        x: i32,
        y: i32,
        length: i32,
        orientation: Orientation,
        is_player: bool,
    ) -> (v: Vehicle)
        ensures
            v.id@ == id@,
            v.kind == kind,
            v.x == x,
            v.y == y,
            v.length == length,
            v.orientation == orientation,
            v.is_player == is_player,
    {
        Vehicle { id: id.to_owned(), kind, x, y, length, orientation, is_player }
    }

    /// Checks whether the grid cell `(cell_x, cell_y)` is occupied by this vehicle.
    pub fn contains_cell(&self, cell_x: i32, cell_y: i32) -> (b: bool)
        ensures
            b == self.covers(cell_x as int, cell_y as int),
    {
        match self.orientation {
            Orientation::Horizontal => {
                cell_y == self.y && cell_x >= self.x && (cell_x as i64) < (self.x as i64) + (
                self.length as i64)
            },
            Orientation::Vertical => {
                cell_x == self.x && cell_y >= self.y && (cell_y as i64) < (self.y as i64) + (
                self.length as i64)
            },
        }
    }
}

/// The cells listed by `Orientation::cells` are exactly the cells the vehicle covers.
pub proof fn lemma_vehicle_cells_are_covered(v: Vehicle, cx: i32, cy: i32)
    ensures
        line_fits(v.orientation, v.x, v.y, v.length) ==> (line_cells(
            v.orientation,
            v.x,
            v.y,
            v.length,
        ).contains((cx, cy)) <==> v.covers(cx as int, cy as int)),
{
    let s = line_cells(v.orientation, v.x, v.y, v.length);
    if s.contains((cx, cy)) && line_fits(v.orientation, v.x, v.y, v.length) {
        let i = choose|i: int| 0 <= i < s.len() && s[i] == (cx, cy);
        assert(s[i] == line_cell(v.orientation, v.x, v.y, i));
    }
    if v.covers(cx as int, cy as int) && line_fits(v.orientation, v.x, v.y, v.length) {
        let i: int = match v.orientation {
            Orientation::Horizontal => cx - v.x,
            Orientation::Vertical => cy - v.y,
        };
        assert(s[i] == (cx, cy));
    }
}

/// Exactly police cars and ambulances are emergency vehicles; every other
/// kind (delivery trucks, buses, the player's car, ...) is not.
pub proof fn lemma_emergency_kinds(k: VehicleKind)
    ensures
        is_emergency_spec(k) <==> (k == VehicleKind::CarPolice || k == VehicleKind::Ambulance),
        is_emergency_spec(VehicleKind::CarPolice),
        is_emergency_spec(VehicleKind::Ambulance),
        !is_emergency_spec(VehicleKind::PlayerRed),
        !is_emergency_spec(VehicleKind::CarSedanBlue),
        !is_emergency_spec(VehicleKind::CarTaxiYellow),
        !is_emergency_spec(VehicleKind::CarHatchbackGreen),
        !is_emergency_spec(VehicleKind::TruckDelivery),
        !is_emergency_spec(VehicleKind::LimoWhite),
        !is_emergency_spec(VehicleKind::SemiTruck),
        !is_emergency_spec(VehicleKind::BusTransit),
        !is_emergency_spec(VehicleKind::Unknown),
{
}

} // verus!
