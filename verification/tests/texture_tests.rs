use parking_escape::obstacle::ObstacleKind;
use parking_escape::textures::{texture_entries, texture_file};
use parking_escape::theme::Theme;
use parking_escape::vehicle::{Orientation, VehicleKind};

#[test]
fn texture_files_by_key() {
    assert_eq!(texture_file("city_background"), Some("themes/city/environment/background.png"));
    assert_eq!(texture_file("ship_patrol_h"), Some("themes/marine/vehicles/ship_patrol_h.png"));
    assert_eq!(texture_file("icon_undo"), Some("ui/icon_undo.png"));
    assert_eq!(texture_file("no_such_texture"), None);
    assert_eq!(texture_file(""), None);
}

#[test]
fn every_library_key_has_a_texture_file() {
    let themes = [Theme::City, Theme::Marine, Theme::Railroad];
    let kinds = [
        VehicleKind::PlayerRed,
        VehicleKind::CarSedanBlue,
        VehicleKind::CarTaxiYellow,
        VehicleKind::CarHatchbackGreen,
        VehicleKind::CarPolice,
        VehicleKind::TruckDelivery,
        VehicleKind::LimoWhite,
        VehicleKind::Ambulance,
        VehicleKind::SemiTruck,
        VehicleKind::BusTransit,
        VehicleKind::Unknown,
    ];
    let obstacles = [
        ObstacleKind::Rock,
        ObstacleKind::Buoy,
        ObstacleKind::Pillar,
        ObstacleKind::Barrier,
        ObstacleKind::Unknown,
    ];
    for t in themes {
        assert!(texture_file(t.background_texture_key()).is_some());
        assert!(texture_file(t.ground_texture_key()).is_some());
        assert!(texture_file(t.exit_gate_texture_key()).is_some());
        for k in kinds {
            for o in [Orientation::Horizontal, Orientation::Vertical] {
                assert!(texture_file(k.sprite_for_theme(o, t)).is_some());
            }
        }
        for k in obstacles {
            assert!(texture_file(k.sprite_for_theme(t)).is_some());
        }
    }
    assert_eq!(texture_entries().len(), 88);
}
