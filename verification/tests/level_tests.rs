use parking_escape::board::{ExitPosition, ExitSide};
use parking_escape::level::{
    default_level_name, default_par, mix_zigzag, DifficultyTier, FieldSize, LevelData,
    LevelRecord, LevelRepository, PackKey,
};
use parking_escape::theme::Theme;
use parking_escape::vehicle::{Orientation, Vehicle, VehicleKind};

fn make_lvl(id: u32, par: u32) -> LevelData {
    LevelData {
        id,
        name: format!("Original {}", id),
        width: 6,
        height: 6,
        exit: ExitPosition {
            side: ExitSide::Right,
            row: 2,
            col: 0,
        },
        vehicles: vec![],
        obstacles: vec![],
        par_moves: par,
    }
}

#[test]
fn test_mix_zigzag() {
    let bucket_a = vec![make_lvl(1, 4), make_lvl(2, 4), make_lvl(3, 4)];
    let bucket_b = vec![make_lvl(10, 5), make_lvl(20, 5)];
    let bucket_c = vec![make_lvl(100, 6)];

    let mixed = mix_zigzag(&[bucket_a, bucket_b, bucket_c]);

    assert_eq!(mixed.len(), 6);
    let pars: Vec<u32> = mixed.iter().map(|l| l.par_moves).collect();
    assert_eq!(pars, vec![4, 5, 6, 4, 5, 4]);

    let ids: Vec<u32> = mixed.iter().map(|l| l.id).collect();
    assert_eq!(ids, vec![1, 2, 3, 4, 5, 6]);

    let names: Vec<&str> = mixed.iter().map(|l| l.name.as_str()).collect();
    assert_eq!(
        names,
        vec!["Level 1", "Level 2", "Level 3", "Level 4", "Level 5", "Level 6"]
    );
}

#[test]
fn mix_zigzag_of_nothing_is_empty() {
    let mixed = mix_zigzag(&[]);
    assert!(mixed.is_empty());
    let mixed = mix_zigzag(&[vec![], vec![]]);
    assert!(mixed.is_empty());
}

#[test]
fn mix_zigzag_keeps_every_level_once() {
    let a = vec![make_lvl(7, 1), make_lvl(8, 2)];
    let b = vec![make_lvl(9, 3), make_lvl(11, 4), make_lvl(12, 5), make_lvl(13, 6)];
    let mixed = mix_zigzag(&[a, b]);
    let pars: Vec<u32> = mixed.iter().map(|l| l.par_moves).collect();
    assert_eq!(pars, vec![1, 3, 2, 4, 5, 6]);
    let ids: Vec<u32> = mixed.iter().map(|l| l.id).collect();
    assert_eq!(ids, vec![1, 2, 3, 4, 5, 6]);
    assert_eq!(mixed[5].name, "Level 6");
}

#[test]
fn field_sizes_and_tiers() {
    assert_eq!(FieldSize::ALL.len(), 3);
    assert_eq!(FieldSize::Small6x6.label(), "Small 6x6");
    assert_eq!(FieldSize::Medium8x8.label(), "Medium 8x8");
    assert_eq!(FieldSize::Big10x10.label(), "Big 10x10");
    assert_eq!(FieldSize::Small6x6.dimension(), 6);
    assert_eq!(FieldSize::Medium8x8.dimension(), 8);
    assert_eq!(FieldSize::Big10x10.dimension(), 10);
    assert_eq!(DifficultyTier::ALL.len(), 3);
    assert_eq!(DifficultyTier::Relaxed.label(), "Relaxed");
    assert_eq!(DifficultyTier::Challenging.label(), "Challenging");
    assert_eq!(DifficultyTier::Hard.label(), "Hard");
    let k = PackKey::new(FieldSize::Medium8x8, DifficultyTier::Hard);
    assert_eq!(k.size, FieldSize::Medium8x8);
    assert_eq!(k.difficulty, DifficultyTier::Hard);
}

#[test]
fn level_defaults() {
    assert_eq!(default_level_name(), "Level");
    assert_eq!(default_par(), 10);
}

#[test]
fn star_rating_thresholds() {
    let lvl = make_lvl(1, 10);
    assert_eq!(lvl.calculate_stars(0), 3);
    assert_eq!(lvl.calculate_stars(10), 3);
    assert_eq!(lvl.calculate_stars(11), 2);
    assert_eq!(lvl.calculate_stars(15), 2);
    assert_eq!(lvl.calculate_stars(16), 1);
    assert_eq!(lvl.calculate_stars(u32::MAX), 1);

    // A small par still leaves two moves of slack for two stars.
    let small = make_lvl(2, 3);
    assert_eq!(small.calculate_stars(3), 3);
    assert_eq!(small.calculate_stars(5), 2);
    assert_eq!(small.calculate_stars(6), 1);

    let big = make_lvl(3, u32::MAX);
    assert_eq!(big.calculate_stars(u32::MAX), 3);
}

#[test]
fn record_win_keeps_the_best() {
    let mut rec = LevelRecord::default();
    assert!(!rec.completed);
    assert_eq!(rec.best_moves, None);
    assert_eq!(rec.stars, 0);

    rec.record_win(14, 2);
    assert!(rec.completed);
    assert_eq!(rec.best_moves, Some(14));
    assert_eq!(rec.stars, 2);

    rec.record_win(20, 1);
    assert_eq!(rec.best_moves, Some(14));
    assert_eq!(rec.stars, 2);

    rec.record_win(9, 3);
    assert_eq!(rec.best_moves, Some(9));
    assert_eq!(rec.stars, 3);
}

#[test]
fn level_to_board_uses_theme_of_id() {
    let mut lvl = make_lvl(2, 5);
    lvl.vehicles.push(Vehicle::new("p", VehicleKind::PlayerRed, 0, 2, 2, Orientation::Horizontal, true));
    let board = lvl.to_board();
    assert_eq!(board.theme, Theme::Marine);
    assert_eq!(board.width, 6);
    assert_eq!(board.vehicles.len(), 1);
    assert_eq!(board.move_count, 0);
    assert!(!board.is_won);
    assert_eq!(make_lvl(3, 5).to_board().theme, Theme::Railroad);
}

#[test]
fn level_clone_keeps_content() {
    let lvl = make_lvl(42, 7);
    let c = lvl.clone();
    assert_eq!(c.id, 42);
    assert_eq!(c.name, "Original 42");
    assert_eq!(c.par_moves, 7);
}

#[test]
fn repository_from_buckets() {
    let mut buckets: Vec<Vec<LevelData>> = Vec::new();
    for file in 0..30u32 {
        buckets.push(vec![make_lvl(file * 10, file), make_lvl(file * 10 + 1, file)]);
    }
    let repo = LevelRepository::from_buckets(buckets);

    let relaxed6 = repo.get_pack(PackKey::new(FieldSize::Small6x6, DifficultyTier::Relaxed));
    let pars: Vec<u32> = relaxed6.iter().map(|l| l.par_moves).collect();
    assert_eq!(pars, vec![0, 1, 2, 0, 1, 2]);

    let hard6 = repo.get_pack(PackKey::new(FieldSize::Small6x6, DifficultyTier::Hard));
    let pars: Vec<u32> = hard6.iter().map(|l| l.par_moves).collect();
    assert_eq!(pars, vec![6, 7, 8, 9, 6, 7, 8, 9]);

    let hard10 = repo.get_pack(PackKey::new(FieldSize::Big10x10, DifficultyTier::Hard));
    let pars: Vec<u32> = hard10.iter().map(|l| l.par_moves).collect();
    assert_eq!(pars, vec![26, 27, 28, 29, 26, 27, 28, 29]);
    let ids: Vec<u32> = hard10.iter().map(|l| l.id).collect();
    assert_eq!(ids, vec![1, 2, 3, 4, 5, 6, 7, 8]);

    let chal8 = repo.get_pack(PackKey::new(FieldSize::Medium8x8, DifficultyTier::Challenging));
    let pars: Vec<u32> = chal8.iter().map(|l| l.par_moves).collect();
    assert_eq!(pars, vec![13, 14, 15, 13, 14, 15]);

    let key = PackKey::new(FieldSize::Medium8x8, DifficultyTier::Challenging);
    assert_eq!(repo.get_level(key, 1).map(|l| l.par_moves), Some(14));
    assert_eq!(repo.get_level(key, 5).map(|l| l.name.clone()), Some("Level 6".to_string()));
    assert!(repo.get_level(key, 6).is_none());
}

#[test]
fn level_file_names_in_bucket_order() {
    let names = parking_escape::level::level_file_names();
    assert_eq!(names.len(), 30);
    assert_eq!(names[0], "pack_6_d4.json");
    assert_eq!(names[9], "pack_6_d13.json");
    assert_eq!(names[10], "pack_8_d4.json");
    assert_eq!(names[29], "pack_10_d13.json");
}
