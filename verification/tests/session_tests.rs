use parking_escape::level::{DifficultyTier, FieldSize, PackKey};
use parking_escape::session::{
    Command, HudAction, LevelSelectAction, MenuAction, Scene, Session, SessionEvent, WinModalAction,
};

fn small_relaxed() -> PackKey {
    PackKey::new(FieldSize::Small6x6, DifficultyTier::Relaxed)
}

#[test]
fn session_starts_on_the_menu() {
    let s = Session::new(small_relaxed());
    assert_eq!(s.scene, Scene::MainMenu);
    assert_eq!(s.level_idx, 0);
    assert!(s.sound_enabled);
}

#[test]
fn play_from_menu_loads_the_level() {
    let mut s = Session::new(small_relaxed());
    assert_eq!(s.handle(SessionEvent::Menu(MenuAction::NoAction), 5), Command::Idle);
    assert_eq!(s.handle(SessionEvent::Menu(MenuAction::Play), 5), Command::LoadLevel);
    assert_eq!(s.scene, Scene::Playing);
    // Menu buttons are not on screen any more.
    assert_eq!(s.handle(SessionEvent::Menu(MenuAction::SelectLevels), 5), Command::Idle);
    assert_eq!(s.scene, Scene::Playing);
}

#[test]
fn sound_toggles_from_menu_and_hud() {
    let mut s = Session::new(small_relaxed());
    assert_eq!(s.handle(SessionEvent::Menu(MenuAction::ToggleSound), 5), Command::ToggleSound);
    assert!(!s.sound_enabled);
    s.handle(SessionEvent::Menu(MenuAction::Play), 5);
    assert_eq!(s.handle(SessionEvent::Hud(HudAction::ToggleSound), 5), Command::ToggleSound);
    assert!(s.sound_enabled);
}

#[test]
fn choosing_a_level_on_the_selection_screen() {
    let mut s = Session::new(small_relaxed());
    assert_eq!(s.handle(SessionEvent::Menu(MenuAction::SelectLevels), 5), Command::Show);
    assert_eq!(s.scene, Scene::LevelSelect);
    let hard10 = PackKey::new(FieldSize::Big10x10, DifficultyTier::Hard);
    assert_eq!(
        s.handle(SessionEvent::LevelSelect(LevelSelectAction::SelectLevel(hard10, 3)), 5),
        Command::LoadLevel
    );
    assert_eq!(s.scene, Scene::Playing);
    assert_eq!(s.pack, hard10);
    assert_eq!(s.level_idx, 3);
    assert_eq!(s.handle(SessionEvent::Hud(HudAction::BackToMenu), 5), Command::Show);
    assert_eq!(s.scene, Scene::LevelSelect);
    assert_eq!(s.handle(SessionEvent::LevelSelect(LevelSelectAction::BackToMenu), 5), Command::Show);
    assert_eq!(s.scene, Scene::MainMenu);
}

#[test]
fn winning_and_moving_on() {
    let mut s = Session::new(small_relaxed());
    s.handle(SessionEvent::Menu(MenuAction::Play), 2);
    assert_eq!(s.handle(SessionEvent::Hud(HudAction::Undo), 2), Command::UndoMove);
    assert_eq!(s.handle(SessionEvent::Hud(HudAction::Reset), 2), Command::ResetBoard);
    assert_eq!(s.handle(SessionEvent::WinModal(WinModalAction::NextLevel), 2), Command::Idle);
    assert_eq!(s.handle(SessionEvent::ExitDriven, 2), Command::RecordWin);
    assert_eq!(s.scene, Scene::LevelComplete);
    assert_eq!(s.handle(SessionEvent::ExitDriven, 2), Command::Idle);
    assert!(s.has_next_level(2));
    assert_eq!(s.handle(SessionEvent::WinModal(WinModalAction::NextLevel), 2), Command::LoadLevel);
    assert_eq!(s.level_idx, 1);
    assert_eq!(s.scene, Scene::Playing);
    s.handle(SessionEvent::ExitDriven, 2);
    // The last level of the pack has no successor.
    assert!(!s.has_next_level(2));
    assert_eq!(s.handle(SessionEvent::WinModal(WinModalAction::NextLevel), 2), Command::Idle);
    assert_eq!(s.level_idx, 1);
    assert_eq!(s.scene, Scene::LevelComplete);
    assert_eq!(s.handle(SessionEvent::WinModal(WinModalAction::Replay), 2), Command::ResetBoard);
    assert_eq!(s.scene, Scene::Playing);
    s.handle(SessionEvent::ExitDriven, 2);
    assert_eq!(s.handle(SessionEvent::WinModal(WinModalAction::LevelSelect), 2), Command::Show);
    assert_eq!(s.scene, Scene::LevelSelect);
}

#[test]
fn next_level_check_at_the_edges() {
    let mut s = Session::new(small_relaxed());
    assert!(!s.has_next_level(0));
    assert!(!s.has_next_level(1));
    assert!(s.has_next_level(2));
    s.level_idx = usize::MAX;
    assert!(!s.has_next_level(usize::MAX));
}
