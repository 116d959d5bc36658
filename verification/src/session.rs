use vstd::prelude::*;

use crate::level::PackKey;

verus! {

/// The screen the game shows.
#[derive(Debug, Clone, Copy, PartialEq, Eq, Structural)]
pub enum Scene {
    MainMenu,
    LevelSelect,
    Playing,
    LevelComplete,
}

/// What was pressed on the main menu.
#[derive(Debug, Clone, Copy, PartialEq, Eq, Structural)]
pub enum MenuAction {
    NoAction,
    Play,
    SelectLevels,
    ToggleSound,
}

/// What was pressed on the level selection screen.
#[derive(Debug, Clone, Copy, PartialEq, Eq, Structural)]
pub enum LevelSelectAction {
    NoAction,
    SelectLevel(PackKey, usize),
    BackToMenu,
}

/// What was pressed on the bar above the board.
#[derive(Debug, Clone, Copy, PartialEq, Eq, Structural)]
pub enum HudAction {
    NoAction,
    BackToMenu,
    Undo,
    Reset,
    ToggleSound,
}

/// What was pressed in the level-completed dialog.
#[derive(Debug, Clone, Copy, PartialEq, Eq, Structural)]
pub enum WinModalAction {
    NoAction,
    NextLevel,
    Replay,
    LevelSelect,
}

/// One thing that happened during a frame.
#[derive(Debug, Clone, Copy, PartialEq, Eq, Structural)]
pub enum SessionEvent {
    Menu(MenuAction),
    LevelSelect(LevelSelectAction),
    Hud(HudAction),
    WinModal(WinModalAction),
    /// The winning vehicle has nearly driven out of the lot.
    ExitDriven,
}

/// What the program has to do in answer to an event.
#[derive(Debug, Clone, Copy, PartialEq, Eq, Structural)]
pub enum Command {
    /// Nothing.
    Idle,
    /// Click, and show the new scene.
    Show,
    /// Click, and load a fresh board for the session's current level.
    LoadLevel,
    /// Click, and put the board back to its start.
    ResetBoard,
    /// Take back the last move (a slide sound when one was taken back).
    UndoMove,
    /// The sound was switched on or off.
    ToggleSound,
    /// Record the win of the current level.
    RecordWin,
}

/// Where the player is: the screen, the chosen pack and level, and whether
/// sound is on.
#[derive(Debug, Clone, Copy, PartialEq, Eq, Structural)]
pub struct Session {
    pub scene: Scene,
    pub pack: PackKey,
    pub level_idx: usize,
    pub sound_enabled: bool,
}

/// The session after `e`, together with the command it calls for. `pack_len`
/// is the number of levels in the current pack. Actions of a screen that is
/// not shown are ignored; "next level" is ignored after the last level.
pub open spec fn step_spec(s: Session, e: SessionEvent, pack_len: nat) -> (Session, Command) {
    let ignore = (s, Command::Idle);
    match e {
        SessionEvent::Menu(a) => if s.scene != Scene::MainMenu {
            ignore
        } else {
            match a {
                MenuAction::NoAction => ignore,
                MenuAction::Play => (Session { scene: Scene::Playing, ..s }, Command::LoadLevel),
                MenuAction::SelectLevels => (Session { scene: Scene::LevelSelect, ..s }, Command::Show),
                MenuAction::ToggleSound => (Session { sound_enabled: !s.sound_enabled, ..s }, Command::ToggleSound),
            }
        },
        SessionEvent::LevelSelect(a) => if s.scene != Scene::LevelSelect {
            ignore
        } else {
            match a {
                LevelSelectAction::NoAction => ignore,
                LevelSelectAction::SelectLevel(p, i) => (
                    Session { scene: Scene::Playing, pack: p, level_idx: i, ..s },
                    Command::LoadLevel,
                ),
                LevelSelectAction::BackToMenu => (Session { scene: Scene::MainMenu, ..s }, Command::Show),
            }
        },
        SessionEvent::Hud(a) => if s.scene != Scene::Playing && s.scene != Scene::LevelComplete {
            ignore
        } else {
            match a {
                HudAction::NoAction => ignore,
                HudAction::BackToMenu => (Session { scene: Scene::LevelSelect, ..s }, Command::Show),
                HudAction::Undo => (s, Command::UndoMove),
                HudAction::Reset => (s, Command::ResetBoard),
                HudAction::ToggleSound => (Session { sound_enabled: !s.sound_enabled, ..s }, Command::ToggleSound),
            }
        },
        SessionEvent::WinModal(a) => if s.scene != Scene::LevelComplete {
            ignore
        } else {
            match a {
                WinModalAction::NoAction => ignore,
                WinModalAction::NextLevel => if s.level_idx + 1 < pack_len {
                    (Session { scene: Scene::Playing, level_idx: (s.level_idx + 1) as usize, ..s }, Command::LoadLevel)
                } else {
                    ignore
                },
                WinModalAction::Replay => (Session { scene: Scene::Playing, ..s }, Command::ResetBoard),
                WinModalAction::LevelSelect => (Session { scene: Scene::LevelSelect, ..s }, Command::Show),
            }
        },
        SessionEvent::ExitDriven => if s.scene == Scene::Playing {
            (Session { scene: Scene::LevelComplete, ..s }, Command::RecordWin)
        } else {
            ignore
        },
    }
}

impl Session {
    /// The session at start-up: the main menu, sound on, the first level of `pack`.
    pub fn new(pack: PackKey) -> (s: Session)
        ensures
            s == (Session { scene: Scene::MainMenu, pack, level_idx: 0, sound_enabled: true }),
    {
        Session { scene: Scene::MainMenu, pack, level_idx: 0, sound_enabled: true }
    }

    /// Whether a "next level" follows the current one in a pack of `pack_len` levels.
    pub fn has_next_level(&self, pack_len: usize) -> (b: bool)
        ensures
            b == (self.level_idx + 1 < pack_len),
    {
        self.level_idx < pack_len && pack_len - self.level_idx > 1
    }

    /// Applies an event and returns the command it calls for (see `step_spec`).
    pub fn handle(&mut self, e: SessionEvent, pack_len: usize) -> (c: Command)
        ensures
            (*final(self), c) == step_spec(*old(self), e, pack_len as nat),
    {
        match e {
            SessionEvent::Menu(a) => {
                if self.scene != Scene::MainMenu {
                    return Command::Idle;
                }
                match a {
                    MenuAction::NoAction => Command::Idle,
                    MenuAction::Play => {
                        self.scene = Scene::Playing;
                        Command::LoadLevel
                    },
                    MenuAction::SelectLevels => {
                        self.scene = Scene::LevelSelect;
                        Command::Show
                    },
                    MenuAction::ToggleSound => {
                        self.sound_enabled = !self.sound_enabled;
                        Command::ToggleSound
                    },
                }
            },
            SessionEvent::LevelSelect(a) => {
                if self.scene != Scene::LevelSelect {
                    return Command::Idle;
                }
                match a {
                    LevelSelectAction::NoAction => Command::Idle,
                    LevelSelectAction::SelectLevel(p, i) => {
                        self.scene = Scene::Playing;
                        self.pack = p;
                        self.level_idx = i;
                        Command::LoadLevel
                    },
                    LevelSelectAction::BackToMenu => {
                        self.scene = Scene::MainMenu;
                        Command::Show
                    },
                }
            },
            SessionEvent::Hud(a) => {
                if self.scene != Scene::Playing && self.scene != Scene::LevelComplete {
                    return Command::Idle;
                }
                match a {
                    HudAction::NoAction => Command::Idle,
                    HudAction::BackToMenu => {
                        self.scene = Scene::LevelSelect;
                        Command::Show
                    },
                    HudAction::Undo => Command::UndoMove,
                    HudAction::Reset => Command::ResetBoard,
                    HudAction::ToggleSound => {
                        self.sound_enabled = !self.sound_enabled;
                        Command::ToggleSound
                    },
                }
            },
            SessionEvent::WinModal(a) => {
                if self.scene != Scene::LevelComplete {
                    return Command::Idle;
                }
                match a {
                    WinModalAction::NoAction => Command::Idle,
                    WinModalAction::NextLevel => {
                        if self.has_next_level(pack_len) {
                            self.scene = Scene::Playing;
                            self.level_idx = self.level_idx + 1;
                            Command::LoadLevel
                        } else {
                            Command::Idle
                        }
                    },
                    WinModalAction::Replay => {
                        self.scene = Scene::Playing;
                        Command::ResetBoard
                    },
                    WinModalAction::LevelSelect => {
                        self.scene = Scene::LevelSelect;
                        Command::Show
                    },
                }
            },
            SessionEvent::ExitDriven => {
                if self.scene == Scene::Playing {
                    self.scene = Scene::LevelComplete;
                    Command::RecordWin
                } else {
                    Command::Idle
                }
            },
        }
    }
}

/// Moving on to the next level never leaves the pack: when the session points
/// at a level of its pack, every event but picking a level on the selection
/// screen keeps the pack and leaves it pointing at a level of that pack.
pub proof fn lemma_level_stays_in_pack(s: Session, e: SessionEvent, pack_len: nat)
    requires
        s.level_idx < pack_len,
        !(e matches SessionEvent::LevelSelect(LevelSelectAction::SelectLevel(_, _))),
    ensures
        step_spec(s, e, pack_len).0.pack == s.pack,
        step_spec(s, e, pack_len).0.level_idx < pack_len,
{
}

/// A level is recorded as won only while it is being played, and the game
/// then shows the level-completed dialog.
pub proof fn lemma_win_recorded_only_when_playing(s: Session, e: SessionEvent, pack_len: nat)
    requires
        step_spec(s, e, pack_len).1 == Command::RecordWin,
    ensures
        s.scene == Scene::Playing,
        step_spec(s, e, pack_len).0.scene == Scene::LevelComplete,
        step_spec(s, e, pack_len).0.level_idx == s.level_idx,
{
}

/// Whenever a fresh board is loaded, the game goes on to play it.
pub proof fn lemma_fresh_board_is_played(s: Session, e: SessionEvent, pack_len: nat)
    requires
        step_spec(s, e, pack_len).1 == Command::LoadLevel,
    ensures
        step_spec(s, e, pack_len).0.scene == Scene::Playing,
{
}

} // verus!
