use vstd::prelude::*;

use crate::theme::Theme;

verus! {

/// Game events that make a sound.
#[derive(Debug, Clone, Copy, PartialEq, Eq, Hash, Structural)]
pub enum SoundTrigger {
    Slide,
    Bump,
    Alarm,
    Siren,
    Win,
    ButtonClick,
    ExitDrive,
}

/// The recorded sound samples, one per event and theme where the theme matters.
#[derive(Debug, Clone, Copy, PartialEq, Eq, Hash, Structural)]
pub enum SoundClip {
    Slide,
    Bump,
    Alarm,
    Siren,
    Win,
    Click,
    ExitDrive,
    MarineSlide,
    MarineBump,
    MarineAlarm,
    MarineSiren,
    MarineExitDrive,
    RailSlide,
    RailBump,
    RailAlarm,
    RailSiren,
    RailExitDrive,
}

/// Which sample an event plays in a theme; the win jingle and the button
/// click sound the same everywhere.
pub open spec fn clip_spec(trigger: SoundTrigger, theme: Theme) -> SoundClip {
    match trigger {
        SoundTrigger::Slide => match theme {
            Theme::City => SoundClip::Slide,
            Theme::Marine => SoundClip::MarineSlide,
            Theme::Railroad => SoundClip::RailSlide,
        },
        SoundTrigger::Bump => match theme {
            Theme::City => SoundClip::Bump,
            Theme::Marine => SoundClip::MarineBump,
            Theme::Railroad => SoundClip::RailBump,
        },
        SoundTrigger::Alarm => match theme {
            Theme::City => SoundClip::Alarm,
            Theme::Marine => SoundClip::MarineAlarm,
            Theme::Railroad => SoundClip::RailAlarm,
        },
        SoundTrigger::Siren => match theme {
            Theme::City => SoundClip::Siren,
            Theme::Marine => SoundClip::MarineSiren,
            Theme::Railroad => SoundClip::RailSiren,
        },
        SoundTrigger::ExitDrive => match theme {
            Theme::City => SoundClip::ExitDrive,
            Theme::Marine => SoundClip::MarineExitDrive,
            Theme::Railroad => SoundClip::RailExitDrive,
        },
        SoundTrigger::Win => SoundClip::Win,
        SoundTrigger::ButtonClick => SoundClip::Click,
    }
}

/// Selects the sample to play for an event in the given theme.
pub fn clip_for(trigger: SoundTrigger, theme: Theme) -> (c: SoundClip)
    ensures
        c == clip_spec(trigger, theme),
{
    match (trigger, theme) {
        (SoundTrigger::Slide, Theme::Marine) => SoundClip::MarineSlide,
        (SoundTrigger::Slide, Theme::City) => SoundClip::Slide,
        (SoundTrigger::Slide, Theme::Railroad) => SoundClip::RailSlide,
        (SoundTrigger::Bump, Theme::Marine) => SoundClip::MarineBump,
        (SoundTrigger::Bump, Theme::City) => SoundClip::Bump,
        (SoundTrigger::Bump, Theme::Railroad) => SoundClip::RailBump,
        (SoundTrigger::Alarm, Theme::Marine) => SoundClip::MarineAlarm,
        (SoundTrigger::Alarm, Theme::City) => SoundClip::Alarm,
        (SoundTrigger::Alarm, Theme::Railroad) => SoundClip::RailAlarm,
        (SoundTrigger::Siren, Theme::Marine) => SoundClip::MarineSiren,
        (SoundTrigger::Siren, Theme::City) => SoundClip::Siren,
        (SoundTrigger::Siren, Theme::Railroad) => SoundClip::RailSiren,
        (SoundTrigger::ExitDrive, Theme::Marine) => SoundClip::MarineExitDrive,
        (SoundTrigger::ExitDrive, Theme::City) => SoundClip::ExitDrive,
        (SoundTrigger::ExitDrive, Theme::Railroad) => SoundClip::RailExitDrive,
        (SoundTrigger::Win, _) => SoundClip::Win,
        (SoundTrigger::ButtonClick, _) => SoundClip::Click,
    }
}

/// Numeric code of a theme handed to the browser's sound player.
pub fn theme_code(theme: Theme) -> (c: i32)
    ensures
        c == match theme {
            Theme::City => 0i32,
            Theme::Marine => 1i32,
            Theme::Railroad => 2i32,
        },
{
    match theme {
        Theme::City => 0,
        Theme::Marine => 1,
        Theme::Railroad => 2,
    }
}

} // verus!
