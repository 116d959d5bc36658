use parking_escape::audio::{clip_for, theme_code, SoundClip, SoundTrigger};
use parking_escape::theme::Theme;

#[test]
fn test_theme_rotation_for_levels() {
    assert_eq!(Theme::for_level(1), Theme::City);
    assert_eq!(Theme::for_level(2), Theme::Marine);
    assert_eq!(Theme::for_level(3), Theme::Railroad);
    assert_eq!(Theme::for_level(4), Theme::City);
    assert_eq!(Theme::for_level(5), Theme::Marine);
    assert_eq!(Theme::for_level(6), Theme::Railroad);
}

#[test]
fn test_theme_texture_keys() {
    assert_eq!(
        Theme::Railroad.background_texture_key(),
        "railroad_background"
    );
    assert_eq!(Theme::Railroad.ground_texture_key(), "railroad_ground");
    assert_eq!(
        Theme::Railroad.exit_gate_texture_key(),
        "railroad_exit_gate"
    );
}

#[test]
fn theme_rotation_repeats_every_three_levels() {
    for id in 1u32..200 {
        assert_eq!(Theme::for_level(id), Theme::for_level(id + 3));
        assert_ne!(Theme::for_level(id), Theme::for_level(id + 1));
    }
}

#[test]
fn theme_for_level_zero_and_large_ids() {
    assert_eq!(Theme::for_level(0), Theme::Railroad);
    assert_eq!(Theme::for_level(u32::MAX), Theme::Railroad);
    assert_eq!(Theme::for_level(u32::MAX - 2), Theme::City);
}

#[test]
fn default_theme_is_city() {
    assert_eq!(Theme::default(), Theme::City);
}

#[test]
fn city_and_marine_texture_keys() {
    assert_eq!(Theme::City.background_texture_key(), "city_background");
    assert_eq!(Theme::City.ground_texture_key(), "city_ground");
    assert_eq!(Theme::City.exit_gate_texture_key(), "city_exit_gate");
    assert_eq!(Theme::Marine.background_texture_key(), "marine_background");
    assert_eq!(Theme::Marine.ground_texture_key(), "marine_ground");
    assert_eq!(Theme::Marine.exit_gate_texture_key(), "marine_exit_gate");
}

#[test]
fn sound_clips_follow_the_theme() {
    assert_eq!(clip_for(SoundTrigger::Slide, Theme::City), SoundClip::Slide);
    assert_eq!(clip_for(SoundTrigger::Slide, Theme::Marine), SoundClip::MarineSlide);
    assert_eq!(clip_for(SoundTrigger::Bump, Theme::Railroad), SoundClip::RailBump);
    assert_eq!(clip_for(SoundTrigger::Siren, Theme::Marine), SoundClip::MarineSiren);
    assert_eq!(clip_for(SoundTrigger::ExitDrive, Theme::Railroad), SoundClip::RailExitDrive);
    assert_eq!(clip_for(SoundTrigger::Win, Theme::Marine), SoundClip::Win);
    assert_eq!(clip_for(SoundTrigger::ButtonClick, Theme::Railroad), SoundClip::Click);
    assert_eq!(clip_for(SoundTrigger::Alarm, Theme::City), SoundClip::Alarm);
}

#[test]
fn theme_codes() {
    assert_eq!(theme_code(Theme::City), 0);
    assert_eq!(theme_code(Theme::Marine), 1);
    assert_eq!(theme_code(Theme::Railroad), 2);
}
