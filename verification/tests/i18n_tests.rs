use parking_escape::i18n::{
    detect_locale_tag, env_locale, locale_tag_for_system_language, normalize_locale_tag,
    parse_cli_locale, resolve_locale_in, HudStrings, WinModalStrings,
};
use parking_escape::level::{DifficultyTier, FieldSize};
use parking_escape::locales::{get_locales_list, resolve_locale};

#[test]
fn test_all_locales_load_and_validate() {
    let locales = get_locales_list();
    assert_eq!(locales.len(), 8);

    for loc in locales {
        assert!(!loc.locale.is_empty());
        assert!(!loc.language_name.is_empty());

        assert!(!loc.menu.title.is_empty());
        assert!(!loc.menu.subtitle.is_empty());
        assert!(!loc.menu.play_game.is_empty());
        assert!(!loc.menu.level_select.is_empty());
        assert!(!loc.menu.sound_on.is_empty());
        assert!(!loc.menu.sound_off.is_empty());

        assert!(!loc.level_select.title.is_empty());
        assert!(!loc.level_select.back.is_empty());
        assert!(!loc.level_select.size_small.is_empty());
        assert!(!loc.level_select.size_medium.is_empty());
        assert!(!loc.level_select.size_big.is_empty());
        assert!(!loc.level_select.diff_relaxed.is_empty());
        assert!(!loc.level_select.diff_challenging.is_empty());
        assert!(!loc.level_select.diff_hard.is_empty());
        assert!(!loc.level_select.generating_levels.is_empty());

        assert!(!loc.hud.level_template.is_empty());
        assert!(!loc.hud.moves.is_empty());
        assert!(!loc.hud.par.is_empty());
        assert!(!loc.hud.stats_template.is_empty());

        let lvl_str = loc.hud.format_level(42);
        assert!(
            lvl_str.contains("42"),
            "format_level in {} should contain 42",
            loc.locale
        );

        let stats_str = loc.hud.format_stats(5, 10);
        assert!(
            stats_str.contains('5') && stats_str.contains("10"),
            "format_stats in {} should contain 5 and 10",
            loc.locale
        );

        assert!(!loc.win_modal.title.is_empty());
        assert!(!loc.win_modal.completed_template.is_empty());
        assert!(!loc.win_modal.eval_perfect.is_empty());
        assert!(!loc.win_modal.eval_great.is_empty());
        assert!(!loc.win_modal.eval_good.is_empty());
        assert!(!loc.win_modal.next_level.is_empty());
        assert!(!loc.win_modal.replay.is_empty());
        assert!(!loc.win_modal.menu.is_empty());

        let completed = loc.win_modal.format_completed(8, 10);
        assert!(
            completed.contains('8') && completed.contains("10"),
            "format_completed in {} should contain 8 and 10",
            loc.locale
        );

        assert_eq!(
            loc.win_modal.rating_evaluation(10, 10),
            loc.win_modal.eval_perfect
        );
        assert_eq!(
            loc.win_modal.rating_evaluation(12, 10),
            loc.win_modal.eval_great
        );
        assert_eq!(
            loc.win_modal.rating_evaluation(20, 10),
            loc.win_modal.eval_good
        );

        for size in FieldSize::ALL {
            assert!(!loc.level_select.size_label(size).is_empty());
        }
        for diff in DifficultyTier::ALL {
            assert!(!loc.level_select.difficulty_label(diff).is_empty());
        }
    }
}

#[test]
fn test_locale_normalization_and_resolution() {
    assert_eq!(resolve_locale("ru-RU").locale, "ru-RU");
    assert_eq!(resolve_locale("ru_RU").locale, "ru-RU");
    assert_eq!(resolve_locale("ru+RU").locale, "ru-RU");
    assert_eq!(resolve_locale("RU").locale, "ru-RU");
    assert_eq!(resolve_locale("ru_KZ").locale, "ru-RU");

    assert_eq!(resolve_locale("es-ES").locale, "es-ES");
    assert_eq!(resolve_locale("es_MX").locale, "es-ES");
    assert_eq!(resolve_locale("es").locale, "es-ES");

    assert_eq!(resolve_locale("de-DE").locale, "de-DE");
    assert_eq!(resolve_locale("de_AT").locale, "de-DE");
    assert_eq!(resolve_locale("de").locale, "de-DE");

    assert_eq!(resolve_locale("fr-FR").locale, "fr-FR");
    assert_eq!(resolve_locale("fr_CA").locale, "fr-FR");
    assert_eq!(resolve_locale("fr").locale, "fr-FR");

    assert_eq!(resolve_locale("ja-JP").locale, "ja-JP");
    assert_eq!(resolve_locale("ja_JP").locale, "ja-JP");
    assert_eq!(resolve_locale("ja").locale, "ja-JP");
    assert_eq!(resolve_locale("jp").locale, "ja-JP");
    assert_eq!(resolve_locale("jp-JP").locale, "ja-JP");

    assert_eq!(resolve_locale("zh-CN").locale, "zh-CN");
    assert_eq!(resolve_locale("zh_CN").locale, "zh-CN");
    assert_eq!(resolve_locale("zh").locale, "zh-CN");
    assert_eq!(resolve_locale("cn").locale, "zh-CN");
    assert_eq!(resolve_locale("zh-hans").locale, "zh-CN");

    assert_eq!(resolve_locale("ko-KR").locale, "ko-KR");
    assert_eq!(resolve_locale("ko_KR").locale, "ko-KR");
    assert_eq!(resolve_locale("ko").locale, "ko-KR");
    assert_eq!(resolve_locale("kr").locale, "ko-KR");

    assert_eq!(resolve_locale("en-US").locale, "en-US");
    assert_eq!(resolve_locale("en_GB").locale, "en-US");
    assert_eq!(resolve_locale("en").locale, "en-US");

    assert_eq!(resolve_locale("it-IT").locale, "en-US");
    assert_eq!(resolve_locale("unknown").locale, "en-US");
}

#[test]
fn test_parse_cli_locale() {
    assert_eq!(
        parse_cli_locale(&["--lang", "ru-RU"]),
        Some("ru-RU".to_string())
    );
    assert_eq!(parse_cli_locale(&["-l", "es-ES"]), Some("es-ES".to_string()));
    assert_eq!(
        parse_cli_locale(&["--lang=de-DE"]),
        Some("de-DE".to_string())
    );
    assert_eq!(parse_cli_locale(&["--lang=fr"]), Some("fr".to_string()));
    assert_eq!(
        parse_cli_locale(&["--other", "val", "-l", "pt+BR"]),
        Some("pt+BR".to_string())
    );
    assert_eq!(parse_cli_locale(&["--other", "val"]), None);
}

#[test]
fn test_detect_locale_tag() {
    // No command-line option, no system locale and no locale variables set.
    let tag = detect_locale_tag(&[], None, &[None, None, None, None]);
    assert!(!tag.is_empty(), "Detected locale tag should not be empty");
    let resolved = resolve_locale(&tag);
    assert!(!resolved.locale.is_empty());
}

#[test]
fn detect_locale_prefers_cli_then_os_then_env() {
    let env = vec![None, Some("C".to_string()), Some("de_DE.UTF-8".to_string()), Some("fr_FR".to_string())];
    assert_eq!(detect_locale_tag(&["--lang", "ko"], Some("ja-JP".to_string()), &env), "ko");
    assert_eq!(detect_locale_tag(&["game"], Some("ja-JP".to_string()), &env), "ja-JP");
    assert_eq!(detect_locale_tag(&["game"], None, &env), "de_DE");
    assert_eq!(detect_locale_tag(&[], None, &[Some("POSIX".to_string())]), "en-US");
    assert_eq!(detect_locale_tag(&[], None, &[]), "en-US");
}

#[test]
fn cli_locale_edge_cases() {
    assert_eq!(parse_cli_locale(&[]), None);
    assert_eq!(parse_cli_locale(&["--lang"]), None);
    assert_eq!(parse_cli_locale(&["--lang", "  "]), None);
    assert_eq!(parse_cli_locale(&["--lang", "  ", "-l", "it"]), Some("it".to_string()));
    assert_eq!(parse_cli_locale(&["--lang=  "]), None);
    assert_eq!(parse_cli_locale(&["--lang= es "]), Some("es".to_string()));
    assert_eq!(parse_cli_locale(&["-l", " zh-CN "]), Some("zh-CN".to_string()));
}

#[test]
fn env_locale_values() {
    assert_eq!(env_locale("en_US.UTF-8"), Some("en_US".to_string()));
    assert_eq!(env_locale(" ru_RU:en "), Some("ru_RU".to_string()));
    assert_eq!(env_locale("C"), None);
    assert_eq!(env_locale("POSIX"), None);
    assert_eq!(env_locale(""), None);
    assert_eq!(env_locale(".UTF-8"), None);
    assert_eq!(env_locale("C.UTF-8"), None);
}

#[test]
fn normalize_tags() {
    assert_eq!(normalize_locale_tag("pt_BR"), "pt-br");
    assert_eq!(normalize_locale_tag("pt+BR"), "pt-br");
    assert_eq!(normalize_locale_tag("PT-BR"), "pt-br");
    assert_eq!(normalize_locale_tag("  zh_Hans  "), "zh-hans");
    assert_eq!(normalize_locale_tag(""), "");
}

#[test]
fn resolve_against_a_given_list() {
    let all = get_locales_list();
    assert_eq!(all[resolve_locale_in(&all, "ko_KR")].locale, "ko-KR");
    assert_eq!(resolve_locale_in(&all, "xx"), 0);
    assert_eq!(resolve_locale_in(&all, ""), 0);
    assert_eq!(resolve_locale_in(&all, "-"), 0);
    let only_german = vec![all[3].clone()];
    assert_eq!(resolve_locale_in(&only_german, "en-US"), 0);
}

#[test]
fn browser_language_codes() {
    assert_eq!(locale_tag_for_system_language(0), "en-US");
    assert_eq!(locale_tag_for_system_language(1), "ru-RU");
    assert_eq!(locale_tag_for_system_language(5), "ja-JP");
    assert_eq!(locale_tag_for_system_language(7), "ko-KR");
    assert_eq!(locale_tag_for_system_language(8), "en-US");
    assert_eq!(locale_tag_for_system_language(-1), "en-US");
}

#[test]
fn templates_fill_numbers() {
    let hud = HudStrings {
        level_template: "Level {id} ({id})".to_string(),
        moves: "Moves".to_string(),
        par: "Par".to_string(),
        stats_template: "Moves: {moves} / Par: {par}".to_string(),
    };
    assert_eq!(hud.format_level(7), "Level 7 (7)");
    assert_eq!(hud.format_level(0), "Level 0 (0)");
    assert_eq!(hud.format_stats(12, 9), "Moves: 12 / Par: 9");
    assert_eq!(hud.format_stats(u32::MAX, 1), "Moves: 4294967295 / Par: 1");

    let win = WinModalStrings {
        title: "Done".to_string(),
        completed_template: "{moves} moves (par {par})".to_string(),
        eval_perfect: "Perfect".to_string(),
        eval_great: "Great".to_string(),
        eval_good: "Good".to_string(),
        next_level: "Next".to_string(),
        replay: "Replay".to_string(),
        menu: "Menu".to_string(),
    };
    assert_eq!(win.format_completed(8, 10), "8 moves (par 10)");
    assert_eq!(win.rating_evaluation(3, 3), "Perfect");
    assert_eq!(win.rating_evaluation(5, 3), "Great");
    assert_eq!(win.rating_evaluation(6, 3), "Good");
    assert_eq!(win.rating_evaluation(15, 10), "Great");
    assert_eq!(win.rating_evaluation(16, 10), "Good");
}

#[test]
fn normalizing_twice_changes_nothing() {
    for tag in ["  PT_br ", "zh+Hans", "EN-us", "", "\u{3000}Ja_JP\t"] {
        let once = normalize_locale_tag(tag);
        assert_eq!(normalize_locale_tag(&once), once);
    }
}

#[test]
fn resolve_returns_the_whole_entry() {
    let all = get_locales_list();
    assert_eq!(resolve_locale("unknown"), all[0]);
    assert_eq!(resolve_locale("ja"), all[7]);
    assert_eq!(resolve_locale("de_AT"), all[3]);
}

#[test]
fn every_builtin_text_shows_its_numbers() {
    for loc in get_locales_list() {
        assert!(loc.hud.format_level(1234).contains("1234"));
        let stats = loc.hud.format_stats(77, 31);
        assert!(stats.contains("77") && stats.contains("31"));
        let done = loc.win_modal.format_completed(12, 9);
        assert!(done.contains("12") && done.contains('9'));
    }
}
