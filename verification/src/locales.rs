use vstd::prelude::*;

use crate::i18n::{
    fill_moves_par_spec, lemma_level_title_shows_number, lemma_move_line_shows_numbers, locale_complete, locale_tags_of, resolve_index_spec, resolve_locale_in, HudStrings, HudView,
    LevelSelectStrings, LevelSelectView, LocaleStrings, LocaleView, MenuStrings, MenuView,
    WinModalStrings, WinModalView,
};
use crate::text::{contains_text, decimal_spec, occurs_at, replace_all_spec};

verus! {

/// Tags of the built-in translations, in the order they are listed; the first
/// one is the fallback language.
pub open spec fn builtin_locale_tags() -> Seq<Seq<char>> {
    seq!["en-US"@, "ru-RU"@, "es-ES"@, "de-DE"@, "fr-FR"@, "zh-CN"@, "ko-KR"@, "ja-JP"@]
}

/// The English texts.
pub open spec fn locale_en_us_view() -> LocaleView {
    LocaleView {
        locale: "en-US"@,
        language_name: "English"@,
        menu: MenuView {
            title: "Parking Escape"@,
            subtitle: "Slide the cars and drive out!"@,
            play_game: "Play"@,
            level_select: "Select Level"@,
            sound_on: "Sound: On"@,
            sound_off: "Sound: Off"@,
        },
        level_select: LevelSelectView {
            title: "Select Level"@,
            back: "Back"@,
            size_small: "Small 6x6"@,
            size_medium: "Medium 8x8"@,
            size_big: "Big 10x10"@,
            diff_relaxed: "Relaxed"@,
            diff_challenging: "Challenging"@,
            diff_hard: "Hard"@,
            generating_levels: "Generating levels for this difficulty..."@,
        },
        hud: HudView {
            level_template: "Level {id}"@,
            moves: "Moves"@,
            par: "Par"@,
            stats_template: "Moves: {moves} / Par: {par}"@,
        },
        win_modal: WinModalView {
            title: "Level Cleared!"@,
            completed_template: "Completed in {moves} moves (par {par})"@,
            eval_perfect: "Perfect!"@,
            eval_great: "Great job!"@,
            eval_good: "Good effort!"@,
            next_level: "Next Level"@,
            replay: "Replay"@,
            menu: "Menu"@,
        },
    }
}

fn locale_en_us() -> (l: LocaleStrings)
    ensures
        l@ == locale_en_us_view(),
{
    LocaleStrings {
        locale: "en-US".to_owned(),
        language_name: "English".to_owned(),
        menu: MenuStrings {
            title: "Parking Escape".to_owned(),
            subtitle: "Slide the cars and drive out!".to_owned(),
            play_game: "Play".to_owned(),
            level_select: "Select Level".to_owned(),
            sound_on: "Sound: On".to_owned(),
            sound_off: "Sound: Off".to_owned(),
        },
        level_select: LevelSelectStrings {
            title: "Select Level".to_owned(),
            back: "Back".to_owned(),
            size_small: "Small 6x6".to_owned(),
            size_medium: "Medium 8x8".to_owned(),
            size_big: "Big 10x10".to_owned(),
            diff_relaxed: "Relaxed".to_owned(),
            diff_challenging: "Challenging".to_owned(),
            diff_hard: "Hard".to_owned(),
            generating_levels: "Generating levels for this difficulty...".to_owned(),
        },
        hud: HudStrings {
            level_template: "Level {id}".to_owned(),
            moves: "Moves".to_owned(),
            par: "Par".to_owned(),
            stats_template: "Moves: {moves} / Par: {par}".to_owned(),
        },
        win_modal: WinModalStrings {
            title: "Level Cleared!".to_owned(),
            completed_template: "Completed in {moves} moves (par {par})".to_owned(),
            eval_perfect: "Perfect!".to_owned(),
            eval_great: "Great job!".to_owned(),
            eval_good: "Good effort!".to_owned(),
            next_level: "Next Level".to_owned(),
            replay: "Replay".to_owned(),
            menu: "Menu".to_owned(),
        },
    }
}

proof fn lemma_en_us_complete()
    ensures
        locale_complete(locale_en_us_view()),
{
    reveal_strlit("en-US");
    reveal_strlit("English");
    reveal_strlit("Parking Escape");
    reveal_strlit("Slide the cars and drive out!");
    reveal_strlit("Play");
    reveal_strlit("Select Level");
    reveal_strlit("Sound: On");
    reveal_strlit("Sound: Off");
    reveal_strlit("Back");
    reveal_strlit("Small 6x6");
    reveal_strlit("Medium 8x8");
    reveal_strlit("Big 10x10");
    reveal_strlit("Relaxed");
    reveal_strlit("Challenging");
    reveal_strlit("Hard");
    reveal_strlit("Generating levels for this difficulty...");
    reveal_strlit("Level {id}");
    reveal_strlit("Moves");
    reveal_strlit("Par");
    reveal_strlit("Moves: {moves} / Par: {par}");
    reveal_strlit("Level Cleared!");
    reveal_strlit("Completed in {moves} moves (par {par})");
    reveal_strlit("Perfect!");
    reveal_strlit("Great job!");
    reveal_strlit("Good effort!");
    reveal_strlit("Next Level");
    reveal_strlit("Replay");
    reveal_strlit("Menu");
    reveal_strlit("{id}");
    reveal_strlit("{moves}");
    reveal_strlit("{par}");
    let l = locale_en_us_view();
    assert(l.hud.level_template.subrange(6, 10) =~= "{id}"@);
    assert(occurs_at(l.hud.level_template, "{id}"@, 6));
    assert(l.hud.stats_template.subrange(7, 14) =~= "{moves}"@);
    assert(occurs_at(l.hud.stats_template, "{moves}"@, 7));
    assert(l.hud.stats_template.subrange(22, 27) =~= "{par}"@);
    assert(occurs_at(l.hud.stats_template, "{par}"@, 22));
    assert(l.win_modal.completed_template.subrange(13, 20) =~= "{moves}"@);
    assert(occurs_at(l.win_modal.completed_template, "{moves}"@, 13));
    assert(l.win_modal.completed_template.subrange(32, 37) =~= "{par}"@);
    assert(occurs_at(l.win_modal.completed_template, "{par}"@, 32));
}

/// The Русский texts.
pub open spec fn locale_ru_ru_view() -> LocaleView {
    LocaleView {
        locale: "ru-RU"@,
        language_name: "Русский"@,
        menu: MenuView {
            title: "Побег с парковки"@,
            subtitle: "Двигайте машины и выезжайте!"@,
            play_game: "Играть"@,
            level_select: "Выбор уровня"@,
            sound_on: "Звук: вкл"@,
            sound_off: "Звук: выкл"@,
        },
        level_select: LevelSelectView {
            title: "Выбор уровня"@,
            back: "Назад"@,
            size_small: "Малое 6x6"@,
            size_medium: "Среднее 8x8"@,
            size_big: "Большое 10x10"@,
            diff_relaxed: "Спокойно"@,
            diff_challenging: "Непросто"@,
            diff_hard: "Сложно"@,
            generating_levels: "Создаём уровни для этой сложности..."@,
        },
        hud: HudView {
            level_template: "Уровень {id}"@,
            moves: "Ходы"@,
            par: "Норма"@,
            stats_template: "Ходы: {moves} / Норма: {par}"@,
        },
        win_modal: WinModalView {
            title: "Уровень пройден!"@,
            completed_template: "Пройдено за {moves} ходов (норма {par})"@,
            eval_perfect: "Идеально!"@,
            eval_great: "Отлично!"@,
            eval_good: "Хорошая попытка!"@,
            next_level: "Следующий уровень"@,
            replay: "Заново"@,
            menu: "Меню"@,
        },
    }
}

fn locale_ru_ru() -> (l: LocaleStrings)
    ensures
        l@ == locale_ru_ru_view(),
{
    LocaleStrings {
        locale: "ru-RU".to_owned(),
        language_name: "Русский".to_owned(),
        menu: MenuStrings {
            title: "Побег с парковки".to_owned(),
            subtitle: "Двигайте машины и выезжайте!".to_owned(),
            play_game: "Играть".to_owned(),
            level_select: "Выбор уровня".to_owned(),
            sound_on: "Звук: вкл".to_owned(),
            sound_off: "Звук: выкл".to_owned(),
        },
        level_select: LevelSelectStrings {
            title: "Выбор уровня".to_owned(),
            back: "Назад".to_owned(),
            size_small: "Малое 6x6".to_owned(),
            size_medium: "Среднее 8x8".to_owned(),
            size_big: "Большое 10x10".to_owned(),
            diff_relaxed: "Спокойно".to_owned(),
            diff_challenging: "Непросто".to_owned(),
            diff_hard: "Сложно".to_owned(),
            generating_levels: "Создаём уровни для этой сложности...".to_owned(),
        },
        hud: HudStrings {
            level_template: "Уровень {id}".to_owned(),
            moves: "Ходы".to_owned(),
            par: "Норма".to_owned(),
            stats_template: "Ходы: {moves} / Норма: {par}".to_owned(),
        },
        win_modal: WinModalStrings {
            title: "Уровень пройден!".to_owned(),
            completed_template: "Пройдено за {moves} ходов (норма {par})".to_owned(),
            eval_perfect: "Идеально!".to_owned(),
            eval_great: "Отлично!".to_owned(),
            eval_good: "Хорошая попытка!".to_owned(),
            next_level: "Следующий уровень".to_owned(),
            replay: "Заново".to_owned(),
            menu: "Меню".to_owned(),
        },
    }
}

proof fn lemma_ru_ru_complete()
    ensures
        locale_complete(locale_ru_ru_view()),
{
    reveal_strlit("ru-RU");
    reveal_strlit("Русский");
    reveal_strlit("Побег с парковки");
    reveal_strlit("Двигайте машины и выезжайте!");
    reveal_strlit("Играть");
    reveal_strlit("Выбор уровня");
    reveal_strlit("Звук: вкл");
    reveal_strlit("Звук: выкл");
    reveal_strlit("Назад");
    reveal_strlit("Малое 6x6");
    reveal_strlit("Среднее 8x8");
    reveal_strlit("Большое 10x10");
    reveal_strlit("Спокойно");
    reveal_strlit("Непросто");
    reveal_strlit("Сложно");
    reveal_strlit("Создаём уровни для этой сложности...");
    reveal_strlit("Уровень {id}");
    reveal_strlit("Ходы");
    reveal_strlit("Норма");
    reveal_strlit("Ходы: {moves} / Норма: {par}");
    reveal_strlit("Уровень пройден!");
    reveal_strlit("Пройдено за {moves} ходов (норма {par})");
    reveal_strlit("Идеально!");
    reveal_strlit("Отлично!");
    reveal_strlit("Хорошая попытка!");
    reveal_strlit("Следующий уровень");
    reveal_strlit("Заново");
    reveal_strlit("Меню");
    reveal_strlit("{id}");
    reveal_strlit("{moves}");
    reveal_strlit("{par}");
    let l = locale_ru_ru_view();
    assert(l.hud.level_template.subrange(8, 12) =~= "{id}"@);
    assert(occurs_at(l.hud.level_template, "{id}"@, 8));
    assert(l.hud.stats_template.subrange(6, 13) =~= "{moves}"@);
    assert(occurs_at(l.hud.stats_template, "{moves}"@, 6));
    assert(l.hud.stats_template.subrange(23, 28) =~= "{par}"@);
    assert(occurs_at(l.hud.stats_template, "{par}"@, 23));
    assert(l.win_modal.completed_template.subrange(12, 19) =~= "{moves}"@);
    assert(occurs_at(l.win_modal.completed_template, "{moves}"@, 12));
    assert(l.win_modal.completed_template.subrange(33, 38) =~= "{par}"@);
    assert(occurs_at(l.win_modal.completed_template, "{par}"@, 33));
}

/// The Español texts.
pub open spec fn locale_es_es_view() -> LocaleView {
    LocaleView {
        locale: "es-ES"@,
        language_name: "Español"@,
        menu: MenuView {
            title: "Escape del Parking"@,
            subtitle: "¡Desliza los coches y sal!"@,
            play_game: "Jugar"@,
            level_select: "Elegir nivel"@,
            sound_on: "Sonido: sí"@,
            sound_off: "Sonido: no"@,
        },
        level_select: LevelSelectView {
            title: "Elegir nivel"@,
            back: "Atrás"@,
            size_small: "Pequeño 6x6"@,
            size_medium: "Mediano 8x8"@,
            size_big: "Grande 10x10"@,
            diff_relaxed: "Relajado"@,
            diff_challenging: "Desafiante"@,
            diff_hard: "Difícil"@,
            generating_levels: "Generando niveles para esta dificultad..."@,
        },
        hud: HudView {
            level_template: "Nivel {id}"@,
            moves: "Movimientos"@,
            par: "Par"@,
            stats_template: "Movimientos: {moves} / Par: {par}"@,
        },
        win_modal: WinModalView {
            title: "¡Nivel superado!"@,
            completed_template: "Completado en {moves} movimientos (par {par})"@,
            eval_perfect: "¡Perfecto!"@,
            eval_great: "¡Muy bien!"@,
            eval_good: "¡Buen intento!"@,
            next_level: "Siguiente nivel"@,
            replay: "Repetir"@,
            menu: "Menú"@,
        },
    }
}

fn locale_es_es() -> (l: LocaleStrings)
    ensures
        l@ == locale_es_es_view(),
{
    LocaleStrings {
        locale: "es-ES".to_owned(),
        language_name: "Español".to_owned(),
        menu: MenuStrings {
            title: "Escape del Parking".to_owned(),
            subtitle: "¡Desliza los coches y sal!".to_owned(),
            play_game: "Jugar".to_owned(),
            level_select: "Elegir nivel".to_owned(),
            sound_on: "Sonido: sí".to_owned(),
            sound_off: "Sonido: no".to_owned(),
        },
        level_select: LevelSelectStrings {
            title: "Elegir nivel".to_owned(),
            back: "Atrás".to_owned(),
            size_small: "Pequeño 6x6".to_owned(),
            size_medium: "Mediano 8x8".to_owned(),
            size_big: "Grande 10x10".to_owned(),
            diff_relaxed: "Relajado".to_owned(),
            diff_challenging: "Desafiante".to_owned(),
            diff_hard: "Difícil".to_owned(),
            generating_levels: "Generando niveles para esta dificultad...".to_owned(),
        },
        hud: HudStrings {
            level_template: "Nivel {id}".to_owned(),
            moves: "Movimientos".to_owned(),
            par: "Par".to_owned(),
            stats_template: "Movimientos: {moves} / Par: {par}".to_owned(),
        },
        win_modal: WinModalStrings {
            title: "¡Nivel superado!".to_owned(),
            completed_template: "Completado en {moves} movimientos (par {par})".to_owned(),
            eval_perfect: "¡Perfecto!".to_owned(),
            eval_great: "¡Muy bien!".to_owned(),
            eval_good: "¡Buen intento!".to_owned(),
            next_level: "Siguiente nivel".to_owned(),
            replay: "Repetir".to_owned(),
            menu: "Menú".to_owned(),
        },
    }
}

proof fn lemma_es_es_complete()
    ensures
        locale_complete(locale_es_es_view()),
{
    reveal_strlit("es-ES");
    reveal_strlit("Español");
    reveal_strlit("Escape del Parking");
    reveal_strlit("¡Desliza los coches y sal!");
    reveal_strlit("Jugar");
    reveal_strlit("Elegir nivel");
    reveal_strlit("Sonido: sí");
    reveal_strlit("Sonido: no");
    reveal_strlit("Atrás");
    reveal_strlit("Pequeño 6x6");
    reveal_strlit("Mediano 8x8");
    reveal_strlit("Grande 10x10");
    reveal_strlit("Relajado");
    reveal_strlit("Desafiante");
    reveal_strlit("Difícil");
    reveal_strlit("Generando niveles para esta dificultad...");
    reveal_strlit("Nivel {id}");
    reveal_strlit("Movimientos");
    reveal_strlit("Par");
    reveal_strlit("Movimientos: {moves} / Par: {par}");
    reveal_strlit("¡Nivel superado!");
    reveal_strlit("Completado en {moves} movimientos (par {par})");
    reveal_strlit("¡Perfecto!");
    reveal_strlit("¡Muy bien!");
    reveal_strlit("¡Buen intento!");
    reveal_strlit("Siguiente nivel");
    reveal_strlit("Repetir");
    reveal_strlit("Menú");
    reveal_strlit("{id}");
    reveal_strlit("{moves}");
    reveal_strlit("{par}");
    let l = locale_es_es_view();
    assert(l.hud.level_template.subrange(6, 10) =~= "{id}"@);
    assert(occurs_at(l.hud.level_template, "{id}"@, 6));
    assert(l.hud.stats_template.subrange(13, 20) =~= "{moves}"@);
    assert(occurs_at(l.hud.stats_template, "{moves}"@, 13));
    assert(l.hud.stats_template.subrange(28, 33) =~= "{par}"@);
    assert(occurs_at(l.hud.stats_template, "{par}"@, 28));
    assert(l.win_modal.completed_template.subrange(14, 21) =~= "{moves}"@);
    assert(occurs_at(l.win_modal.completed_template, "{moves}"@, 14));
    assert(l.win_modal.completed_template.subrange(39, 44) =~= "{par}"@);
    assert(occurs_at(l.win_modal.completed_template, "{par}"@, 39));
}

/// The Deutsch texts.
pub open spec fn locale_de_de_view() -> LocaleView {
    LocaleView {
        locale: "de-DE"@,
        language_name: "Deutsch"@,
        menu: MenuView {
            title: "Parkplatz-Flucht"@,
            subtitle: "Schiebe die Autos und fahr hinaus!"@,
            play_game: "Spielen"@,
            level_select: "Level wählen"@,
            sound_on: "Ton: an"@,
            sound_off: "Ton: aus"@,
        },
        level_select: LevelSelectView {
            title: "Level wählen"@,
            back: "Zurück"@,
            size_small: "Klein 6x6"@,
            size_medium: "Mittel 8x8"@,
            size_big: "Groß 10x10"@,
            diff_relaxed: "Entspannt"@,
            diff_challenging: "Anspruchsvoll"@,
            diff_hard: "Schwer"@,
            generating_levels: "Level für diese Stufe werden erstellt..."@,
        },
        hud: HudView {
            level_template: "Level {id}"@,
            moves: "Züge"@,
            par: "Par"@,
            stats_template: "Züge: {moves} / Par: {par}"@,
        },
        win_modal: WinModalView {
            title: "Level geschafft!"@,
            completed_template: "Geschafft in {moves} Zügen (Par {par})"@,
            eval_perfect: "Perfekt!"@,
            eval_great: "Sehr gut!"@,
            eval_good: "Gut gemacht!"@,
            next_level: "Nächstes Level"@,
            replay: "Nochmal"@,
            menu: "Menü"@,
        },
    }
}

fn locale_de_de() -> (l: LocaleStrings)
    ensures
        l@ == locale_de_de_view(),
{
    LocaleStrings {
        locale: "de-DE".to_owned(),
        language_name: "Deutsch".to_owned(),
        menu: MenuStrings {
            title: "Parkplatz-Flucht".to_owned(),
            subtitle: "Schiebe die Autos und fahr hinaus!".to_owned(),
            play_game: "Spielen".to_owned(),
            level_select: "Level wählen".to_owned(),
            sound_on: "Ton: an".to_owned(),
            sound_off: "Ton: aus".to_owned(),
        },
        level_select: LevelSelectStrings {
            title: "Level wählen".to_owned(),
            back: "Zurück".to_owned(),
            size_small: "Klein 6x6".to_owned(),
            size_medium: "Mittel 8x8".to_owned(),
            size_big: "Groß 10x10".to_owned(),
            diff_relaxed: "Entspannt".to_owned(),
            diff_challenging: "Anspruchsvoll".to_owned(),
            diff_hard: "Schwer".to_owned(),
            generating_levels: "Level für diese Stufe werden erstellt...".to_owned(),
        },
        hud: HudStrings {
            level_template: "Level {id}".to_owned(),
            moves: "Züge".to_owned(),
            par: "Par".to_owned(),
            stats_template: "Züge: {moves} / Par: {par}".to_owned(),
        },
        win_modal: WinModalStrings {
            title: "Level geschafft!".to_owned(),
            completed_template: "Geschafft in {moves} Zügen (Par {par})".to_owned(),
            eval_perfect: "Perfekt!".to_owned(),
            eval_great: "Sehr gut!".to_owned(),
            eval_good: "Gut gemacht!".to_owned(),
            next_level: "Nächstes Level".to_owned(),
            replay: "Nochmal".to_owned(),
            menu: "Menü".to_owned(),
        },
    }
}

proof fn lemma_de_de_complete()
    ensures
        locale_complete(locale_de_de_view()),
{
    reveal_strlit("de-DE");
    reveal_strlit("Deutsch");
    reveal_strlit("Parkplatz-Flucht");
    reveal_strlit("Schiebe die Autos und fahr hinaus!");
    reveal_strlit("Spielen");
    reveal_strlit("Level wählen");
    reveal_strlit("Ton: an");
    reveal_strlit("Ton: aus");
    reveal_strlit("Zurück");
    reveal_strlit("Klein 6x6");
    reveal_strlit("Mittel 8x8");
    reveal_strlit("Groß 10x10");
    reveal_strlit("Entspannt");
    reveal_strlit("Anspruchsvoll");
    reveal_strlit("Schwer");
    reveal_strlit("Level für diese Stufe werden erstellt...");
    reveal_strlit("Level {id}");
    reveal_strlit("Züge");
    reveal_strlit("Par");
    reveal_strlit("Züge: {moves} / Par: {par}");
    reveal_strlit("Level geschafft!");
    reveal_strlit("Geschafft in {moves} Zügen (Par {par})");
    reveal_strlit("Perfekt!");
    reveal_strlit("Sehr gut!");
    reveal_strlit("Gut gemacht!");
    reveal_strlit("Nächstes Level");
    reveal_strlit("Nochmal");
    reveal_strlit("Menü");
    reveal_strlit("{id}");
    reveal_strlit("{moves}");
    reveal_strlit("{par}");
    let l = locale_de_de_view();
    assert(l.hud.level_template.subrange(6, 10) =~= "{id}"@);
    assert(occurs_at(l.hud.level_template, "{id}"@, 6));
    assert(l.hud.stats_template.subrange(6, 13) =~= "{moves}"@);
    assert(occurs_at(l.hud.stats_template, "{moves}"@, 6));
    assert(l.hud.stats_template.subrange(21, 26) =~= "{par}"@);
    assert(occurs_at(l.hud.stats_template, "{par}"@, 21));
    assert(l.win_modal.completed_template.subrange(13, 20) =~= "{moves}"@);
    assert(occurs_at(l.win_modal.completed_template, "{moves}"@, 13));
    assert(l.win_modal.completed_template.subrange(32, 37) =~= "{par}"@);
    assert(occurs_at(l.win_modal.completed_template, "{par}"@, 32));
}

/// The Français texts.
pub open spec fn locale_fr_fr_view() -> LocaleView {
    LocaleView {
        locale: "fr-FR"@,
        language_name: "Français"@,
        menu: MenuView {
            title: "Évasion du Parking"@,
            subtitle: "Faites glisser les voitures et sortez !"@,
            play_game: "Jouer"@,
            level_select: "Choisir un niveau"@,
            sound_on: "Son : activé"@,
            sound_off: "Son : coupé"@,
        },
        level_select: LevelSelectView {
            title: "Choisir un niveau"@,
            back: "Retour"@,
            size_small: "Petit 6x6"@,
            size_medium: "Moyen 8x8"@,
            size_big: "Grand 10x10"@,
            diff_relaxed: "Détente"@,
            diff_challenging: "Exigeant"@,
            diff_hard: "Difficile"@,
            generating_levels: "Génération des niveaux pour cette difficulté..."@,
        },
        hud: HudView {
            level_template: "Niveau {id}"@,
            moves: "Coups"@,
            par: "Par"@,
            stats_template: "Coups : {moves} / Par : {par}"@,
        },
        win_modal: WinModalView {
            title: "Niveau terminé !"@,
            completed_template: "Terminé en {moves} coups (par {par})"@,
            eval_perfect: "Parfait !"@,
            eval_great: "Très bien !"@,
            eval_good: "Bel effort !"@,
            next_level: "Niveau suivant"@,
            replay: "Rejouer"@,
            menu: "Menu"@,
        },
    }
}

fn locale_fr_fr() -> (l: LocaleStrings)
    ensures
        l@ == locale_fr_fr_view(),
{
    LocaleStrings {
        locale: "fr-FR".to_owned(),
        language_name: "Français".to_owned(),
        menu: MenuStrings {
            title: "Évasion du Parking".to_owned(),
            subtitle: "Faites glisser les voitures et sortez !".to_owned(),
            play_game: "Jouer".to_owned(),
            level_select: "Choisir un niveau".to_owned(),
            sound_on: "Son : activé".to_owned(),
            sound_off: "Son : coupé".to_owned(),
        },
        level_select: LevelSelectStrings {
            title: "Choisir un niveau".to_owned(),
            back: "Retour".to_owned(),
            size_small: "Petit 6x6".to_owned(),
            size_medium: "Moyen 8x8".to_owned(),
            size_big: "Grand 10x10".to_owned(),
            diff_relaxed: "Détente".to_owned(),
            diff_challenging: "Exigeant".to_owned(),
            diff_hard: "Difficile".to_owned(),
            generating_levels: "Génération des niveaux pour cette difficulté...".to_owned(),
        },
        hud: HudStrings {
            level_template: "Niveau {id}".to_owned(),
            moves: "Coups".to_owned(),
            par: "Par".to_owned(),
            stats_template: "Coups : {moves} / Par : {par}".to_owned(),
        },
        win_modal: WinModalStrings {
            title: "Niveau terminé !".to_owned(),
            completed_template: "Terminé en {moves} coups (par {par})".to_owned(),
            eval_perfect: "Parfait !".to_owned(),
            eval_great: "Très bien !".to_owned(),
            eval_good: "Bel effort !".to_owned(),
            next_level: "Niveau suivant".to_owned(),
            replay: "Rejouer".to_owned(),
            menu: "Menu".to_owned(),
        },
    }
}

proof fn lemma_fr_fr_complete()
    ensures
        locale_complete(locale_fr_fr_view()),
{
    reveal_strlit("fr-FR");
    reveal_strlit("Français");
    reveal_strlit("Évasion du Parking");
    reveal_strlit("Faites glisser les voitures et sortez !");
    reveal_strlit("Jouer");
    reveal_strlit("Choisir un niveau");
    reveal_strlit("Son : activé");
    reveal_strlit("Son : coupé");
    reveal_strlit("Retour");
    reveal_strlit("Petit 6x6");
    reveal_strlit("Moyen 8x8");
    reveal_strlit("Grand 10x10");
    reveal_strlit("Détente");
    reveal_strlit("Exigeant");
    reveal_strlit("Difficile");
    reveal_strlit("Génération des niveaux pour cette difficulté...");
    reveal_strlit("Niveau {id}");
    reveal_strlit("Coups");
    reveal_strlit("Par");
    reveal_strlit("Coups : {moves} / Par : {par}");
    reveal_strlit("Niveau terminé !");
    reveal_strlit("Terminé en {moves} coups (par {par})");
    reveal_strlit("Parfait !");
    reveal_strlit("Très bien !");
    reveal_strlit("Bel effort !");
    reveal_strlit("Niveau suivant");
    reveal_strlit("Rejouer");
    reveal_strlit("Menu");
    reveal_strlit("{id}");
    reveal_strlit("{moves}");
    reveal_strlit("{par}");
    let l = locale_fr_fr_view();
    assert(l.hud.level_template.subrange(7, 11) =~= "{id}"@);
    assert(occurs_at(l.hud.level_template, "{id}"@, 7));
    assert(l.hud.stats_template.subrange(8, 15) =~= "{moves}"@);
    assert(occurs_at(l.hud.stats_template, "{moves}"@, 8));
    assert(l.hud.stats_template.subrange(24, 29) =~= "{par}"@);
    assert(occurs_at(l.hud.stats_template, "{par}"@, 24));
    assert(l.win_modal.completed_template.subrange(11, 18) =~= "{moves}"@);
    assert(occurs_at(l.win_modal.completed_template, "{moves}"@, 11));
    assert(l.win_modal.completed_template.subrange(30, 35) =~= "{par}"@);
    assert(occurs_at(l.win_modal.completed_template, "{par}"@, 30));
}

/// The 简体中文 texts.
pub open spec fn locale_zh_cn_view() -> LocaleView {
    LocaleView {
        locale: "zh-CN"@,
        language_name: "简体中文"@,
        menu: MenuView {
            title: "停车场逃脱"@,
            subtitle: "滑动车辆，开出停车场！"@,
            play_game: "开始游戏"@,
            level_select: "选择关卡"@,
            sound_on: "声音：开"@,
            sound_off: "声音：关"@,
        },
        level_select: LevelSelectView {
            title: "选择关卡"@,
            back: "返回"@,
            size_small: "小 6x6"@,
            size_medium: "中 8x8"@,
            size_big: "大 10x10"@,
            diff_relaxed: "轻松"@,
            diff_challenging: "挑战"@,
            diff_hard: "困难"@,
            generating_levels: "正在为此难度生成关卡..."@,
        },
        hud: HudView {
            level_template: "第 {id} 关"@,
            moves: "步数"@,
            par: "标准"@,
            stats_template: "步数：{moves} / 标准：{par}"@,
        },
        win_modal: WinModalView {
            title: "关卡完成！"@,
            completed_template: "用 {moves} 步完成（标准 {par}）"@,
            eval_perfect: "完美！"@,
            eval_great: "很棒！"@,
            eval_good: "不错！"@,
            next_level: "下一关"@,
            replay: "重玩"@,
            menu: "菜单"@,
        },
    }
}

fn locale_zh_cn() -> (l: LocaleStrings)
    ensures
        l@ == locale_zh_cn_view(),
{
    LocaleStrings {
        locale: "zh-CN".to_owned(),
        language_name: "简体中文".to_owned(),
        menu: MenuStrings {
            title: "停车场逃脱".to_owned(),
            subtitle: "滑动车辆，开出停车场！".to_owned(),
            play_game: "开始游戏".to_owned(),
            level_select: "选择关卡".to_owned(),
            sound_on: "声音：开".to_owned(),
            sound_off: "声音：关".to_owned(),
        },
        level_select: LevelSelectStrings {
            title: "选择关卡".to_owned(),
            back: "返回".to_owned(),
            size_small: "小 6x6".to_owned(),
            size_medium: "中 8x8".to_owned(),
            size_big: "大 10x10".to_owned(),
            diff_relaxed: "轻松".to_owned(),
            diff_challenging: "挑战".to_owned(),
            diff_hard: "困难".to_owned(),
            generating_levels: "正在为此难度生成关卡...".to_owned(),
        },
        hud: HudStrings {
            level_template: "第 {id} 关".to_owned(),
            moves: "步数".to_owned(),
            par: "标准".to_owned(),
            stats_template: "步数：{moves} / 标准：{par}".to_owned(),
        },
        win_modal: WinModalStrings {
            title: "关卡完成！".to_owned(),
            completed_template: "用 {moves} 步完成（标准 {par}）".to_owned(),
            eval_perfect: "完美！".to_owned(),
            eval_great: "很棒！".to_owned(),
            eval_good: "不错！".to_owned(),
            next_level: "下一关".to_owned(),
            replay: "重玩".to_owned(),
            menu: "菜单".to_owned(),
        },
    }
}

proof fn lemma_zh_cn_complete()
    ensures
        locale_complete(locale_zh_cn_view()),
{
    reveal_strlit("zh-CN");
    reveal_strlit("简体中文");
    reveal_strlit("停车场逃脱");
    reveal_strlit("滑动车辆，开出停车场！");
    reveal_strlit("开始游戏");
    reveal_strlit("选择关卡");
    reveal_strlit("声音：开");
    reveal_strlit("声音：关");
    reveal_strlit("返回");
    reveal_strlit("小 6x6");
    reveal_strlit("中 8x8");
    reveal_strlit("大 10x10");
    reveal_strlit("轻松");
    reveal_strlit("挑战");
    reveal_strlit("困难");
    reveal_strlit("正在为此难度生成关卡...");
    reveal_strlit("第 {id} 关");
    reveal_strlit("步数");
    reveal_strlit("标准");
    reveal_strlit("步数：{moves} / 标准：{par}");
    reveal_strlit("关卡完成！");
    reveal_strlit("用 {moves} 步完成（标准 {par}）");
    reveal_strlit("完美！");
    reveal_strlit("很棒！");
    reveal_strlit("不错！");
    reveal_strlit("下一关");
    reveal_strlit("重玩");
    reveal_strlit("菜单");
    reveal_strlit("{id}");
    reveal_strlit("{moves}");
    reveal_strlit("{par}");
    let l = locale_zh_cn_view();
    assert(l.hud.level_template.subrange(2, 6) =~= "{id}"@);
    assert(occurs_at(l.hud.level_template, "{id}"@, 2));
    assert(l.hud.stats_template.subrange(3, 10) =~= "{moves}"@);
    assert(occurs_at(l.hud.stats_template, "{moves}"@, 3));
    assert(l.hud.stats_template.subrange(16, 21) =~= "{par}"@);
    assert(occurs_at(l.hud.stats_template, "{par}"@, 16));
    assert(l.win_modal.completed_template.subrange(2, 9) =~= "{moves}"@);
    assert(occurs_at(l.win_modal.completed_template, "{moves}"@, 2));
    assert(l.win_modal.completed_template.subrange(17, 22) =~= "{par}"@);
    assert(occurs_at(l.win_modal.completed_template, "{par}"@, 17));
}

/// The 한국어 texts.
pub open spec fn locale_ko_kr_view() -> LocaleView {
    LocaleView {
        locale: "ko-KR"@,
        language_name: "한국어"@,
        menu: MenuView {
            title: "주차장 탈출"@,
            subtitle: "차를 밀어서 빠져나가세요!"@,
            play_game: "게임 시작"@,
            level_select: "레벨 선택"@,
            sound_on: "소리: 켜짐"@,
            sound_off: "소리: 꺼짐"@,
        },
        level_select: LevelSelectView {
            title: "레벨 선택"@,
            back: "뒤로"@,
            size_small: "작게 6x6"@,
            size_medium: "보통 8x8"@,
            size_big: "크게 10x10"@,
            diff_relaxed: "여유"@,
            diff_challenging: "도전"@,
            diff_hard: "어려움"@,
            generating_levels: "이 난이도의 레벨을 생성하는 중..."@,
        },
        hud: HudView {
            level_template: "레벨 {id}"@,
            moves: "이동"@,
            par: "기준"@,
            stats_template: "이동: {moves} / 기준: {par}"@,
        },
        win_modal: WinModalView {
            title: "레벨 완료!"@,
            completed_template: "{moves}번 이동으로 완료 (기준 {par})"@,
            eval_perfect: "완벽해요!"@,
            eval_great: "훌륭해요!"@,
            eval_good: "잘했어요!"@,
            next_level: "다음 레벨"@,
            replay: "다시 하기"@,
            menu: "메뉴"@,
        },
    }
}

fn locale_ko_kr() -> (l: LocaleStrings)
    ensures
        l@ == locale_ko_kr_view(),
{
    LocaleStrings {
        locale: "ko-KR".to_owned(),
        language_name: "한국어".to_owned(),
        menu: MenuStrings {
            title: "주차장 탈출".to_owned(),
            subtitle: "차를 밀어서 빠져나가세요!".to_owned(),
            play_game: "게임 시작".to_owned(),
            level_select: "레벨 선택".to_owned(),
            sound_on: "소리: 켜짐".to_owned(),
            sound_off: "소리: 꺼짐".to_owned(),
        },
        level_select: LevelSelectStrings {
            title: "레벨 선택".to_owned(),
            back: "뒤로".to_owned(),
            size_small: "작게 6x6".to_owned(),
            size_medium: "보통 8x8".to_owned(),
            size_big: "크게 10x10".to_owned(),
            diff_relaxed: "여유".to_owned(),
            diff_challenging: "도전".to_owned(),
            diff_hard: "어려움".to_owned(),
            generating_levels: "이 난이도의 레벨을 생성하는 중...".to_owned(),
        },
        hud: HudStrings {
            level_template: "레벨 {id}".to_owned(),
            moves: "이동".to_owned(),
            par: "기준".to_owned(),
            stats_template: "이동: {moves} / 기준: {par}".to_owned(),
        },
        win_modal: WinModalStrings {
            title: "레벨 완료!".to_owned(),
            completed_template: "{moves}번 이동으로 완료 (기준 {par})".to_owned(),
            eval_perfect: "완벽해요!".to_owned(),
            eval_great: "훌륭해요!".to_owned(),
            eval_good: "잘했어요!".to_owned(),
            next_level: "다음 레벨".to_owned(),
            replay: "다시 하기".to_owned(),
            menu: "메뉴".to_owned(),
        },
    }
}

proof fn lemma_ko_kr_complete()
    ensures
        locale_complete(locale_ko_kr_view()),
{
    reveal_strlit("ko-KR");
    reveal_strlit("한국어");
    reveal_strlit("주차장 탈출");
    reveal_strlit("차를 밀어서 빠져나가세요!");
    reveal_strlit("게임 시작");
    reveal_strlit("레벨 선택");
    reveal_strlit("소리: 켜짐");
    reveal_strlit("소리: 꺼짐");
    reveal_strlit("뒤로");
    reveal_strlit("작게 6x6");
    reveal_strlit("보통 8x8");
    reveal_strlit("크게 10x10");
    reveal_strlit("여유");
    reveal_strlit("도전");
    reveal_strlit("어려움");
    reveal_strlit("이 난이도의 레벨을 생성하는 중...");
    reveal_strlit("레벨 {id}");
    reveal_strlit("이동");
    reveal_strlit("기준");
    reveal_strlit("이동: {moves} / 기준: {par}");
    reveal_strlit("레벨 완료!");
    reveal_strlit("{moves}번 이동으로 완료 (기준 {par})");
    reveal_strlit("완벽해요!");
    reveal_strlit("훌륭해요!");
    reveal_strlit("잘했어요!");
    reveal_strlit("다음 레벨");
    reveal_strlit("다시 하기");
    reveal_strlit("메뉴");
    reveal_strlit("{id}");
    reveal_strlit("{moves}");
    reveal_strlit("{par}");
    let l = locale_ko_kr_view();
    assert(l.hud.level_template.subrange(3, 7) =~= "{id}"@);
    assert(occurs_at(l.hud.level_template, "{id}"@, 3));
    assert(l.hud.stats_template.subrange(4, 11) =~= "{moves}"@);
    assert(occurs_at(l.hud.stats_template, "{moves}"@, 4));
    assert(l.hud.stats_template.subrange(18, 23) =~= "{par}"@);
    assert(occurs_at(l.hud.stats_template, "{par}"@, 18));
    assert(l.win_modal.completed_template.subrange(0, 7) =~= "{moves}"@);
    assert(occurs_at(l.win_modal.completed_template, "{moves}"@, 0));
    assert(l.win_modal.completed_template.subrange(21, 26) =~= "{par}"@);
    assert(occurs_at(l.win_modal.completed_template, "{par}"@, 21));
}

/// The 日本語 texts.
pub open spec fn locale_ja_jp_view() -> LocaleView {
    LocaleView {
        locale: "ja-JP"@,
        language_name: "日本語"@,
        menu: MenuView {
            title: "パーキング脱出"@,
            subtitle: "車をスライドして脱出しよう！"@,
            play_game: "プレイ"@,
            level_select: "レベル選択"@,
            sound_on: "サウンド：オン"@,
            sound_off: "サウンド：オフ"@,
        },
        level_select: LevelSelectView {
            title: "レベル選択"@,
            back: "戻る"@,
            size_small: "小 6x6"@,
            size_medium: "中 8x8"@,
            size_big: "大 10x10"@,
            diff_relaxed: "のんびり"@,
            diff_challenging: "チャレンジ"@,
            diff_hard: "むずかしい"@,
            generating_levels: "この難易度のレベルを生成中..."@,
        },
        hud: HudView {
            level_template: "レベル {id}"@,
            moves: "手数"@,
            par: "目標"@,
            stats_template: "手数：{moves} / 目標：{par}"@,
        },
        win_modal: WinModalView {
            title: "レベルクリア！"@,
            completed_template: "{moves} 手でクリア（目標 {par}）"@,
            eval_perfect: "パーフェクト！"@,
            eval_great: "すごい！"@,
            eval_good: "よくできました！"@,
            next_level: "次のレベル"@,
            replay: "もう一度"@,
            menu: "メニュー"@,
        },
    }
}

fn locale_ja_jp() -> (l: LocaleStrings)
    ensures
        l@ == locale_ja_jp_view(),
{
    LocaleStrings {
        locale: "ja-JP".to_owned(),
        language_name: "日本語".to_owned(),
        menu: MenuStrings {
            title: "パーキング脱出".to_owned(),
            subtitle: "車をスライドして脱出しよう！".to_owned(),
            play_game: "プレイ".to_owned(),
            level_select: "レベル選択".to_owned(),
            sound_on: "サウンド：オン".to_owned(),
            sound_off: "サウンド：オフ".to_owned(),
        },
        level_select: LevelSelectStrings {
            title: "レベル選択".to_owned(),
            back: "戻る".to_owned(),
            size_small: "小 6x6".to_owned(),
            size_medium: "中 8x8".to_owned(),
            size_big: "大 10x10".to_owned(),
            diff_relaxed: "のんびり".to_owned(),
            diff_challenging: "チャレンジ".to_owned(),
            diff_hard: "むずかしい".to_owned(),
            generating_levels: "この難易度のレベルを生成中...".to_owned(),
        },
        hud: HudStrings {
            level_template: "レベル {id}".to_owned(),
            moves: "手数".to_owned(),
            par: "目標".to_owned(),
            stats_template: "手数：{moves} / 目標：{par}".to_owned(),
        },
        win_modal: WinModalStrings {
            title: "レベルクリア！".to_owned(),
            completed_template: "{moves} 手でクリア（目標 {par}）".to_owned(),
            eval_perfect: "パーフェクト！".to_owned(),
            eval_great: "すごい！".to_owned(),
            eval_good: "よくできました！".to_owned(),
            next_level: "次のレベル".to_owned(),
            replay: "もう一度".to_owned(),
            menu: "メニュー".to_owned(),
        },
    }
}

proof fn lemma_ja_jp_complete()
    ensures
        locale_complete(locale_ja_jp_view()),
{
    reveal_strlit("ja-JP");
    reveal_strlit("日本語");
    reveal_strlit("パーキング脱出");
    reveal_strlit("車をスライドして脱出しよう！");
    reveal_strlit("プレイ");
    reveal_strlit("レベル選択");
    reveal_strlit("サウンド：オン");
    reveal_strlit("サウンド：オフ");
    reveal_strlit("戻る");
    reveal_strlit("小 6x6");
    reveal_strlit("中 8x8");
    reveal_strlit("大 10x10");
    reveal_strlit("のんびり");
    reveal_strlit("チャレンジ");
    reveal_strlit("むずかしい");
    reveal_strlit("この難易度のレベルを生成中...");
    reveal_strlit("レベル {id}");
    reveal_strlit("手数");
    reveal_strlit("目標");
    reveal_strlit("手数：{moves} / 目標：{par}");
    reveal_strlit("レベルクリア！");
    reveal_strlit("{moves} 手でクリア（目標 {par}）");
    reveal_strlit("パーフェクト！");
    reveal_strlit("すごい！");
    reveal_strlit("よくできました！");
    reveal_strlit("次のレベル");
    reveal_strlit("もう一度");
    reveal_strlit("メニュー");
    reveal_strlit("{id}");
    reveal_strlit("{moves}");
    reveal_strlit("{par}");
    let l = locale_ja_jp_view();
    assert(l.hud.level_template.subrange(4, 8) =~= "{id}"@);
    assert(occurs_at(l.hud.level_template, "{id}"@, 4));
    assert(l.hud.stats_template.subrange(3, 10) =~= "{moves}"@);
    assert(occurs_at(l.hud.stats_template, "{moves}"@, 3));
    assert(l.hud.stats_template.subrange(16, 21) =~= "{par}"@);
    assert(occurs_at(l.hud.stats_template, "{par}"@, 16));
    assert(l.win_modal.completed_template.subrange(0, 7) =~= "{moves}"@);
    assert(occurs_at(l.win_modal.completed_template, "{moves}"@, 0));
    assert(l.win_modal.completed_template.subrange(17, 22) =~= "{par}"@);
    assert(occurs_at(l.win_modal.completed_template, "{par}"@, 17));
}

/// The built-in translations, English first.
pub open spec fn builtin_locales() -> Seq<LocaleView> {
    seq![
        locale_en_us_view(),
        locale_ru_ru_view(),
        locale_es_es_view(),
        locale_de_de_view(),
        locale_fr_fr_view(),
        locale_zh_cn_view(),
        locale_ko_kr_view(),
        locale_ja_jp_view(),
    ]
}

/// Every built-in translation is complete and carries its tag.
pub proof fn lemma_builtin_locales_complete()
    ensures
        builtin_locales().len() == 8,
        forall|i: int| 0 <= i < 8 ==> #[trigger] locale_complete(builtin_locales()[i]),
        forall|i: int| 0 <= i < 8 ==> (#[trigger] builtin_locales()[i]).locale == builtin_locale_tags()[i],
{
    lemma_en_us_complete();
    lemma_ru_ru_complete();
    lemma_es_es_complete();
    lemma_de_de_complete();
    lemma_fr_fr_complete();
    lemma_zh_cn_complete();
    lemma_ko_kr_complete();
    lemma_ja_jp_complete();
}

/// Every built-in translation shows the numbers it is given: the level title
/// shows the level number, and the statistics and completion lines show both
/// the moves and the par.
pub proof fn lemma_builtin_texts_show_numbers(i: int, id: u32, moves: u32, par: u32)
    requires
        0 <= i < 8,
    ensures
        contains_text(
            replace_all_spec(builtin_locales()[i].hud.level_template, "{id}"@, decimal_spec(id as nat)),
            decimal_spec(id as nat),
        ),
        contains_text(fill_moves_par_spec(builtin_locales()[i].hud.stats_template, moves, par), decimal_spec(moves as nat)),
        contains_text(fill_moves_par_spec(builtin_locales()[i].hud.stats_template, moves, par), decimal_spec(par as nat)),
        contains_text(
            fill_moves_par_spec(builtin_locales()[i].win_modal.completed_template, moves, par),
            decimal_spec(moves as nat),
        ),
        contains_text(
            fill_moves_par_spec(builtin_locales()[i].win_modal.completed_template, moves, par),
            decimal_spec(par as nat),
        ),
{
    lemma_builtin_locales_complete();
    let l = builtin_locales()[i];
    assert(locale_complete(l));
    lemma_level_title_shows_number(l, id);
    lemma_move_line_shows_numbers(l.hud.stats_template, moves, par);
    lemma_move_line_shows_numbers(l.win_modal.completed_template, moves, par);
}

/// All built-in translations, English first. Each is complete: no text is
/// empty, and the templates hold their `{id}`, `{moves}` and `{par}` slots.
pub fn get_locales_list() -> (v: Vec<LocaleStrings>)
    ensures
        v@.map_values(|l: LocaleStrings| l@) == builtin_locales(),
        locale_tags_of(v@) == builtin_locale_tags(),
        v@.len() == 8,
        forall|i: int| 0 <= i < v@.len() ==> #[trigger] locale_complete(v@[i]@),
{
    let mut v: Vec<LocaleStrings> = Vec::new();
    v.push(locale_en_us());
    v.push(locale_ru_ru());
    v.push(locale_es_es());
    v.push(locale_de_de());
    v.push(locale_fr_fr());
    v.push(locale_zh_cn());
    v.push(locale_ko_kr());
    v.push(locale_ja_jp());
    proof {
        lemma_builtin_locales_complete();
        assert(v@.map_values(|l: LocaleStrings| l@) =~= builtin_locales());
        assert forall|i: int| 0 <= i < v@.len() implies #[trigger] locale_complete(v@[i]@) by {
            assert(v@[i]@ == builtin_locales()[i]);
        }
        assert(locale_tags_of(v@) =~= builtin_locale_tags()) by {
            assert forall|i: int| 0 <= i < 8 implies locale_tags_of(v@)[i] == builtin_locale_tags()[i] by {
                assert(v@[i]@ == builtin_locales()[i]);
            }
        }
    }
    v
}

/// Resolves a requested locale tag against the built-in translations:
/// exact normalized match, then language match (with the aliases "jp", "cn",
/// "kr"), then English. Returns the chosen translation entry itself.
pub fn resolve_locale(tag: &str) -> (l: LocaleStrings)
    ensures
        0 <= resolve_index_spec(builtin_locale_tags(), tag@) < 8,
        l@ == builtin_locales()[resolve_index_spec(builtin_locale_tags(), tag@)],
        l.locale@ == builtin_locale_tags()[resolve_index_spec(builtin_locale_tags(), tag@)],
        locale_complete(l@),
{
    let mut locales = get_locales_list();
    let idx = resolve_locale_in(&locales, tag);
    let ghost before = locales@;
    let l = locales.swap_remove(idx);
    proof {
        lemma_builtin_locales_complete();
        assert(before.map_values(|x: LocaleStrings| x@)[idx as int] == before[idx as int]@);
    }
    l
}

/// The built-in translation a browser language code stands for: 1 Russian,
/// 2 Spanish, 3 German, 4 French, 5 Japanese, 6 Chinese, 7 Korean, anything
/// else English.
pub open spec fn browser_language_name(code: i32) -> Seq<char> {
    if code == 1 {
        "Русский"@
    } else if code == 2 {
        "Español"@
    } else if code == 3 {
        "Deutsch"@
    } else if code == 4 {
        "Français"@
    } else if code == 5 {
        "日本語"@
    } else if code == 6 {
        "简体中文"@
    } else if code == 7 {
        "한국어"@
    } else {
        "English"@
    }
}

/// The tag chosen for a browser language code is the tag of the built-in
/// translation in that language: there is a translation carrying exactly that
/// tag, and its language name is the language the code stands for.
pub proof fn lemma_browser_code_picks_its_language(code: i32)
    ensures
        exists|k: int|
            0 <= k < builtin_locales().len() && #[trigger] builtin_locales()[k].locale
                == crate::i18n::system_language_tag_spec(code) && builtin_locales()[k].language_name
                == browser_language_name(code),
{
    let b = builtin_locales();
    let k: int = if code == 1 {
        1
    } else if code == 2 {
        2
    } else if code == 3 {
        3
    } else if code == 4 {
        4
    } else if code == 5 {
        7
    } else if code == 6 {
        5
    } else if code == 7 {
        6
    } else {
        0
    };
    assert(b[k].locale == crate::i18n::system_language_tag_spec(code));
    assert(b[k].language_name == browser_language_name(code));
}

} // verus!
