use vstd::prelude::*;

use crate::level::{DifficultyTier, FieldSize};
use crate::text::{
    lemma_trim_idempotent, contains_text, lemma_decimal_digits, lemma_replace_keeps_other, lemma_replace_shows_replacement,
    never_overlap, first_non_ws, lemma_first_non_ws_bounds, lemma_trim_of_trimmed, lemma_trimmed_end_bounds,
    trimmed_end, ascii_lower, ascii_lower_spec, chars_eq, chars_of, decimal_chars, decimal_spec, is_ws_spec,
    occurs_at, occurs_at_exec, replace_all, replace_all_spec, starts_with_spec, string_from_chars,
    trim_chars, trim_spec,
};

verus! {

/// Texts of the main menu.
#[derive(Debug, Clone, PartialEq, Eq)]
pub struct MenuStrings {
    pub title: String,
    pub subtitle: String,
    pub play_game: String,
    pub level_select: String,
    pub sound_on: String,
    pub sound_off: String,
}

/// Texts of the level selection screen.
#[derive(Debug, Clone, PartialEq, Eq)]
pub struct LevelSelectStrings {
    pub title: String,
    pub back: String,
    pub size_small: String,
    pub size_medium: String,
    pub size_big: String,
    pub diff_relaxed: String,
    pub diff_challenging: String,
    pub diff_hard: String,
    pub generating_levels: String,
}

pub open spec fn size_label_spec(s: LevelSelectStrings, size: FieldSize) -> Seq<char> {
    match size {
        FieldSize::Small6x6 => s.size_small@,
        FieldSize::Medium8x8 => s.size_medium@,
        FieldSize::Big10x10 => s.size_big@,
    }
}

pub open spec fn difficulty_label_text_spec(s: LevelSelectStrings, diff: DifficultyTier) -> Seq<
    char,
> {
    match diff {
        DifficultyTier::Relaxed => s.diff_relaxed@,
        DifficultyTier::Challenging => s.diff_challenging@,
        DifficultyTier::Hard => s.diff_hard@,
    }
}

impl LevelSelectStrings {
    /// The tab label of a board size.
    pub fn size_label(&self, size: FieldSize) -> (r: &str)
        ensures
            r@ == size_label_spec(*self, size),
    {
        match size {
            FieldSize::Small6x6 => self.size_small.as_str(),
            FieldSize::Medium8x8 => self.size_medium.as_str(),
            FieldSize::Big10x10 => self.size_big.as_str(),
        }
    }

    /// The tab label of a difficulty tier.
    pub fn difficulty_label(&self, diff: DifficultyTier) -> (r: &str)
        ensures
            r@ == difficulty_label_text_spec(*self, diff),
    {
        match diff {
            DifficultyTier::Relaxed => self.diff_relaxed.as_str(),
            DifficultyTier::Challenging => self.diff_challenging.as_str(),
            DifficultyTier::Hard => self.diff_hard.as_str(),
        }
    }
}

/// Texts of the in-game heads-up display.
#[derive(Debug, Clone, PartialEq, Eq)]
pub struct HudStrings {
    pub level_template: String,
    pub moves: String,
    pub par: String,
    pub stats_template: String,
}

/// Fills `{moves}` and then `{par}` into a template.
pub open spec fn fill_moves_par_spec(template: Seq<char>, moves: u32, par: u32) -> Seq<char> {
    replace_all_spec(
        replace_all_spec(template, "{moves}"@, decimal_spec(moves as nat)),
        "{par}"@,
        decimal_spec(par as nat),
    )
}

fn fill_moves_par(template: &String, moves: u32, par: u32) -> (r: String)
    ensures
        r@ == fill_moves_par_spec(template@, moves, par),
{
    proof {
        reveal_strlit("{moves}");
        reveal_strlit("{par}");
    }
    let t = chars_of(template.as_str());
    let pm = chars_of("{moves}");
    let pp = chars_of("{par}");
    let dm = decimal_chars(moves as u64);
    let dp = decimal_chars(par as u64);
    let first = replace_all(t.as_slice(), pm.as_slice(), dm.as_slice());
    let second = replace_all(first.as_slice(), pp.as_slice(), dp.as_slice());
    string_from_chars(second.as_slice())
}

impl HudStrings {
    /// The level title, with `{id}` replaced by the level number.
    pub fn format_level(&self, id: u32) -> (r: String)
        ensures
            r@ == replace_all_spec(self.level_template@, "{id}"@, decimal_spec(id as nat)),
    {
        proof {
            reveal_strlit("{id}");
        }
        let t = chars_of(self.level_template.as_str());
        let p = chars_of("{id}");
        let d = decimal_chars(id as u64);
        let out = replace_all(t.as_slice(), p.as_slice(), d.as_slice());
        string_from_chars(out.as_slice())
    }

    /// The move statistics line, with `{moves}` and `{par}` filled in.
    pub fn format_stats(&self, moves: u32, par: u32) -> (r: String)
        ensures
            r@ == fill_moves_par_spec(self.stats_template@, moves, par),
    {
        fill_moves_par(&self.stats_template, moves, par)
    }
}

/// Texts of the level-completed dialog.
#[derive(Debug, Clone, PartialEq, Eq)]
pub struct WinModalStrings {
    pub title: String,
    pub completed_template: String,
    pub eval_perfect: String,
    pub eval_great: String,
    pub eval_good: String,
    pub next_level: String,
    pub replay: String,
    pub menu: String,
}

/// Largest move count still rated second best for a given par:
/// `par + max(par / 2, 2)`.
pub open spec fn great_limit(par: u32) -> int {
    par + if par / 2 >= 2 { par / 2 } else { 2 }
}

pub open spec fn rating_spec(w: WinModalStrings, moves: u32, par: u32) -> Seq<char> {
    if moves <= par {
        w.eval_perfect@
    } else if moves <= great_limit(par) {
        w.eval_great@
    } else {
        w.eval_good@
    }
}

impl WinModalStrings {
    /// The completion line, with `{moves}` and `{par}` filled in.
    pub fn format_completed(&self, moves: u32, par: u32) -> (r: String)
        ensures
            r@ == fill_moves_par_spec(self.completed_template@, moves, par),
    {
        fill_moves_par(&self.completed_template, moves, par)
    }

    /// The verdict shown for finishing in `moves` against `par`.
    pub fn rating_evaluation(&self, moves: u32, par: u32) -> (r: &str)
        ensures
            r@ == rating_spec(*self, moves, par),
    {
        let half: u64 = (par / 2) as u64;
        let bonus: u64 = if half >= 2 {
            half
        } else {
            2
        };
        if moves <= par {
            self.eval_perfect.as_str()
        } else if (moves as u64) <= (par as u64) + bonus {
            self.eval_great.as_str()
        } else {
            self.eval_good.as_str()
        }
    }
}

/// All texts of one language.
#[derive(Debug, Clone, PartialEq, Eq)]
pub struct LocaleStrings {
    pub locale: String,
    pub language_name: String,
    pub menu: MenuStrings,
    pub level_select: LevelSelectStrings,
    pub hud: HudStrings,
    pub win_modal: WinModalStrings,
}

/// The texts of the main menu, as character sequences.
pub struct MenuView {
    pub title: Seq<char>,
    pub subtitle: Seq<char>,
    pub play_game: Seq<char>,
    pub level_select: Seq<char>,
    pub sound_on: Seq<char>,
    pub sound_off: Seq<char>,
}

impl View for MenuStrings {
    type V = MenuView;

    open spec fn view(&self) -> MenuView {
        MenuView {
            title: self.title@,
            subtitle: self.subtitle@,
            play_game: self.play_game@,
            level_select: self.level_select@,
            sound_on: self.sound_on@,
            sound_off: self.sound_off@,
        }
    }
}

/// The texts of the level selection screen, as character sequences.
pub struct LevelSelectView {
    pub title: Seq<char>,
    pub back: Seq<char>,
    pub size_small: Seq<char>,
    pub size_medium: Seq<char>,
    pub size_big: Seq<char>,
    pub diff_relaxed: Seq<char>,
    pub diff_challenging: Seq<char>,
    pub diff_hard: Seq<char>,
    pub generating_levels: Seq<char>,
}

impl View for LevelSelectStrings {
    type V = LevelSelectView;

    open spec fn view(&self) -> LevelSelectView {
        LevelSelectView {
            title: self.title@,
            back: self.back@,
            size_small: self.size_small@,
            size_medium: self.size_medium@,
            size_big: self.size_big@,
            diff_relaxed: self.diff_relaxed@,
            diff_challenging: self.diff_challenging@,
            diff_hard: self.diff_hard@,
            generating_levels: self.generating_levels@,
        }
    }
}

/// The texts of the heads-up display, as character sequences.
pub struct HudView {
    pub level_template: Seq<char>,
    pub moves: Seq<char>,
    pub par: Seq<char>,
    pub stats_template: Seq<char>,
}

impl View for HudStrings {
    type V = HudView;

    open spec fn view(&self) -> HudView {
        HudView {
            level_template: self.level_template@,
            moves: self.moves@,
            par: self.par@,
            stats_template: self.stats_template@,
        }
    }
}

/// The texts of the level-completed dialog, as character sequences.
pub struct WinModalView {
    pub title: Seq<char>,
    pub completed_template: Seq<char>,
    pub eval_perfect: Seq<char>,
    pub eval_great: Seq<char>,
    pub eval_good: Seq<char>,
    pub next_level: Seq<char>,
    pub replay: Seq<char>,
    pub menu: Seq<char>,
}

impl View for WinModalStrings {
    type V = WinModalView;

    open spec fn view(&self) -> WinModalView {
        WinModalView {
            title: self.title@,
            completed_template: self.completed_template@,
            eval_perfect: self.eval_perfect@,
            eval_great: self.eval_great@,
            eval_good: self.eval_good@,
            next_level: self.next_level@,
            replay: self.replay@,
            menu: self.menu@,
        }
    }
}

/// All texts of one language, as character sequences.
pub struct LocaleView {
    pub locale: Seq<char>,
    pub language_name: Seq<char>,
    pub menu: MenuView,
    pub level_select: LevelSelectView,
    pub hud: HudView,
    pub win_modal: WinModalView,
}

impl View for LocaleStrings {
    type V = LocaleView;

    open spec fn view(&self) -> LocaleView {
        LocaleView {
            locale: self.locale@,
            language_name: self.language_name@,
            menu: self.menu@,
            level_select: self.level_select@,
            hud: self.hud@,
            win_modal: self.win_modal@,
        }
    }
}

/// A translation is complete: no text is empty, the level title has its
/// `{id}` slot, and both move lines have their `{moves}` and `{par}` slots.
pub open spec fn locale_complete(l: LocaleView) -> bool {
    &&& l.locale.len() > 0
    &&& l.language_name.len() > 0
    &&& l.menu.title.len() > 0
    &&& l.menu.subtitle.len() > 0
    &&& l.menu.play_game.len() > 0
    &&& l.menu.level_select.len() > 0
    &&& l.menu.sound_on.len() > 0
    &&& l.menu.sound_off.len() > 0
    &&& l.level_select.title.len() > 0
    &&& l.level_select.back.len() > 0
    &&& l.level_select.size_small.len() > 0
    &&& l.level_select.size_medium.len() > 0
    &&& l.level_select.size_big.len() > 0
    &&& l.level_select.diff_relaxed.len() > 0
    &&& l.level_select.diff_challenging.len() > 0
    &&& l.level_select.diff_hard.len() > 0
    &&& l.level_select.generating_levels.len() > 0
    &&& l.hud.level_template.len() > 0
    &&& l.hud.moves.len() > 0
    &&& l.hud.par.len() > 0
    &&& l.hud.stats_template.len() > 0
    &&& l.win_modal.title.len() > 0
    &&& l.win_modal.completed_template.len() > 0
    &&& l.win_modal.eval_perfect.len() > 0
    &&& l.win_modal.eval_great.len() > 0
    &&& l.win_modal.eval_good.len() > 0
    &&& l.win_modal.next_level.len() > 0
    &&& l.win_modal.replay.len() > 0
    &&& l.win_modal.menu.len() > 0
    &&& contains_text(l.hud.level_template, "{id}"@)
    &&& contains_text(l.hud.stats_template, "{moves}"@)
    &&& contains_text(l.hud.stats_template, "{par}"@)
    &&& contains_text(l.win_modal.completed_template, "{moves}"@)
    &&& contains_text(l.win_modal.completed_template, "{par}"@)
}

/// The level title of a complete translation always shows the level number.
pub proof fn lemma_level_title_shows_number(l: LocaleView, id: u32)
    requires
        locale_complete(l),
    ensures
        contains_text(replace_all_spec(l.hud.level_template, "{id}"@, decimal_spec(id as nat)), decimal_spec(id as nat)),
{
    reveal_strlit("{id}");
    let i = choose|i: int| occurs_at(l.hud.level_template, "{id}"@, i);
    lemma_replace_shows_replacement(l.hud.level_template, "{id}"@, decimal_spec(id as nat), i);
}

/// A move line whose template has both slots shows both numbers: the moves
/// and the par.
pub proof fn lemma_move_line_shows_numbers(template: Seq<char>, moves: u32, par: u32)
    requires
        contains_text(template, "{moves}"@),
        contains_text(template, "{par}"@),
    ensures
        contains_text(fill_moves_par_spec(template, moves, par), decimal_spec(moves as nat)),
        contains_text(fill_moves_par_spec(template, moves, par), decimal_spec(par as nat)),
{
    reveal_strlit("{moves}");
    reveal_strlit("{par}");
    let dm = decimal_spec(moves as nat);
    let dp = decimal_spec(par as nat);
    lemma_decimal_digits(moves as nat);
    lemma_decimal_digits(par as nat);
    let mid = replace_all_spec(template, "{moves}"@, dm);
    // The moves are filled in first.
    let i = choose|i: int| occurs_at(template, "{moves}"@, i);
    lemma_replace_shows_replacement(template, "{moves}"@, dm, i);
    // The par slot survives that.
    assert(never_overlap("{par}"@, "{moves}"@));
    let ip = choose|i: int| occurs_at(template, "{par}"@, i);
    lemma_replace_keeps_other(template, "{moves}"@, dm, "{par}"@, ip);
    // Then the par is filled in, and the moves survive that.
    let jp = choose|j: int| occurs_at(mid, "{par}"@, j);
    lemma_replace_shows_replacement(mid, "{par}"@, dp, jp);
    assert(dm[0] != '{');
    assert(never_overlap(dm, "{par}"@));
    let jm = choose|j: int| occurs_at(mid, dm, j);
    lemma_replace_keeps_other(mid, "{par}"@, dp, dm, jm);
}

/// The separators `_` and `+` become `-`; every other character is kept.
pub open spec fn dash_sep_spec(c: char) -> char {
    if c == '_' || c == '+' {
        '-'
    } else {
        c
    }
}

/// A locale tag trimmed, with `_`/`+` turned into `-`, lower-cased in ASCII.
pub open spec fn normalize_spec(tag: Seq<char>) -> Seq<char> {
    trim_spec(tag).map_values(|c: char| ascii_lower_spec(dash_sep_spec(c)))
}

fn normalize_chars(tag: &[char]) -> (r: Vec<char>)
    ensures
        r@ == normalize_spec(tag@),
{
    let t = trim_chars(tag);
    let mut r: Vec<char> = Vec::new();
    let mut i: usize = 0;
    while i < t.len()
        invariant
            i <= t@.len(),
            t@ == trim_spec(tag@),
            r@ == t@.subrange(0, i as int).map_values(
                |c: char| ascii_lower_spec(dash_sep_spec(c)),
            ),
        decreases t@.len() - i,
    {
        let c = t[i];
        let d = if c == '_' || c == '+' {
            '-'
        } else {
            c
        };
        r.push(ascii_lower(d));
        proof {
            assert(t@.subrange(0, i + 1).map_values(|c: char| ascii_lower_spec(dash_sep_spec(c)))
                =~= t@.subrange(0, i as int).map_values(
                |c: char| ascii_lower_spec(dash_sep_spec(c)),
            ).push(ascii_lower_spec(dash_sep_spec(c))));
        }
        i = i + 1;
    }
    assert(t@.subrange(0, t@.len() as int) =~= t@);
    r
}

/// Normalizes locale tags with various separators (`-`, `_`, `+`) to a
/// lower-cased hyphenated form: "pt_BR", "pt+BR", "PT-BR" all give "pt-br".
pub fn normalize_locale_tag(tag: &str) -> (r: String)
    ensures
        r@ == normalize_spec(tag@),
{
    let v = chars_of(tag);
    let n = normalize_chars(v.as_slice());
    string_from_chars(n.as_slice())
}

/// Normalizing a tag twice gives the same as normalizing it once.
pub proof fn lemma_normalize_idempotent(tag: Seq<char>)
    ensures
        normalize_spec(normalize_spec(tag)) == normalize_spec(tag),
{
    let t = trim_spec(tag);
    let a = first_non_ws(tag, 0);
    lemma_first_non_ws_bounds(tag, 0);
    lemma_trimmed_end_bounds(tag, a, tag.len() as int);
    let m = normalize_spec(tag);
    assert(m.len() == t.len());
    if t.len() > 0 {
        assert(t[0] == tag[a]);
        assert(t[t.len() - 1] == tag[trimmed_end(tag, a, tag.len() as int) - 1]);
        assert(m[0] == ascii_lower_spec(dash_sep_spec(t[0])));
        assert(m[m.len() - 1] == ascii_lower_spec(dash_sep_spec(t[t.len() - 1])));
    }
    lemma_trim_of_trimmed(m);
    assert(normalize_spec(m) =~= m);
}

/// Length of the part of `s` before its first `-` (the whole of `s` if none).
pub open spec fn dash_index(s: Seq<char>, i: int) -> int
    decreases s.len() - i,
{
    if i >= s.len() {
        s.len() as int
    } else if s[i] == '-' {
        i
    } else {
        dash_index(s, i + 1)
    }
}

/// The language part of a normalized tag: everything before the first `-`.
pub open spec fn language_part(s: Seq<char>) -> Seq<char> {
    s.subrange(0, dash_index(s, 0))
}

pub proof fn lemma_dash_index_bounds(s: Seq<char>, i: int)
    requires
        0 <= i <= s.len(),
    ensures
        i <= dash_index(s, i) <= s.len(),
        forall|k: int| i <= k < dash_index(s, i) ==> #[trigger] s[k] != '-',
        dash_index(s, i) < s.len() ==> s[dash_index(s, i)] == '-',
    decreases s.len() - i,
{
    if i < s.len() && s[i] != '-' {
        lemma_dash_index_bounds(s, i + 1);
    }
}

fn language_part_chars(s: &[char]) -> (r: Vec<char>)
    ensures
        r@ == language_part(s@),
{
    let mut i: usize = 0;
    while i < s.len() && s[i] != '-'
        invariant
            i <= s@.len(),
            dash_index(s@, 0) == dash_index(s@, i as int),
        decreases s@.len() - i,
    {
        i = i + 1;
    }
    let mut r: Vec<char> = Vec::new();
    let mut k: usize = 0;
    while k < i
        invariant
            i <= s@.len(),
            dash_index(s@, 0) == i,
            k <= i,
            r@ == s@.subrange(0, k as int),
        decreases i - k,
    {
        r.push(s[k]);
        k = k + 1;
    }
    r
}

/// Short country-style aliases for languages: "jp" means "ja", "cn" means "zh",
/// "kr" means "ko"; any other language part stands for itself.
pub open spec fn language_alias(p: Seq<char>) -> Seq<char> {
    if p == "jp"@ {
        "ja"@
    } else if p == "cn"@ {
        "zh"@
    } else if p == "kr"@ {
        "ko"@
    } else {
        p
    }
}

fn language_alias_chars(p: Vec<char>) -> (r: Vec<char>)
    ensures
        r@ == language_alias(p@),
{
    proof {
        reveal_strlit("jp");
        reveal_strlit("ja");
        reveal_strlit("cn");
        reveal_strlit("zh");
        reveal_strlit("kr");
        reveal_strlit("ko");
    }
    let jp = chars_of("jp");
    let cn = chars_of("cn");
    let kr = chars_of("kr");
    if chars_eq(p.as_slice(), jp.as_slice()) {
        chars_of("ja")
    } else if chars_eq(p.as_slice(), cn.as_slice()) {
        chars_of("zh")
    } else if chars_eq(p.as_slice(), kr.as_slice()) {
        chars_of("ko")
    } else {
        p
    }
}

/// The locale tags of a list of translations.
pub open spec fn locale_tags_of(locales: Seq<LocaleStrings>) -> Seq<Seq<char>> {
    locales.map_values(|l: LocaleStrings| l.locale@)
}

/// First index at or after `i` whose normalized tag equals `norm` (the length if none).
pub open spec fn first_exact(tags: Seq<Seq<char>>, norm: Seq<char>, i: int) -> int
    decreases tags.len() - i,
{
    if i >= tags.len() {
        tags.len() as int
    } else if normalize_spec(tags[i]) == norm {
        i
    } else {
        first_exact(tags, norm, i + 1)
    }
}

/// First index at or after `i` whose normalized tag has language part `base`
/// (the length if none).
pub open spec fn first_language(tags: Seq<Seq<char>>, base: Seq<char>, i: int) -> int
    decreases tags.len() - i,
{
    if i >= tags.len() {
        tags.len() as int
    } else if language_part(normalize_spec(tags[i])) == base {
        i
    } else {
        first_language(tags, base, i + 1)
    }
}

/// Index of the translation chosen for a requested tag:
/// 1. the first exact match of normalized tags;
/// 2. otherwise, if the requested language part (after aliasing) is non-empty,
///    the first translation with that language part;
/// 3. otherwise the first translation.
pub open spec fn resolve_index_spec(tags: Seq<Seq<char>>, tag: Seq<char>) -> int {
    let norm = normalize_spec(tag);
    let base = language_alias(language_part(norm));
    if first_exact(tags, norm, 0) < tags.len() {
        first_exact(tags, norm, 0)
    } else if base.len() > 0 && first_language(tags, base, 0) < tags.len() {
        first_language(tags, base, 0)
    } else {
        0
    }
}

pub proof fn lemma_first_exact(tags: Seq<Seq<char>>, norm: Seq<char>, i: int)
    requires
        0 <= i <= tags.len(),
    ensures
        i <= first_exact(tags, norm, i) <= tags.len(),
        forall|k: int| i <= k < first_exact(tags, norm, i) ==> normalize_spec(#[trigger] tags[k]) != norm,
        first_exact(tags, norm, i) < tags.len() ==> normalize_spec(tags[first_exact(tags, norm, i)])
            == norm,
    decreases tags.len() - i,
{
    if i < tags.len() && normalize_spec(tags[i]) != norm {
        lemma_first_exact(tags, norm, i + 1);
    }
}

pub proof fn lemma_first_language(tags: Seq<Seq<char>>, base: Seq<char>, i: int)
    requires
        0 <= i <= tags.len(),
    ensures
        i <= first_language(tags, base, i) <= tags.len(),
        forall|k: int|
            i <= k < first_language(tags, base, i) ==> language_part(normalize_spec(#[trigger] tags[k]))
                != base,
        first_language(tags, base, i) < tags.len() ==> language_part(
            normalize_spec(tags[first_language(tags, base, i)]),
        ) == base,
    decreases tags.len() - i,
{
    if i < tags.len() && language_part(normalize_spec(tags[i])) != base {
        lemma_first_language(tags, base, i + 1);
    }
}

/// Resolves a requested locale tag against a list of translations and
/// returns the index of the chosen one (see `resolve_index_spec`).
pub fn resolve_locale_in(locales: &Vec<LocaleStrings>, tag: &str) -> (r: usize)
    requires
        locales@.len() > 0,
    ensures
        r == resolve_index_spec(locale_tags_of(locales@), tag@),
        r < locales@.len(),
{
    let ghost tags = locale_tags_of(locales@);
    let tag_chars = chars_of(tag);
    let norm = normalize_chars(tag_chars.as_slice());
    let part = language_part_chars(norm.as_slice());
    let base = language_alias_chars(part);
    let n = locales.len();
    assert(tags.len() == n);
    let mut i: usize = 0;
    while i < n
        invariant
            n == locales@.len(),
            tags == locale_tags_of(locales@),
            i <= n,
            tags.len() == n,
            norm@ == normalize_spec(tag@),
            base@ == language_alias(language_part(norm@)),
            first_exact(tags, norm@, 0) == first_exact(tags, norm@, i as int),
        decreases n - i,
    {
        let lc = chars_of(locales[i].locale.as_str());
        let ln = normalize_chars(lc.as_slice());
        assert(tags[i as int] == locales@[i as int].locale@);
        if chars_eq(ln.as_slice(), norm.as_slice()) {
            assert(first_exact(tags, norm@, i as int) == i as int);
            return i;
        }
        i = i + 1;
    }
    if base.len() > 0 {
        let mut j: usize = 0;
        while j < n
            invariant
                n == locales@.len(),
                tags == locale_tags_of(locales@),
                j <= n,
                tags.len() == n,
                norm@ == normalize_spec(tag@),
                base@ == language_alias(language_part(norm@)),
                first_exact(tags, norm@, 0) == n,
                base@.len() > 0,
                first_language(tags, base@, 0) == first_language(tags, base@, j as int),
            decreases n - j,
        {
            let lc = chars_of(locales[j].locale.as_str());
            let ln = normalize_chars(lc.as_slice());
            let lp = language_part_chars(ln.as_slice());
            assert(tags[j as int] == locales@[j as int].locale@);
            if chars_eq(lp.as_slice(), base.as_slice()) {
                assert(first_language(tags, base@, j as int) == j as int);
                return j;
            }
            j = j + 1;
        }
    }
    0
}


/// The views of a list of string slices.
pub open spec fn str_views(args: Seq<&str>) -> Seq<Seq<char>> {
    args.map_values(|a: &str| a@)
}

/// Locale tag given on a command line: `--lang <tag>`, `-l <tag>` or `--lang=<tag>`,
/// the first such option whose trimmed value is non-empty.
pub open spec fn cli_locale_spec(args: Seq<Seq<char>>) -> Option<Seq<char>>
    decreases args.len(),
{
    if args.len() == 0 {
        None
    } else if args[0] == "--lang"@ || args[0] == "-l"@ {
        if args.len() < 2 {
            None
        } else if trim_spec(args[1]).len() > 0 {
            Some(trim_spec(args[1]))
        } else {
            cli_locale_spec(args.skip(2))
        }
    } else if starts_with_spec(args[0], "--lang="@) && trim_spec(
        args[0].skip("--lang="@.len() as int),
    ).len() > 0 {
        Some(trim_spec(args[0].skip("--lang="@.len() as int)))
    } else {
        cli_locale_spec(args.skip(1))
    }
}

/// Whether an argument is a language option: `--lang`, `-l` or `--lang=...`.
pub open spec fn is_lang_option(a: Seq<char>) -> bool {
    a == "--lang"@ || a == "-l"@ || starts_with_spec(a, "--lang="@)
}

/// What the command line gives is a trimmed, non-empty tag taken from a
/// language option: the argument after `--lang` or `-l`, or the text after
/// `--lang=`. Without any language option there is none.
pub proof fn lemma_cli_locale_from_option(args: Seq<Seq<char>>)
    ensures
        (forall|i: int| 0 <= i < args.len() ==> !is_lang_option(#[trigger] args[i])) ==> cli_locale_spec(args) is None,
        cli_locale_spec(args) matches Some(v) ==> {
            &&& v.len() > 0
            &&& trim_spec(v) == v
            &&& exists|i: int|
                0 <= i < args.len() && is_lang_option(#[trigger] args[i]) && (v == trim_spec(args[i].skip(
                    "--lang="@.len() as int,
                )) || (i + 1 < args.len() && v == trim_spec(args[i + 1])))
        },
    decreases args.len(),
{
    if args.len() > 0 {
        let a = args[0];
        if a == "--lang"@ || a == "-l"@ {
            assert(is_lang_option(args[0]));
            if args.len() >= 2 {
                if trim_spec(args[1]).len() > 0 {
                    lemma_trim_idempotent(args[1]);
                } else {
                    let rest = args.skip(2);
                    lemma_cli_locale_from_option(rest);
                    if let Some(v) = cli_locale_spec(rest) {
                        let i = choose|i: int|
                            0 <= i < rest.len() && is_lang_option(#[trigger] rest[i]) && (v == trim_spec(
                                rest[i].skip("--lang="@.len() as int),
                            ) || (i + 1 < rest.len() && v == trim_spec(rest[i + 1])));
                        assert(args[i + 2] == rest[i]);
                        assert(is_lang_option(args[i + 2]));
                    }
                }
            }
        } else if starts_with_spec(a, "--lang="@) && trim_spec(a.skip("--lang="@.len() as int)).len() > 0 {
            assert(is_lang_option(args[0]));
            lemma_trim_idempotent(a.skip("--lang="@.len() as int));
        } else {
            let rest = args.skip(1);
            lemma_cli_locale_from_option(rest);
            if forall|i: int| 0 <= i < args.len() ==> !is_lang_option(#[trigger] args[i]) {
                assert forall|i: int| 0 <= i < rest.len() implies !is_lang_option(#[trigger] rest[i]) by {
                    assert(rest[i] == args[i + 1]);
                }
            }
            if let Some(v) = cli_locale_spec(rest) {
                let i = choose|i: int|
                    0 <= i < rest.len() && is_lang_option(#[trigger] rest[i]) && (v == trim_spec(
                        rest[i].skip("--lang="@.len() as int),
                    ) || (i + 1 < rest.len() && v == trim_spec(rest[i + 1])));
                assert(args[i + 1] == rest[i]);
                assert(is_lang_option(args[i + 1]));
            }
        }
    }
}

/// Extracts the locale tag from command-line arguments
/// (`--lang <tag>`, `--lang=<tag>`, `-l <tag>`).
pub fn parse_cli_locale(args: &[&str]) -> (r: Option<String>)
    ensures
        match r {
            Some(t) => cli_locale_spec(str_views(args@)) == Some(t@),
            None => cli_locale_spec(str_views(args@)) is None,
        },
{
    proof {
        reveal_strlit("--lang");
        reveal_strlit("-l");
        reveal_strlit("--lang=");
    }
    let ghost all = str_views(args@);
    let long_opt = chars_of("--lang");
    let short_opt = chars_of("-l");
    let eq_opt = chars_of("--lang=");
    let n = args.len();
    let mut i: usize = 0;
    assert(all.skip(0) =~= all);
    while i < n
        invariant
            n == args@.len(),
            all == str_views(args@),
            all.len() == n,
            i <= n,
            long_opt@ == "--lang"@,
            short_opt@ == "-l"@,
            eq_opt@ == "--lang="@,
            eq_opt@.len() == 7,
            cli_locale_spec(all) == cli_locale_spec(all.skip(i as int)),
        decreases n - i,
    {
        let ghost rest = all.skip(i as int);
        let a = chars_of(args[i]);
        assert(rest[0] == a@);
        if chars_eq(a.as_slice(), long_opt.as_slice()) || chars_eq(a.as_slice(), short_opt.as_slice()) {
            if i + 1 < n {
                let v = chars_of(args[i + 1]);
                assert(rest[1] == v@);
                let t = trim_chars(v.as_slice());
                if t.len() > 0 {
                    return Some(string_from_chars(t.as_slice()));
                }
                assert(rest.skip(2) =~= all.skip(i + 2));
                i = i + 2;
            } else {
                return None;
            }
        } else {
            if occurs_at_exec(a.as_slice(), eq_opt.as_slice(), 0) {
                let mut tail: Vec<char> = Vec::new();
                let mut k: usize = 7;
                while k < a.len()
                    invariant
                        7 <= k <= a@.len(),
                        tail@ == a@.subrange(7, k as int),
                    decreases a@.len() - k,
                {
                    tail.push(a[k]);
                    k = k + 1;
                }
                assert(tail@ =~= a@.skip(7));
                assert(a@.subrange(0, 7) =~= eq_opt@);
                let t = trim_chars(tail.as_slice());
                if t.len() > 0 {
                    return Some(string_from_chars(t.as_slice()));
                }
            } else {
                assert(!starts_with_spec(a@, "--lang="@)) by {
                    if starts_with_spec(a@, "--lang="@) {
                        assert(a@.subrange(0, 7) =~= eq_opt@);
                    }
                }
            }
            assert(rest.skip(1) =~= all.skip(i + 1));
            i = i + 1;
        }
    }
    None
}

/// Index of the first `.` or `:` at or after `i` (the length if none).
pub open spec fn codeset_index(s: Seq<char>, i: int) -> int
    decreases s.len() - i,
{
    if i >= s.len() {
        s.len() as int
    } else if s[i] == '.' || s[i] == ':' {
        i
    } else {
        codeset_index(s, i + 1)
    }
}

pub proof fn lemma_codeset_index_bounds(s: Seq<char>, i: int)
    requires
        0 <= i <= s.len(),
    ensures
        i <= codeset_index(s, i) <= s.len(),
    decreases s.len() - i,
{
    if i < s.len() && !(s[i] == '.' || s[i] == ':') {
        lemma_codeset_index_bounds(s, i + 1);
    }
}

/// The locale named by an environment variable value such as "de_DE.UTF-8":
/// the trimmed text before any `.` or `:`, unless it is empty, "C" or "POSIX".
pub open spec fn env_locale_spec(val: Seq<char>) -> Option<Seq<char>> {
    let t = trim_spec(val);
    let c = t.subrange(0, codeset_index(t, 0));
    if c.len() > 0 && c != "C"@ && c != "POSIX"@ {
        Some(c)
    } else {
        None
    }
}

/// Interprets one locale environment variable value (`LANGUAGE`, `LC_ALL`,
/// `LC_MESSAGES`, `LANG`).
pub fn env_locale(val: &str) -> (r: Option<String>)
    ensures
        match r {
            Some(t) => env_locale_spec(val@) == Some(t@),
            None => env_locale_spec(val@) is None,
        },
{
    proof {
        reveal_strlit("C");
        reveal_strlit("POSIX");
    }
    let v = chars_of(val);
    let t = trim_chars(v.as_slice());
    let mut i: usize = 0;
    while i < t.len() && t[i] != '.' && t[i] != ':'
        invariant
            i <= t@.len(),
            codeset_index(t@, 0) == codeset_index(t@, i as int),
        decreases t@.len() - i,
    {
        i = i + 1;
    }
    let mut c: Vec<char> = Vec::new();
    let mut k: usize = 0;
    while k < i
        invariant
            i <= t@.len(),
            k <= i,
            c@ == t@.subrange(0, k as int),
        decreases i - k,
    {
        c.push(t[k]);
        k = k + 1;
    }
    let cc = chars_of("C");
    let posix = chars_of("POSIX");
    if c.len() > 0 && !chars_eq(c.as_slice(), cc.as_slice()) && !chars_eq(c.as_slice(), posix.as_slice()) {
        Some(string_from_chars(c.as_slice()))
    } else {
        None
    }
}

/// The views of optional strings.
pub open spec fn opt_views(vals: Seq<Option<String>>) -> Seq<Option<Seq<char>>> {
    vals.map_values(
        |o: Option<String>|
            match o {
                Some(s) => Some(s@),
                None => None,
            },
    )
}

/// The first environment value that names a locale.
pub open spec fn first_env_locale(vals: Seq<Option<Seq<char>>>) -> Option<Seq<char>>
    decreases vals.len(),
{
    if vals.len() == 0 {
        None
    } else {
        match vals[0] {
            Some(v) => match env_locale_spec(v) {
                Some(c) => Some(c),
                None => first_env_locale(vals.skip(1)),
            },
            None => first_env_locale(vals.skip(1)),
        }
    }
}

/// Locale chosen from the command line, then the operating system, then the
/// environment, falling back to "en-US".
pub open spec fn detect_spec(
    args: Seq<Seq<char>>,
    os: Option<Seq<char>>,
    env: Seq<Option<Seq<char>>>,
) -> Seq<char> {
    match cli_locale_spec(args) {
        Some(t) => t,
        None => match os {
            Some(t) => t,
            None => match first_env_locale(env) {
                Some(t) => t,
                None => "en-US"@,
            },
        },
    }
}

/// Picks the locale tag to use: a `--lang`/`-l` command-line option, else the
/// operating system's locale, else the first usable locale environment value
/// (in the order given), else "en-US".
pub fn detect_locale_tag(cli_args: &[&str], os_locale: Option<String>, env_values: &[Option<String>]) -> (r: String)
    ensures
        r@ == detect_spec(
            str_views(cli_args@),
            match os_locale {
                Some(s) => Some(s@),
                None => None,
            },
            opt_views(env_values@),
        ),
{
    if let Some(t) = parse_cli_locale(cli_args) {
        return t;
    }
    if let Some(t) = os_locale {
        return t;
    }
    let ghost all = opt_views(env_values@);
    let n = env_values.len();
    let mut i: usize = 0;
    assert(all.skip(0) =~= all);
    while i < n
        invariant
            n == env_values@.len(),
            all == opt_views(env_values@),
            all.len() == n,
            i <= n,
            cli_locale_spec(str_views(cli_args@)) is None,
            os_locale is None,
            first_env_locale(all) == first_env_locale(all.skip(i as int)),
        decreases n - i,
    {
        let ghost rest = all.skip(i as int);
        assert(rest.skip(1) =~= all.skip(i + 1));
        match &env_values[i] {
            Some(v) => {
                assert(rest[0] == Some(v@));
                if let Some(c) = env_locale(v.as_str()) {
                    assert(first_env_locale(rest) == Some(c@));
                    return c;
                }
            },
            None => {
                assert(rest[0] is None);
            },
        }
        i = i + 1;
    }
    "en-US".to_owned()
}

/// Locale tag for the language code a web page reports for its browser:
/// 1 Russian, 2 Spanish, 3 German, 4 French, 5 Japanese, 6 Chinese,
/// 7 Korean, anything else English.
pub open spec fn system_language_tag_spec(code: i32) -> Seq<char> {
    if code == 1 {
        "ru-RU"@
    } else if code == 2 {
        "es-ES"@
    } else if code == 3 {
        "de-DE"@
    } else if code == 4 {
        "fr-FR"@
    } else if code == 5 {
        "ja-JP"@
    } else if code == 6 {
        "zh-CN"@
    } else if code == 7 {
        "ko-KR"@
    } else {
        "en-US"@
    }
}

/// The locale tag for a browser language code (see `system_language_tag_spec`).
pub fn locale_tag_for_system_language(code: i32) -> (r: String)
    ensures
        r@ == system_language_tag_spec(code),
{
    match code {
        1 => "ru-RU".to_owned(),
        2 => "es-ES".to_owned(),
        3 => "de-DE".to_owned(),
        4 => "fr-FR".to_owned(),
        5 => "ja-JP".to_owned(),
        6 => "zh-CN".to_owned(),
        7 => "ko-KR".to_owned(),
        _ => "en-US".to_owned(),
    }
}

} // verus!
