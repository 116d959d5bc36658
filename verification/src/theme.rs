use vstd::prelude::*;

verus! {

/// Visual and physical environment in which a level is played.
#[derive(Debug, Clone, Copy, PartialEq, Eq, Hash, Structural)]
pub enum Theme {
    City,
    Marine,
    Railroad,
}

/// Theme assigned to a level id: ids rotate City -> Marine -> Railroad.
pub open spec fn theme_for_level_spec(level_id: u32) -> Theme {
    if level_id % 3 == 1 {
        Theme::City
    } else if level_id % 3 == 2 {
        Theme::Marine
    } else {
        Theme::Railroad
    }
}

pub open spec fn background_key_spec(theme: Theme) -> Seq<char> {
    match theme {
        Theme::City => "city_background"@,
        Theme::Marine => "marine_background"@,
        Theme::Railroad => "railroad_background"@,
    }
}

pub open spec fn ground_key_spec(theme: Theme) -> Seq<char> {
    match theme {
        Theme::City => "city_ground"@,
        Theme::Marine => "marine_ground"@,
        Theme::Railroad => "railroad_ground"@,
    }
}

pub open spec fn exit_gate_key_spec(theme: Theme) -> Seq<char> {
    match theme {
        Theme::City => "city_exit_gate"@,
        Theme::Marine => "marine_exit_gate"@,
        Theme::Railroad => "railroad_exit_gate"@,
    }
}

impl Default for Theme {
    fn default() -> (t: Theme)
        ensures
            t == Theme::City,
    {
        Theme::City
    }
}

impl Theme {
    /// Determines the theme for a given level id, rotating City -> Marine -> Railroad.
    pub fn for_level(level_id: u32) -> (t: Theme)
        ensures
            t == theme_for_level_spec(level_id),
    {
        let r = level_id % 3;
        if r == 1 {
            Theme::City
        } else if r == 2 {
            Theme::Marine
        } else {
            Theme::Railroad
        }
    }

    /// Environment background texture key.
    pub fn background_texture_key(&self) -> (s: &'static str)
        ensures
            s@ == background_key_spec(*self),
    {
        match self {
            Theme::City => "city_background",
            Theme::Marine => "marine_background",
            Theme::Railroad => "railroad_background",
        }
    }

    /// Environment ground tile texture key.
    pub fn ground_texture_key(&self) -> (s: &'static str)
        ensures
            s@ == ground_key_spec(*self),
    {
        match self {
            Theme::City => "city_ground",
            Theme::Marine => "marine_ground",
            Theme::Railroad => "railroad_ground",
        }
    }

    /// Exit gate texture key.
    pub fn exit_gate_texture_key(&self) -> (s: &'static str)
        ensures
            s@ == exit_gate_key_spec(*self),
    {
        match self {
            Theme::City => "city_exit_gate",
            Theme::Marine => "marine_exit_gate",
            Theme::Railroad => "railroad_exit_gate",
        }
    }
}

/// Themes repeat with period three over consecutive level ids.
pub proof fn lemma_theme_rotation_period(level_id: u32)
    requires
        level_id + 3 <= u32::MAX,
    ensures
        theme_for_level_spec((level_id + 3) as u32) == theme_for_level_spec(level_id),
{
}

/// Three consecutive level ids always receive three different themes.
pub proof fn lemma_consecutive_levels_differ(level_id: u32)
    requires
        level_id + 2 <= u32::MAX,
    ensures
        theme_for_level_spec(level_id) != theme_for_level_spec((level_id + 1) as u32),
        theme_for_level_spec(level_id) != theme_for_level_spec((level_id + 2) as u32),
        theme_for_level_spec((level_id + 1) as u32) != theme_for_level_spec((level_id + 2) as u32),
{
}

} // verus!
