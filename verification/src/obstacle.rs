use vstd::prelude::*;

use crate::theme::Theme;

verus! {

/// Kinds of static obstacles.
#[derive(Debug, Clone, Copy, PartialEq, Eq, Hash, Structural)]
pub enum ObstacleKind {
    Rock,
    Buoy,
    Pillar,
    Barrier,
    Unknown,
}

pub open spec fn default_kind_spec(theme: Theme) -> ObstacleKind {
    match theme {
        Theme::Marine => ObstacleKind::Buoy,
        Theme::City => ObstacleKind::Rock,
        Theme::Railroad => ObstacleKind::Barrier,
    }
}

pub open spec fn city_obstacle_sprite_spec(k: ObstacleKind) -> Seq<char> {
    match k {
        ObstacleKind::Rock => "city_rock"@,
        ObstacleKind::Pillar => "city_pillar"@,
        ObstacleKind::Barrier => "city_barrier"@,
        ObstacleKind::Buoy => "city_pillar"@,
        ObstacleKind::Unknown => "city_rock"@,
    }
}

pub open spec fn marine_obstacle_sprite_spec(k: ObstacleKind) -> Seq<char> {
    match k {
        ObstacleKind::Rock => "marine_rock"@,
        ObstacleKind::Barrier => "marine_rock"@,
        ObstacleKind::Buoy => "marine_buoy"@,
        ObstacleKind::Pillar => "marine_buoy"@,
        ObstacleKind::Unknown => "marine_buoy"@,
    }
}

pub open spec fn railroad_obstacle_sprite_spec(k: ObstacleKind) -> Seq<char> {
    match k {
        ObstacleKind::Rock => "railroad_coal_pile"@,
        ObstacleKind::Barrier => "railroad_buffer_stop"@,
        ObstacleKind::Buoy => "railroad_buffer_stop"@,
        ObstacleKind::Pillar => "railroad_semaphore"@,
        ObstacleKind::Unknown => "railroad_buffer_stop"@,
    }
}

pub open spec fn obstacle_sprite_spec(k: ObstacleKind, theme: Theme) -> Seq<char> {
    match theme {
        Theme::City => city_obstacle_sprite_spec(k),
        Theme::Marine => marine_obstacle_sprite_spec(k),
        Theme::Railroad => railroad_obstacle_sprite_spec(k),
    }
}

impl ObstacleKind {
    /// The obstacle kind used for a theme when a level leaves it unspecified.
    pub fn default_for_theme(theme: Theme) -> (k: ObstacleKind)
        ensures
            k == default_kind_spec(theme),
    {
        match theme {
            Theme::Marine => ObstacleKind::Buoy,
            Theme::City => ObstacleKind::Rock,
            Theme::Railroad => ObstacleKind::Barrier,
        }
    }

    pub fn city_sprite_name(&self) -> (s: &'static str)
        ensures
            s@ == city_obstacle_sprite_spec(*self),
    {
        match self {
            ObstacleKind::Rock => "city_rock",
            ObstacleKind::Pillar => "city_pillar",
            ObstacleKind::Barrier => "city_barrier",
            ObstacleKind::Buoy => "city_pillar",
            ObstacleKind::Unknown => "city_rock",
        }
    }

    pub fn marine_sprite_name(&self) -> (s: &'static str)
        ensures
            s@ == marine_obstacle_sprite_spec(*self),
    {
        match self {
            ObstacleKind::Rock => "marine_rock",
            ObstacleKind::Barrier => "marine_rock",
            ObstacleKind::Buoy => "marine_buoy",
            ObstacleKind::Pillar => "marine_buoy",
            ObstacleKind::Unknown => "marine_buoy",
        }
    }

    pub fn railroad_sprite_name(&self) -> (s: &'static str)
        ensures
            s@ == railroad_obstacle_sprite_spec(*self),
    {
        match self {
            ObstacleKind::Rock => "railroad_coal_pile",
            ObstacleKind::Barrier => "railroad_buffer_stop",
            ObstacleKind::Buoy => "railroad_buffer_stop",
            ObstacleKind::Pillar => "railroad_semaphore",
            ObstacleKind::Unknown => "railroad_buffer_stop",
        }
    }

    /// Sprite of this obstacle kind in the given theme.
    pub fn sprite_for_theme(&self, theme: Theme) -> (s: &'static str)
        ensures
            s@ == obstacle_sprite_spec(*self, theme),
    {
        match theme {
            Theme::City => self.city_sprite_name(),
            Theme::Marine => self.marine_sprite_name(),
            Theme::Railroad => self.railroad_sprite_name(),
        }
    }
}

/// The cells of row `dy` of a rectangle whose top-left cell is `(x, y)`.
pub open spec fn rect_row(x: i32, y: i32, w: i32, dy: int) -> Seq<(i32, i32)> {
    if w <= 0 {
        Seq::empty()
    } else {
        Seq::new(w as nat, |dx: int| ((x + dx) as i32, (y + dy) as i32))
    }
}

/// The cells of a `w` x `h` rectangle, row by row from the top, each row left to right.
pub open spec fn rect_cells(x: i32, y: i32, w: i32, h: int) -> Seq<(i32, i32)>
    decreases h,
{
    if h <= 0 {
        Seq::empty()
    } else {
        rect_cells(x, y, w, h - 1) + rect_row(x, y, w, h - 1)
    }
}

/// Width and height of an obstacle whose level file leaves them out.
pub fn default_obstacle_size() -> (n: i32)
    ensures
        n == 1,
{
    1
}

/// Channel buoys are green where the sum of their coordinates is odd and
/// positive, red elsewhere.
pub open spec fn channel_green(x: i32, y: i32) -> bool {
    x + y > 0 && (x + y) % 2 == 1
}

/// The sprite drawn for an obstacle: its theme sprite, except that a marine
/// buoy (the marine sprite of buoys, pillars and unknown kinds) at a
/// channel-green place is drawn green.
pub open spec fn drawn_sprite_spec(o: Obstacle, theme: Theme) -> Seq<char> {
    let k = o.kind_for(theme);
    if theme == Theme::Marine && (k == ObstacleKind::Buoy || k == ObstacleKind::Pillar || k
        == ObstacleKind::Unknown) && channel_green(o.x, o.y) {
        "marine_buoy_green"@
    } else {
        obstacle_sprite_spec(k, theme)
    }
}

/// A static obstacle covering a `width` x `height` rectangle whose top-left
/// cell is `(x, y)`.
#[derive(Debug, Clone, Copy, PartialEq, Eq)]
pub struct Obstacle {
    pub x: i32,
    pub y: i32,
    pub width: i32,
    pub height: i32,
    pub kind: Option<ObstacleKind>,
}

impl Obstacle {
    /// Whether the obstacle covers cell `(cx, cy)`.
    pub open spec fn covers(self, cx: int, cy: int) -> bool {
        self.x <= cx < self.x + self.width && self.y <= cy < self.y + self.height
    }

    /// Whether all cells of the rectangle have coordinates within `i32`.
    pub open spec fn fits(self) -> bool {
        self.x + self.width <= i32::MAX + 1 && self.y + self.height <= i32::MAX + 1
    }

    pub open spec fn kind_for(self, theme: Theme) -> ObstacleKind {
        match self.kind {
            Some(k) => k,
            None => default_kind_spec(theme),
        }
    }

    /// A new obstacle; width and height are at least one cell.
    pub fn new(x: i32, y: i32, width: i32, height: i32, kind: Option<ObstacleKind>) -> (o: Obstacle)
        ensures
            o.x == x,
            o.y == y,
            o.width == if width >= 1 { width } else { 1 },
            o.height == if height >= 1 { height } else { 1 },
            o.kind == kind,
    {
        Obstacle {
            x,
            y,
            width: if width >= 1 { width } else { 1 },
            height: if height >= 1 { height } else { 1 },
            kind,
        }
    }

    /// Creates a standard 1x1 rock obstacle.
    pub fn rock_1x1(x: i32, y: i32) -> (o: Obstacle)
        ensures
            o == (Obstacle { x, y, width: 1, height: 1, kind: Some(ObstacleKind::Rock) }),
    {
        Obstacle::new(x, y, 1, 1, Some(ObstacleKind::Rock))
    }

    /// Creates a standard 1x1 marine navigation buoy obstacle.
    pub fn buoy_1x1(x: i32, y: i32) -> (o: Obstacle)
        ensures
            o == (Obstacle { x, y, width: 1, height: 1, kind: Some(ObstacleKind::Buoy) }),
    {
        Obstacle::new(x, y, 1, 1, Some(ObstacleKind::Buoy))
    }

    /// The sprite of this obstacle in the given theme; an unspecified kind
    /// takes the theme's default.
    pub fn sprite_name(&self, theme: Theme) -> (s: &'static str)
        ensures
            s@ == obstacle_sprite_spec(self.kind_for(theme), theme),
    {
        let k = match self.kind {
            Some(k) => k,
            None => ObstacleKind::default_for_theme(theme),
        };
        k.sprite_for_theme(theme)
    }

    /// The sprite actually drawn: on water, buoys alternate like channel
    /// markers, green where `x + y` is odd and positive (see `drawn_sprite_spec`).
    pub fn drawn_sprite_name(&self, theme: Theme) -> (s: &'static str)
        ensures
            s@ == drawn_sprite_spec(*self, theme),
    {
        let k = match self.kind {
            Some(k) => k,
            None => ObstacleKind::default_for_theme(theme),
        };
        let buoy = match k {
            ObstacleKind::Buoy | ObstacleKind::Pillar | ObstacleKind::Unknown => true,
            _ => false,
        };
        let sum: i64 = self.x as i64 + self.y as i64;
        if theme == Theme::Marine && buoy && sum > 0 && sum % 2 == 1 {
            "marine_buoy_green"
        } else {
            self.sprite_name(theme)
        }
    }

    /// Checks whether the grid cell `(cell_x, cell_y)` is occupied by this obstacle.
    pub fn contains_cell(&self, cell_x: i32, cell_y: i32) -> (b: bool)
        ensures
            b == self.covers(cell_x as int, cell_y as int),
    {
        cell_x >= self.x && (cell_x as i64) < (self.x as i64) + (self.width as i64) && cell_y
            >= self.y && (cell_y as i64) < (self.y as i64) + (self.height as i64)
    }

    /// All grid cells occupied by this obstacle, row by row.
    pub fn cells(&self) -> (v: Vec<(i32, i32)>)
        requires
            self.fits(),
        ensures
            v@ == rect_cells(self.x, self.y, self.width, self.height as int),
    {
        let mut v: Vec<(i32, i32)> = Vec::new();
        let mut dy: i32 = 0;
        while dy < self.height
            invariant
                self.fits(),
                0 <= dy,
                self.height > 0 ==> dy <= self.height,
                self.height <= 0 ==> dy == 0,
                v@ == rect_cells(self.x, self.y, self.width, dy as int),
            decreases self.height - dy,
        {
            let ghost before = v@;
            let mut dx: i32 = 0;
            while dx < self.width
                invariant
                    self.fits(),
                    0 <= dy < self.height,
                    0 <= dx,
                    self.width > 0 ==> dx <= self.width,
                    self.width <= 0 ==> dx == 0,
                    v@ == before + Seq::new(
                        dx as nat,
                        |k: int| ((self.x + k) as i32, (self.y + dy) as i32),
                    ),
                decreases self.width - dx,
            {
                v.push((self.x + dx, self.y + dy));
                proof {
                    assert(v@ =~= before + Seq::new(
                        (dx + 1) as nat,
                        |k: int| ((self.x + k) as i32, (self.y + dy) as i32),
                    ));
                }
                dx = dx + 1;
            }
            proof {
                if self.width <= 0 {
                    assert(v@ =~= before + rect_row(self.x, self.y, self.width, dy as int));
                } else {
                    assert(v@ =~= before + rect_row(self.x, self.y, self.width, dy as int));
                }
            }
            dy = dy + 1;
        }
        proof {
            if self.height <= 0 {
                assert(rect_cells(self.x, self.y, self.width, self.height as int) =~= Seq::<
                    (i32, i32),
                >::empty());
            }
        }
        v
    }
}

/// Membership in `rect_cells` (for rows `0..h`) is exactly coverage of those rows.
pub proof fn lemma_rect_cells_membership(o: Obstacle, h: int, cx: i32, cy: i32)
    requires
        o.fits(),
        0 <= h <= o.height,
    ensures
        rect_cells(o.x, o.y, o.width, h).contains((cx, cy)) <==> (o.x <= cx < o.x + o.width && o.y
            <= cy < o.y + h),
    decreases h,
{
    if h > 0 {
        lemma_rect_cells_membership(o, h - 1, cx, cy);
        let prev = rect_cells(o.x, o.y, o.width, h - 1);
        let row = rect_row(o.x, o.y, o.width, h - 1);
        let all = rect_cells(o.x, o.y, o.width, h);
        assert(all == prev + row);
        if all.contains((cx, cy)) {
            let i = choose|i: int| 0 <= i < all.len() && all[i] == (cx, cy);
            if i >= prev.len() {
                assert(row[i - prev.len()] == (cx, cy));
            } else {
                assert(prev[i] == (cx, cy));
            }
        }
        if o.x <= cx < o.x + o.width && o.y <= cy < o.y + h {
            if cy < o.y + h - 1 {
                let i = choose|i: int| 0 <= i < prev.len() && prev[i] == (cx, cy);
                assert(all[i] == (cx, cy));
            } else {
                let dx = cx - o.x;
                assert(row[dx] == (cx, cy));
                assert(all[prev.len() + dx] == (cx, cy));
            }
        }
    }
}

/// The cells listed by `Obstacle::cells` are exactly the cells the obstacle covers.
pub proof fn lemma_obstacle_cells_are_covered(o: Obstacle, cx: i32, cy: i32)
    requires
        o.fits(),
    ensures
        rect_cells(o.x, o.y, o.width, o.height as int).contains((cx, cy)) <==> o.covers(
            cx as int,
            cy as int,
        ),
{
    if o.height > 0 {
        lemma_rect_cells_membership(o, o.height as int, cx, cy);
    } else {
        assert(rect_cells(o.x, o.y, o.width, o.height as int) =~= Seq::<(i32, i32)>::empty());
    }
}

} // verus!
