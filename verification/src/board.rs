use vstd::prelude::*;

use crate::audio::SoundTrigger;
use crate::obstacle::Obstacle;
use crate::theme::Theme;
use crate::vehicle::{is_emergency_spec, Orientation, Vehicle};

verus! {

/// Side of the board through which the player's vehicle leaves.
#[derive(Debug, Clone, Copy, PartialEq, Eq, Hash, Structural)]
pub enum ExitSide {
    Right,
    Left,
    Top,
    Bottom,
}

/// The exit gate: a side, plus the row (left/right exits) or column
/// (top/bottom exits) it opens on.
#[derive(Debug, Clone, Copy, PartialEq, Eq, Hash, Structural)]
pub struct ExitPosition {
    pub side: ExitSide,
    pub row: i32,
    pub col: i32,
}

/// Whether a vehicle at `(x, y)` with `length` cells reaches the exit of a
/// `width` x `height` board: it must lie in the exit's lane, be parked along
/// the exit direction, and touch the exit edge.
pub open spec fn exit_reached_spec(
    e: ExitPosition,
    orient: Orientation,
    x: int,
    y: int,
    length: int,
    width: int,
    height: int,
) -> bool {
    match e.side {
        ExitSide::Right => orient == Orientation::Horizontal && y == e.row && x + length >= width,
        ExitSide::Left => orient == Orientation::Horizontal && y == e.row && x <= 0,
        ExitSide::Bottom => orient == Orientation::Vertical && x == e.col && y + length >= height,
        ExitSide::Top => orient == Orientation::Vertical && x == e.col && y <= 0,
    }
}

/// `offset` held within `[lo, hi]`.
pub open spec fn clamp_spec(offset: int, lo: int, hi: int) -> int {
    if offset < lo {
        lo
    } else if offset > hi {
        hi
    } else {
        offset
    }
}

impl ExitPosition {
    /// Checks if a vehicle at the given position reaches the exit.
    pub fn is_reached(
        &self,
        orient: Orientation,
        x: i32,
        y: i32,
        length: i32,
        width: i32,
        height: i32,
    ) -> (b: bool)
        ensures
            b == exit_reached_spec(
                *self,
                orient,
                x as int,
                y as int,
                length as int,
                width as int,
                height as int,
            ),
    {
        match (self.side, orient) {
            (ExitSide::Right, Orientation::Horizontal) => y == self.row && (x as i64) + (
            length as i64) >= (width as i64),
            (ExitSide::Left, Orientation::Horizontal) => y == self.row && x <= 0,
            (ExitSide::Bottom, Orientation::Vertical) => x == self.col && (y as i64) + (
            length as i64) >= (height as i64),
            (ExitSide::Top, Orientation::Vertical) => x == self.col && y <= 0,
            _ => false,
        }
    }
}

/// Positions of all vehicles (and the move count) before a move, kept for undo.
#[derive(Debug)]
pub struct BoardSnapshot {
    pub positions: Vec<(i32, i32)>,
    pub move_count: u32,
}

/// The rear cells of a list of vehicles.
pub open spec fn positions_of(vs: Seq<Vehicle>) -> Seq<(i32, i32)> {
    vs.map_values(|v: Vehicle| (v.x, v.y))
}

/// A vehicle shifted by `offset` cells along its axis.
pub open spec fn shifted(v: Vehicle, offset: int) -> Vehicle {
    match v.orientation {
        Orientation::Horizontal => Vehicle { x: (v.x + offset) as i32, ..v },
        Orientation::Vertical => Vehicle { y: (v.y + offset) as i32, ..v },
    }
}

/// A vehicle put back at rear cell `p`.
pub open spec fn placed_at(v: Vehicle, p: (i32, i32)) -> Vehicle {
    Vehicle { x: p.0, y: p.1, ..v }
}

/// What a bump sets off: the sound, the static obstacle that was struck (it
/// wobbles) and, on water, the vessel that was struck (it drifts away).
#[derive(Debug, Clone, Copy, PartialEq, Eq)]
pub struct BumpOutcome {
    pub sound: SoundTrigger,
    pub struck_obstacle: Option<usize>,
    pub drifting_vehicle: Option<usize>,
}

/// The parking lot: its size, exit, vehicles and static obstacles, with the
/// move history of the current attempt.
#[derive(Debug)]
pub struct Board {
    pub width: i32,
    pub height: i32,
    pub exit: ExitPosition,
    pub vehicles: Vec<Vehicle>,
    pub obstacles: Vec<Obstacle>,
    pub move_count: u32,
    pub history: Vec<BoardSnapshot>,
    pub is_won: bool,
    pub theme: Theme,
    /// The vehicles as the level started (restored by `reset`).
    pub initial_vehicles: Vec<Vehicle>,
    /// The obstacles as the level started (restored by `reset`).
    pub initial_obstacles: Vec<Obstacle>,
}

impl Board {
    /// The layout the board was created with (restored by `reset`).
    pub open spec fn start_vehicles(self) -> Seq<Vehicle> {
        self.initial_vehicles@
    }

    pub open spec fn start_obstacles(self) -> Seq<Obstacle> {
        self.initial_obstacles@
    }

    /// Whether the cell lies on the board.
    pub open spec fn inside(self, x: int, y: int) -> bool {
        0 <= x < self.width && 0 <= y < self.height
    }

    /// Whether the cell is on the board and covered neither by a static
    /// obstacle nor by a vehicle other than `ignore`.
    pub open spec fn cell_free_spec(self, x: int, y: int, ignore: Option<usize>) -> bool {
        &&& self.inside(x, y)
        &&& forall|i: int|
            0 <= i < self.vehicles@.len() && ignore != Some(i as usize) ==> !(
            #[trigger] self.vehicles@[i]).covers(x, y)
        &&& forall|j: int| 0 <= j < self.obstacles@.len() ==> !(#[trigger] self.obstacles@[j]).covers(x, y)
    }

    /// Board size along the axis of vehicle `idx`.
    pub open spec fn axis_limit(self, idx: int) -> int {
        match self.vehicles@[idx].orientation {
            Orientation::Horizontal => self.width as int,
            Orientation::Vertical => self.height as int,
        }
    }

    /// Whether the cell at axis coordinate `p` in the lane of vehicle `idx`
    /// is free of everything but that vehicle.
    pub open spec fn lane_free(self, idx: int, p: int) -> bool {
        let c = self.vehicles@[idx].lane_cell(p);
        self.cell_free_spec(c.0, c.1, Some(idx as usize))
    }

    /// `(lo, hi)` is the range of offsets vehicle `idx` can slide: `-lo`
    /// consecutive free cells behind it and `hi` consecutive free cells in
    /// front of it, each run ending at an occupied cell or the board's edge.
    pub open spec fn movement_bounds_spec(self, idx: int, lo: int, hi: int) -> bool {
        let v = self.vehicles@[idx];
        let pos = v.axis_pos();
        let front = pos + v.length;
        let lim = self.axis_limit(idx);
        &&& lo <= 0
        &&& -lo <= if pos > 0 { pos } else { 0 }
        &&& forall|s: int| 1 <= s <= -lo ==> #[trigger] self.lane_free(idx, pos - s)
        &&& -lo < pos ==> !self.lane_free(idx, pos + lo - 1)
        &&& hi >= 0
        &&& hi <= if lim - front > 0 { lim - front } else { 0 }
        &&& forall|s: int| 1 <= s <= hi ==> #[trigger] self.lane_free(idx, front - 1 + s)
        &&& hi < lim - front ==> !self.lane_free(idx, front + hi)
    }

    pub fn new(
        width: i32,
        height: i32,
        exit: ExitPosition,
        vehicles: Vec<Vehicle>,
        obstacles: Vec<Obstacle>,
    ) -> (b: Board)
        ensures
            b.width == width,
            b.height == height,
            b.exit == exit,
            b.vehicles@ == vehicles@,
            b.obstacles@ == obstacles@,
            b.move_count == 0,
            b.history@.len() == 0,
            !b.is_won,
            b.theme == Theme::City,
            b.start_vehicles() == vehicles@,
            b.start_obstacles() == obstacles@,
    {
        let initial_vehicles = vehicles.clone();
        let initial_obstacles = obstacles.clone();
        proof {
            assert(initial_vehicles@ =~= vehicles@);
            assert(initial_obstacles@ =~= obstacles@);
        }
        Board {
            width,
            height,
            exit,
            vehicles,
            obstacles,
            move_count: 0,
            history: Vec::new(),
            is_won: false,
            theme: Theme::City,
            initial_vehicles,
            initial_obstacles,
        }
    }

    /// Checks if a cell is inside the board boundaries.
    pub fn is_inside_board(&self, x: i32, y: i32) -> (b: bool)
        ensures
            b == self.inside(x as int, y as int),
    {
        x >= 0 && x < self.width && y >= 0 && y < self.height
    }

    /// Checks if a cell is free of any vehicles and static obstacles,
    /// ignoring an optional vehicle index.
    pub fn is_cell_free(&self, x: i32, y: i32, ignore_idx: Option<usize>) -> (b: bool)
        ensures
            b == self.cell_free_spec(x as int, y as int, ignore_idx),
    {
        if !self.is_inside_board(x, y) {
            return false;
        }
        let mut i: usize = 0;
        while i < self.vehicles.len()
            invariant
                i <= self.vehicles@.len(),
                forall|k: int|
                    0 <= k < i && ignore_idx != Some(k as usize) ==> !(
                    #[trigger] self.vehicles@[k]).covers(x as int, y as int),
            decreases self.vehicles@.len() - i,
        {
            let skip = match ignore_idx {
                Some(ig) => ig == i,
                None => false,
            };
            if !skip && self.vehicles[i].contains_cell(x, y) {
                return false;
            }
            i = i + 1;
        }
        let mut j: usize = 0;
        while j < self.obstacles.len()
            invariant
                j <= self.obstacles@.len(),
                forall|k: int| 0 <= k < j ==> !(#[trigger] self.obstacles@[k]).covers(x as int, y as int),
            decreases self.obstacles@.len() - j,
        {
            if self.obstacles[j].contains_cell(x, y) {
                return false;
            }
            j = j + 1;
        }
        true
    }

    /// `lane_free` for an axis coordinate given as a wide integer.
    fn lane_free_at(&self, idx: usize, p: i64) -> (b: bool)
        requires
            idx < self.vehicles@.len(),
        ensures
            b == self.lane_free(idx as int, p as int),
    {
        if p < 0 || p > i32::MAX as i64 {
            return false;
        }
        let v = &self.vehicles[idx];
        match v.orientation {
            Orientation::Horizontal => self.is_cell_free(p as i32, v.y, Some(idx)),
            Orientation::Vertical => self.is_cell_free(v.x, p as i32, Some(idx)),
        }
    }

    /// Computes the valid movement range `[min_offset, max_offset]` of a
    /// vehicle in whole cells.
    pub fn compute_movement_bounds(&self, vehicle_idx: usize) -> (r: (i32, i32))
        requires
            vehicle_idx < self.vehicles@.len(),
        ensures
            self.movement_bounds_spec(vehicle_idx as int, r.0 as int, r.1 as int),
    {
        let v = &self.vehicles[vehicle_idx];
        let pos: i64 = match v.orientation {
            Orientation::Horizontal => v.x as i64,
            Orientation::Vertical => v.y as i64,
        };
        let max_dim: i64 = match v.orientation {
            Orientation::Horizontal => self.width as i64,
            Orientation::Vertical => self.height as i64,
        };
        let front: i64 = pos + v.length as i64;
        let mut back: i64 = 0;
        while back < pos && self.lane_free_at(vehicle_idx, pos - back - 1)
            invariant
                vehicle_idx < self.vehicles@.len(),
                pos == self.vehicles@[vehicle_idx as int].axis_pos(),
                0 <= back,
                back <= if pos > 0 { pos } else { 0 },
                forall|s: int| 1 <= s <= back ==> #[trigger] self.lane_free(vehicle_idx as int, pos - s),
            decreases pos - back,
        {
            back = back + 1;
        }
        let mut fwd: i64 = 0;
        while fwd < max_dim - front && self.lane_free_at(vehicle_idx, front + fwd)
            invariant
                vehicle_idx < self.vehicles@.len(),
                front == self.vehicles@[vehicle_idx as int].axis_pos()
                    + self.vehicles@[vehicle_idx as int].length,
                max_dim == self.axis_limit(vehicle_idx as int),
                0 <= fwd,
                fwd <= if max_dim - front > 0 { max_dim - front } else { 0 },
                fwd > 0 ==> 0 <= front,
                forall|s: int|
                    1 <= s <= fwd ==> #[trigger] self.lane_free(vehicle_idx as int, front - 1 + s),
            decreases max_dim - front - fwd,
        {
            assert(self.lane_free(vehicle_idx as int, front - 1 + (fwd + 1)));
            fwd = fwd + 1;
        }
        proof {
            assert(max_dim <= i32::MAX);
        }
        ((-back) as i32, fwd as i32)
    }

    /// Bookkeeping invariant: one snapshot per move made, each recording the
    /// move count it was taken at and one position per vehicle.
    pub open spec fn wf(self) -> bool {
        &&& self.move_count == self.history@.len()
        &&& forall|k: int|
            0 <= k < self.history@.len() ==> (#[trigger] self.history@[k]).move_count == k
                && self.history@[k].positions@.len() == self.vehicles@.len()
    }

    /// Every cell covered by a vehicle is on the board and covered by nothing else.
    pub open spec fn layout_valid(self) -> bool {
        forall|i: int, cx: int, cy: int|
            0 <= i < self.vehicles@.len() && #[trigger] self.vehicles@[i].covers(cx, cy)
                ==> self.cell_free_spec(cx, cy, Some(i as usize))
    }

    /// Whether the vehicle, moved to its new place, wins the level.
    pub open spec fn wins_with(self, v: Vehicle) -> bool {
        v.is_player && exit_reached_spec(
            self.exit,
            v.orientation,
            v.x as int,
            v.y as int,
            v.length as int,
            self.width as int,
            self.height as int,
        )
    }

    /// Fields that no move, undo or reset touches.
    pub open spec fn same_frame(self, other: Board) -> bool {
        &&& other.width == self.width
        &&& other.height == self.height
        &&& other.exit == self.exit
        &&& other.theme == self.theme
        &&& other.initial_vehicles@ == self.initial_vehicles@
        &&& other.initial_obstacles@ == self.initial_obstacles@
    }

    /// What `finalize_vehicle_offset(idx, offset)` does, returning `r`.
    pub open spec fn finalize_post(self, new: Board, idx: int, offset: int, r: Option<SoundTrigger>) -> bool {
        if offset == 0 {
            &&& r is None
            &&& new == self
        } else {
            let moved = shifted(self.vehicles@[idx], offset);
            &&& self.same_frame(new)
            &&& new.obstacles@ == self.obstacles@
            &&& new.vehicles@ == self.vehicles@.update(idx, moved)
            &&& new.history@.len() == self.history@.len() + 1
            &&& new.history@.subrange(0, self.history@.len() as int) == self.history@
            &&& new.history@.last().positions@ == positions_of(self.vehicles@)
            &&& new.history@.last().move_count == self.move_count
            &&& new.move_count == self.move_count + 1
            &&& new.is_won == (self.is_won || self.wins_with(moved))
            &&& r == Some(if self.wins_with(moved) { SoundTrigger::Win } else { SoundTrigger::Slide })
        }
    }

    /// What `undo` does, returning `r`.
    pub open spec fn undo_post(self, new: Board, r: bool) -> bool {
        if self.is_won || self.history@.len() == 0 {
            &&& !r
            &&& new == self
        } else {
            let snap = self.history@.last();
            &&& r
            &&& self.same_frame(new)
            &&& new.obstacles@ == self.obstacles@
            &&& new.history@ == self.history@.drop_last()
            &&& new.move_count == snap.move_count
            &&& new.is_won == self.is_won
            &&& new.vehicles@.len() == self.vehicles@.len()
            &&& forall|i: int|
                0 <= i < self.vehicles@.len() ==> #[trigger] new.vehicles@[i] == if i
                    < snap.positions@.len() {
                    placed_at(self.vehicles@[i], snap.positions@[i])
                } else {
                    self.vehicles@[i]
                }
        }
    }

    /// Whether shifting vehicle `idx` by `offset` keeps its axis coordinate within `i32`.
    pub open spec fn offset_fits(self, idx: int, offset: int) -> bool {
        let p = self.vehicles@[idx].axis_pos() + offset;
        i32::MIN <= p <= i32::MAX
    }

    /// Commits a slide of vehicle `vehicle_idx` by `offset` whole cells: the
    /// positions before the move are recorded for undo, the move is counted,
    /// and reaching the exit with the player's vehicle wins the level.
    /// A zero offset changes nothing.
    pub fn finalize_vehicle_offset(&mut self, vehicle_idx: usize, offset: i32) -> (r: Option<SoundTrigger>)
        requires
            vehicle_idx < old(self).vehicles@.len(),
            offset != 0 ==> old(self).offset_fits(vehicle_idx as int, offset as int),
            offset != 0 ==> old(self).move_count < u32::MAX,
        ensures
            old(self).finalize_post(*final(self), vehicle_idx as int, offset as int, r),
            old(self).wf() ==> final(self).wf(),
    {
        if offset == 0 {
            return None;
        }
        let mut positions: Vec<(i32, i32)> = Vec::new();
        let mut i: usize = 0;
        while i < self.vehicles.len()
            invariant
                i <= self.vehicles@.len(),
                positions@ == positions_of(self.vehicles@.subrange(0, i as int)),
            decreases self.vehicles@.len() - i,
        {
            positions.push((self.vehicles[i].x, self.vehicles[i].y));
            proof {
                assert(positions_of(self.vehicles@.subrange(0, i + 1)) =~= positions_of(
                    self.vehicles@.subrange(0, i as int),
                ).push((self.vehicles@[i as int].x, self.vehicles@[i as int].y)));
            }
            i = i + 1;
        }
        proof {
            assert(self.vehicles@.subrange(0, self.vehicles@.len() as int) =~= self.vehicles@);
        }
        let ghost old_history = self.history@;
        self.history.push(BoardSnapshot { positions, move_count: self.move_count });
        let mut v = self.vehicles[vehicle_idx].clone();
        match v.orientation {
            Orientation::Horizontal => {
                v.x = v.x + offset;
            },
            Orientation::Vertical => {
                v.y = v.y + offset;
            },
        }
        let win = v.is_player && self.exit.is_reached(
            v.orientation,
            v.x,
            v.y,
            v.length,
            self.width,
            self.height,
        );
        self.vehicles.set(vehicle_idx, v);
        self.move_count = self.move_count + 1;
        proof {
            assert(self.history@.subrange(0, old_history.len() as int) =~= old_history);
        }
        if win {
            self.is_won = true;
            Some(SoundTrigger::Win)
        } else {
            Some(SoundTrigger::Slide)
        }
    }

    /// Commits a slide of vehicle `vehicle_idx` by `offset` whole cells, held
    /// within the range that `compute_movement_bounds` reports, so that the
    /// vehicle never passes through another vehicle or an obstacle and never
    /// leaves the board. The move is then recorded as by `finalize_vehicle_offset`.
    pub fn commit_slide(&mut self, vehicle_idx: usize, offset: i32) -> (r: Option<SoundTrigger>)
        requires
            vehicle_idx < old(self).vehicles@.len(),
            forall|lo: int, hi: int|
                #[trigger] old(self).movement_bounds_spec(vehicle_idx as int, lo, hi) && clamp_spec(offset as int, lo, hi)
                    != 0 ==> old(self).offset_fits(vehicle_idx as int, clamp_spec(offset as int, lo, hi))
                    && old(self).move_count < u32::MAX,
        ensures
            forall|lo: int, hi: int|
                #[trigger] old(self).movement_bounds_spec(vehicle_idx as int, lo, hi) ==> lo <= clamp_spec(
                    offset as int,
                    lo,
                    hi,
                ) <= hi && old(self).finalize_post(
                    *final(self),
                    vehicle_idx as int,
                    clamp_spec(offset as int, lo, hi),
                    r,
                ),
            old(self).wf() ==> final(self).wf(),
            old(self).layout_valid() ==> final(self).layout_valid(),
    {
        let (lo, hi) = self.compute_movement_bounds(vehicle_idx);
        let c = if offset < lo {
            lo
        } else if offset > hi {
            hi
        } else {
            offset
        };
        let ghost b0 = *self;
        assert(c == clamp_spec(offset as int, lo as int, hi as int));
        let r = self.finalize_vehicle_offset(vehicle_idx, c);
        proof {
            assert forall|lo2: int, hi2: int|
                #[trigger] b0.movement_bounds_spec(vehicle_idx as int, lo2, hi2) implies lo2 <= clamp_spec(
                    offset as int,
                    lo2,
                    hi2,
                ) <= hi2 && b0.finalize_post(*self, vehicle_idx as int, clamp_spec(offset as int, lo2, hi2), r) by {
                b0.lemma_movement_bounds_unique(vehicle_idx as int, lo as int, hi as int, lo2, hi2);
            }
            if b0.layout_valid() {
                lemma_move_within_bounds_keeps_layout_valid(b0, *self, vehicle_idx as int, lo as int, hi as int, c as int, r);
            }
        }
        r
    }

    /// Undoes the last move. Returns true if a move was undone; nothing
    /// happens once the level is won or when there is no move to undo.
    pub fn undo(&mut self) -> (r: bool)
        ensures
            old(self).undo_post(*final(self), r),
            old(self).wf() ==> final(self).wf(),
    {
        if self.is_won {
            return false;
        }
        if self.history.len() == 0 {
            return false;
        }
        let ghost old_self = *self;
        let snapshot = self.history.pop().unwrap();
        let n = self.vehicles.len();
        let m = snapshot.positions.len();
        let mut i: usize = 0;
        while i < n
            invariant
                n == old_self.vehicles@.len(),
                self.vehicles@.len() == n,
                m == snapshot.positions@.len(),
                i <= n,
                old_self.same_frame(*self),
                self.obstacles == old_self.obstacles,
                self.history@ == old_self.history@.drop_last(),
                self.move_count == old_self.move_count,
                self.is_won == old_self.is_won,
                forall|k: int|
                    0 <= k < n ==> #[trigger] self.vehicles@[k] == if k < i && k < m {
                        placed_at(old_self.vehicles@[k], snapshot.positions@[k])
                    } else {
                        old_self.vehicles@[k]
                    },
            decreases n - i,
        {
            if i < m {
                let mut v = self.vehicles[i].clone();
                v.x = snapshot.positions[i].0;
                v.y = snapshot.positions[i].1;
                self.vehicles.set(i, v);
            }
            i = i + 1;
        }
        self.move_count = snapshot.move_count;
        true
    }

    /// What `reset` does: the starting layout back, no history, no moves.
    pub open spec fn reset_post(self, new: Board) -> bool {
        &&& self.same_frame(new)
        &&& new.vehicles@ == self.initial_vehicles@
        &&& new.obstacles@ == self.initial_obstacles@
        &&& new.history@.len() == 0
        &&& new.move_count == 0
        &&& !new.is_won
    }

    /// Resets the board to its starting layout.
    pub fn reset(&mut self)
        ensures
            old(self).reset_post(*final(self)),
            final(self).wf(),
    {
        self.vehicles = self.initial_vehicles.clone();
        self.obstacles = self.initial_obstacles.clone();
        self.history = Vec::new();
        self.move_count = 0;
        self.is_won = false;
        proof {
            assert(self.vehicles@ =~= self.initial_vehicles@);
            assert(self.obstacles@ =~= self.initial_obstacles@);
        }
    }

    /// The cell a vehicle runs into when it slides as far as its bounds
    /// `(lo, hi)` allow: forwards (`forward`) or backwards.
    pub open spec fn bump_target(self, idx: int, lo: int, hi: int, forward: bool) -> (int, int) {
        let v = self.vehicles@[idx];
        let p = if forward { v.axis_pos() + hi + v.length } else { v.axis_pos() + lo - 1 };
        v.lane_cell(p)
    }

    /// Whether `r` is the first index of a static obstacle covering `(x, y)`
    /// (`None` if no obstacle covers it).
    pub open spec fn first_obstacle_at(self, x: int, y: int, r: Option<usize>) -> bool {
        match r {
            Some(j) => j < self.obstacles@.len() && self.obstacles@[j as int].covers(x, y) && forall|k: int|
                0 <= k < j ==> !(#[trigger] self.obstacles@[k]).covers(x, y),
            None => forall|k: int| 0 <= k < self.obstacles@.len() ==> !(#[trigger] self.obstacles@[k]).covers(x, y),
        }
    }

    /// Whether `r` is the first index, other than `idx`, of a vehicle covering
    /// `(x, y)` (`None` if there is none).
    pub open spec fn first_other_vehicle_at(self, idx: int, x: int, y: int, r: Option<usize>) -> bool {
        match r {
            Some(j) => j < self.vehicles@.len() && j != idx && self.vehicles@[j as int].covers(x, y)
                && forall|k: int|
                0 <= k < j && k != idx ==> !(#[trigger] self.vehicles@[k]).covers(x, y),
            None => forall|k: int|
                0 <= k < self.vehicles@.len() && k != idx ==> !(#[trigger] self.vehicles@[k]).covers(x, y),
        }
    }

    /// Finds the index of the static obstacle at `(target_x, target_y)`, if any.
    pub fn find_obstacle_at(&self, target_x: i32, target_y: i32) -> (r: Option<usize>)
        ensures
            self.first_obstacle_at(target_x as int, target_y as int, r),
    {
        let mut j: usize = 0;
        while j < self.obstacles.len()
            invariant
                j <= self.obstacles@.len(),
                forall|k: int| 0 <= k < j ==> !(#[trigger] self.obstacles@[k]).covers(target_x as int, target_y as int),
            decreases self.obstacles@.len() - j,
        {
            if self.obstacles[j].contains_cell(target_x, target_y) {
                return Some(j);
            }
            j = j + 1;
        }
        None
    }

    /// The cell vehicle `idx` runs into, given its movement bounds.
    fn bump_target_exec(&self, idx: usize, forward: bool) -> (r: (i64, i64))
        requires
            idx < self.vehicles@.len(),
        ensures
            forall|lo: int, hi: int|
                #[trigger] self.movement_bounds_spec(idx as int, lo, hi) ==> self.bump_target(
                    idx as int,
                    lo,
                    hi,
                    forward,
                ) == (r.0 as int, r.1 as int),
    {
        let (lo, hi) = self.compute_movement_bounds(idx);
        proof {
            assert forall|lo2: int, hi2: int| #[trigger]
                self.movement_bounds_spec(idx as int, lo2, hi2) implies lo2 == lo && hi2 == hi by {
                self.lemma_movement_bounds_unique(idx as int, lo as int, hi as int, lo2, hi2);
            }
        }
        let v = &self.vehicles[idx];
        let pos: i64 = match v.orientation {
            Orientation::Horizontal => v.x as i64,
            Orientation::Vertical => v.y as i64,
        };
        let p: i64 = if forward {
            pos + hi as i64 + v.length as i64
        } else {
            pos + lo as i64 - 1
        };
        match v.orientation {
            Orientation::Horizontal => (p, v.y as i64),
            Orientation::Vertical => (v.x as i64, p),
        }
    }

    /// Movement bounds are determined uniquely by the board.
    pub proof fn lemma_movement_bounds_unique(self, idx: int, lo1: int, hi1: int, lo2: int, hi2: int)
        requires
            0 <= idx < self.vehicles@.len(),
            self.movement_bounds_spec(idx, lo1, hi1),
            self.movement_bounds_spec(idx, lo2, hi2),
        ensures
            lo1 == lo2,
            hi1 == hi2,
    {
        let v = self.vehicles@[idx];
        let pos = v.axis_pos();
        let front = pos + v.length;
        if lo1 < lo2 {
            assert(self.lane_free(idx, pos - (-lo2 + 1)));
        }
        if lo2 < lo1 {
            assert(self.lane_free(idx, pos - (-lo1 + 1)));
        }
        if hi1 < hi2 {
            assert(self.lane_free(idx, front - 1 + (hi1 + 1)));
        }
        if hi2 < hi1 {
            assert(self.lane_free(idx, front - 1 + (hi2 + 1)));
        }
    }

    /// Finds the index of the other vehicle that stops vehicle `vehicle_idx`
    /// when it slides forwards (`forward`) or backwards. Returns `None` if it
    /// is stopped by the board's edge (or by a static obstacle).
    pub fn find_obstacle_vehicle(&self, vehicle_idx: usize, forward: bool) -> (r: Option<usize>)
        requires
            vehicle_idx < self.vehicles@.len(),
        ensures
            forall|lo: int, hi: int| #[trigger]
                self.movement_bounds_spec(vehicle_idx as int, lo, hi) ==> {
                    let t = self.bump_target(vehicle_idx as int, lo, hi, forward);
                    if self.inside(t.0, t.1) {
                        self.first_other_vehicle_at(vehicle_idx as int, t.0, t.1, r)
                    } else {
                        r is None
                    }
                },
    {
        let (tx, ty) = self.bump_target_exec(vehicle_idx, forward);
        if tx < 0 || ty < 0 || tx >= self.width as i64 || ty >= self.height as i64 {
            return None;
        }
        let x = tx as i32;
        let y = ty as i32;
        let mut k: usize = 0;
        while k < self.vehicles.len()
            invariant
                k <= self.vehicles@.len(),
                vehicle_idx < self.vehicles@.len(),
                self.inside(x as int, y as int),
                forall|lo: int, hi: int|
                    #[trigger] self.movement_bounds_spec(vehicle_idx as int, lo, hi) ==> self.bump_target(
                        vehicle_idx as int,
                        lo,
                        hi,
                        forward,
                    ) == (x as int, y as int),
                forall|m: int|
                    0 <= m < k && m != vehicle_idx ==> !(#[trigger] self.vehicles@[m]).covers(x as int, y as int),
            decreases self.vehicles@.len() - k,
        {
            if k != vehicle_idx && self.vehicles[k].contains_cell(x, y) {
                return Some(k);
            }
            k = k + 1;
        }
        None
    }

    /// Works out what a bump of vehicle `vehicle_idx` sets off when it hits
    /// whatever stops it, sliding forwards (`forward`) or backwards: a siren
    /// for emergency vehicles and an alarm otherwise; the wobble of a static
    /// obstacle it ran into; and, on water, the vessel it pushed, which drifts.
    pub fn trigger_bump(&self, vehicle_idx: usize, forward: bool) -> (r: BumpOutcome)
        requires
            vehicle_idx < self.vehicles@.len(),
        ensures
            r.sound == if is_emergency_spec(self.vehicles@[vehicle_idx as int].kind) {
                SoundTrigger::Siren
            } else {
                SoundTrigger::Alarm
            },
            forall|lo: int, hi: int| #[trigger]
                self.movement_bounds_spec(vehicle_idx as int, lo, hi) ==> {
                    let t = self.bump_target(vehicle_idx as int, lo, hi, forward);
                    &&& (i32::MIN <= t.0 <= i32::MAX && i32::MIN <= t.1 <= i32::MAX) ==> self.first_obstacle_at(
                        t.0,
                        t.1,
                        r.struck_obstacle,
                    )
                    &&& !(i32::MIN <= t.0 <= i32::MAX && i32::MIN <= t.1 <= i32::MAX) ==> r.struck_obstacle is None
                    &&& self.theme != Theme::Marine ==> r.drifting_vehicle is None
                    &&& self.theme == Theme::Marine ==> if self.inside(t.0, t.1) {
                        self.first_other_vehicle_at(vehicle_idx as int, t.0, t.1, r.drifting_vehicle)
                    } else {
                        r.drifting_vehicle is None
                    }
                },
    {
        let sound = if self.vehicles[vehicle_idx].kind.is_emergency() {
            SoundTrigger::Siren
        } else {
            SoundTrigger::Alarm
        };
        let (tx, ty) = self.bump_target_exec(vehicle_idx, forward);
        let struck_obstacle = if tx >= i32::MIN as i64 && tx <= i32::MAX as i64 && ty >= i32::MIN as i64
            && ty <= i32::MAX as i64 {
            self.find_obstacle_at(tx as i32, ty as i32)
        } else {
            None
        };
        let drifting_vehicle = if self.theme == Theme::Marine {
            self.find_obstacle_vehicle(vehicle_idx, forward)
        } else {
            None
        };
        BumpOutcome { sound, struck_obstacle, drifting_vehicle }
    }
}


/// Undo takes back a move: after a move that does not win the level, an
/// undo restores the vehicles, the move count and the move history.
pub proof fn lemma_undo_reverts_move(
    b0: Board,
    b1: Board,
    b2: Board,
    idx: int,
    offset: int,
    r1: Option<SoundTrigger>,
    r2: bool,
)
    requires
        b0.wf(),
        !b0.is_won,
        0 <= idx < b0.vehicles@.len(),
        offset != 0,
        b0.offset_fits(idx, offset),
        b0.finalize_post(b1, idx, offset, r1),
        r1 != Some(SoundTrigger::Win),
        b1.undo_post(b2, r2),
    ensures
        r2,
        b2.vehicles@ == b0.vehicles@,
        b2.obstacles@ == b0.obstacles@,
        b2.move_count == b0.move_count,
        b2.history@ == b0.history@,
        !b2.is_won,
        b0.same_frame(b2),
{
    let snap = b1.history@.last();
    assert(snap.positions@ == positions_of(b0.vehicles@));
    assert(b1.history@.drop_last() =~= b0.history@);
    assert forall|i: int| 0 <= i < b0.vehicles@.len() implies #[trigger] b2.vehicles@[i] == b0.vehicles@[i] by {
        let old_v = b0.vehicles@[i];
        assert(snap.positions@[i] == (old_v.x, old_v.y));
        if i == idx {
            assert(b1.vehicles@[i] == shifted(old_v, offset));
        } else {
            assert(b1.vehicles@[i] == old_v);
        }
    }
    assert(b2.vehicles@ =~= b0.vehicles@);
}

/// Moves, undos and resets never touch the frame of the board: its size,
/// exit, theme and starting layout.
pub proof fn lemma_operations_keep_frame(b0: Board, b1: Board, idx: int, offset: int, r1: Option<SoundTrigger>, r2: bool)
    ensures
        b0.finalize_post(b1, idx, offset, r1) ==> b0.same_frame(b1),
        b0.undo_post(b1, r2) ==> b0.same_frame(b1),
        b0.reset_post(b1) ==> b0.same_frame(b1),
{
}

/// Keeping the frame carries over a chain of operations.
pub proof fn lemma_same_frame_chain(a: Board, b: Board, c: Board)
    requires
        a.same_frame(b),
        b.same_frame(c),
    ensures
        a.same_frame(c),
{
}

/// Reset brings back the layout the board was created with, whatever moves,
/// undos and resets came in between (any chain that kept the frame), and a
/// second reset changes nothing more.
pub proof fn lemma_reset_restores_start(b0: Board, b1: Board, b2: Board, b3: Board)
    requires
        b0.vehicles@ == b0.start_vehicles(),
        b0.obstacles@ == b0.start_obstacles(),
        b0.same_frame(b1),
        b1.reset_post(b2),
        b2.reset_post(b3),
    ensures
        b2.vehicles@ == b0.vehicles@,
        b2.obstacles@ == b0.obstacles@,
        b2.history@.len() == 0,
        b2.move_count == 0,
        !b2.is_won,
        b0.same_frame(b2),
        b3.vehicles@ == b2.vehicles@,
        b3.obstacles@ == b2.obstacles@,
        b3.history@.len() == 0,
        b3.move_count == b2.move_count,
        b3.is_won == b2.is_won,
        b2.same_frame(b3),
{
}

/// A vehicle covers a cell exactly when the cell lies in its lane between
/// its rear and its front.
pub proof fn lemma_covers_lane(v: Vehicle, cx: int, cy: int)
    ensures
        v.covers(cx, cy) <==> exists|p: int|
            v.axis_pos() <= p < v.axis_pos() + v.length && #[trigger] v.lane_cell(p) == (cx, cy),
{
    if v.covers(cx, cy) {
        let p = match v.orientation {
            Orientation::Horizontal => cx,
            Orientation::Vertical => cy,
        };
        assert(v.lane_cell(p) == (cx, cy));
    }
}

/// Vehicles never pass through each other or through obstacles, and never
/// leave the board: sliding a vehicle by an offset within the bounds that
/// `compute_movement_bounds` reports keeps every covered cell on the board
/// and covered by one vehicle only.
pub proof fn lemma_move_within_bounds_keeps_layout_valid(
    b0: Board,
    b1: Board,
    idx: int,
    lo: int,
    hi: int,
    offset: int,
    r: Option<SoundTrigger>,
)
    requires
        b0.layout_valid(),
        0 <= idx < b0.vehicles@.len(),
        b0.movement_bounds_spec(idx, lo, hi),
        lo <= offset <= hi,
        b0.offset_fits(idx, offset),
        b0.finalize_post(b1, idx, offset, r),
    ensures
        b1.layout_valid(),
{
    if offset == 0 {
        return;
    }
    let v = b0.vehicles@[idx];
    let nv = shifted(v, offset);
    let pos = v.axis_pos();
    let front = pos + v.length;
    assert(b1.vehicles@[idx] == nv);
    assert(nv.axis_pos() == pos + offset);
    // Every cell of the moved vehicle is free of everything else.
    assert forall|cx: int, cy: int| #[trigger] nv.covers(cx, cy) implies b0.cell_free_spec(cx, cy, Some(idx as usize)) by {
        lemma_covers_lane(nv, cx, cy);
        let p = choose|p: int| nv.axis_pos() <= p < nv.axis_pos() + nv.length && #[trigger] nv.lane_cell(p) == (cx, cy);
        assert(v.lane_cell(p) == (cx, cy));
        if pos <= p < front {
            lemma_covers_lane(v, cx, cy);
            assert(v.covers(cx, cy));
        } else if p >= front {
            assert(b0.lane_free(idx, front - 1 + (p - front + 1)));
        } else {
            assert(b0.lane_free(idx, pos - (pos - p)));
        }
    }
    assert forall|i: int, cx: int, cy: int|
        0 <= i < b1.vehicles@.len() && #[trigger] b1.vehicles@[i].covers(cx, cy) implies b1.cell_free_spec(
        cx,
        cy,
        Some(i as usize),
    ) by {
        if i == idx {
            assert(b0.cell_free_spec(cx, cy, Some(idx as usize)));
            assert forall|k: int| 0 <= k < b1.vehicles@.len() && Some(i as usize) != Some(k as usize) implies !(
            #[trigger] b1.vehicles@[k]).covers(cx, cy) by {
                assert(b1.vehicles@[k] == b0.vehicles@[k]);
            }
        } else {
            assert(b1.vehicles@[i] == b0.vehicles@[i]);
            assert(b0.cell_free_spec(cx, cy, Some(i as usize)));
            assert forall|k: int| 0 <= k < b1.vehicles@.len() && Some(i as usize) != Some(k as usize) implies !(
            #[trigger] b1.vehicles@[k]).covers(cx, cy) by {
                if k == idx {
                    if nv.covers(cx, cy) {
                        assert(b0.cell_free_spec(cx, cy, Some(idx as usize)));
                        assert(!b0.vehicles@[i].covers(cx, cy));
                    }
                } else {
                    assert(b1.vehicles@[k] == b0.vehicles@[k]);
                }
            }
        }
    }
}

/// Reaching an exit means touching that exit's edge in its lane, with a
/// vehicle lying across it: a right exit takes a horizontal vehicle in the
/// exit's row whose front is at the right edge, a left exit one whose rear is
/// at the left edge, a bottom exit a vertical vehicle in the exit's column
/// whose front is at the bottom edge, a top exit one whose rear is at the top.
pub proof fn lemma_exit_means_edge(e: ExitPosition, o: Orientation, x: int, y: int, len: int, w: int, h: int)
    ensures
        e.side == ExitSide::Right ==> (exit_reached_spec(e, o, x, y, len, w, h) <==> (o == Orientation::Horizontal
            && y == e.row && x + len >= w)),
        e.side == ExitSide::Left ==> (exit_reached_spec(e, o, x, y, len, w, h) <==> (o == Orientation::Horizontal
            && y == e.row && x <= 0)),
        e.side == ExitSide::Bottom ==> (exit_reached_spec(e, o, x, y, len, w, h) <==> (o == Orientation::Vertical
            && x == e.col && y + len >= h)),
        e.side == ExitSide::Top ==> (exit_reached_spec(e, o, x, y, len, w, h) <==> (o == Orientation::Vertical
            && x == e.col && y <= 0)),
{
}

} // verus!
