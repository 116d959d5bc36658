use vstd::prelude::*;

use crate::board::{Board, ExitPosition};
use crate::i18n::great_limit;
use crate::obstacle::Obstacle;
use crate::text::{chars_of, decimal_chars, decimal_spec, string_from_chars};
use crate::theme::{theme_for_level_spec, Theme};
use crate::vehicle::Vehicle;

verus! {

/// Board dimension of a level pack.
#[derive(Debug, Clone, Copy, PartialEq, Eq, Hash, Structural)]
pub enum FieldSize {
    Small6x6,
    Medium8x8,
    Big10x10,
}

/// Difficulty bucket of a level pack.
#[derive(Debug, Clone, Copy, PartialEq, Eq, Hash, Structural)]
pub enum DifficultyTier {
    Relaxed,
    Challenging,
    Hard,
}

pub open spec fn field_size_label_spec(size: FieldSize) -> Seq<char> {
    match size {
        FieldSize::Small6x6 => "Small 6x6"@,
        FieldSize::Medium8x8 => "Medium 8x8"@,
        FieldSize::Big10x10 => "Big 10x10"@,
    }
}

pub open spec fn field_size_dimension_spec(size: FieldSize) -> i32 {
    match size {
        FieldSize::Small6x6 => 6,
        FieldSize::Medium8x8 => 8,
        FieldSize::Big10x10 => 10,
    }
}

pub open spec fn difficulty_label_spec(d: DifficultyTier) -> Seq<char> {
    match d {
        DifficultyTier::Relaxed => "Relaxed"@,
        DifficultyTier::Challenging => "Challenging"@,
        DifficultyTier::Hard => "Hard"@,
    }
}

impl FieldSize {
    pub const ALL: [FieldSize; 3] = [FieldSize::Small6x6, FieldSize::Medium8x8, FieldSize::Big10x10];

    pub fn label(&self) -> (s: &'static str)
        ensures
            s@ == field_size_label_spec(*self),
    {
        match self {
            FieldSize::Small6x6 => "Small 6x6",
            FieldSize::Medium8x8 => "Medium 8x8",
            FieldSize::Big10x10 => "Big 10x10",
        }
    }

    /// Number of cells along each side of the square board.
    pub fn dimension(&self) -> (d: i32)
        ensures
            d == field_size_dimension_spec(*self),
    {
        match self {
            FieldSize::Small6x6 => 6,
            FieldSize::Medium8x8 => 8,
            FieldSize::Big10x10 => 10,
        }
    }
}

impl DifficultyTier {
    pub const ALL: [DifficultyTier; 3] = [
        DifficultyTier::Relaxed,
        DifficultyTier::Challenging,
        DifficultyTier::Hard,
    ];

    pub fn label(&self) -> (s: &'static str)
        ensures
            s@ == difficulty_label_spec(*self),
    {
        match self {
            DifficultyTier::Relaxed => "Relaxed",
            DifficultyTier::Challenging => "Challenging",
            DifficultyTier::Hard => "Hard",
        }
    }
}

/// Identifies one level pack: a board size together with a difficulty.
#[derive(Debug, Clone, Copy, PartialEq, Eq, Hash, Structural)]
pub struct PackKey {
    pub size: FieldSize,
    pub difficulty: DifficultyTier,
}

impl PackKey {
    pub fn new(size: FieldSize, difficulty: DifficultyTier) -> (k: PackKey)
        ensures
            k.size == size,
            k.difficulty == difficulty,
    {
        PackKey { size, difficulty }
    }
}


/// One puzzle: board size, exit, vehicles, obstacles and the par move count.
#[derive(Debug)]
pub struct LevelData {
    pub id: u32,
    pub name: String,
    pub width: i32,
    pub height: i32,
    pub exit: ExitPosition,
    pub vehicles: Vec<Vehicle>,
    pub obstacles: Vec<Obstacle>,
    pub par_moves: u32,
}

/// The content of a level, as values.
pub struct LevelView {
    pub id: u32,
    pub name: Seq<char>,
    pub width: i32,
    pub height: i32,
    pub exit: ExitPosition,
    pub vehicles: Seq<Vehicle>,
    pub obstacles: Seq<Obstacle>,
    pub par_moves: u32,
}

impl View for LevelData {
    type V = LevelView;

    open spec fn view(&self) -> LevelView {
        LevelView {
            id: self.id,
            name: self.name@,
            width: self.width,
            height: self.height,
            exit: self.exit,
            vehicles: self.vehicles@,
            obstacles: self.obstacles@,
            par_moves: self.par_moves,
        }
    }
}

impl Clone for LevelData {
    fn clone(&self) -> (r: LevelData)
        ensures
            r@ == self@,
    {
        let vehicles = self.vehicles.clone();
        let obstacles = self.obstacles.clone();
        proof {
            assert(vehicles@ =~= self.vehicles@);
            assert(obstacles@ =~= self.obstacles@);
        }
        LevelData {
            id: self.id,
            name: self.name.clone(),
            width: self.width,
            height: self.height,
            exit: self.exit,
            vehicles,
            obstacles,
            par_moves: self.par_moves,
        }
    }
}

/// Name given to a level that has none.
pub fn default_level_name() -> (s: String)
    ensures
        s@ == "Level"@,
{
    "Level".to_owned()
}

/// Par given to a level that has none.
pub fn default_par() -> (p: u32)
    ensures
        p == 10,
{
    10
}

/// Stars earned for finishing in `moves` against `par`: three at or under
/// par, two up to `par + max(par / 2, 2)`, one otherwise.
pub open spec fn stars_spec(par: u32, moves: u32) -> u8 {
    if moves <= par {
        3
    } else if moves <= great_limit(par) {
        2
    } else {
        1
    }
}

impl LevelData {
    /// A fresh board for this level, themed by the level id.
    pub fn to_board(&self) -> (b: Board)
        ensures
            b.width == self.width,
            b.height == self.height,
            b.exit == self.exit,
            b.vehicles@ == self.vehicles@,
            b.obstacles@ == self.obstacles@,
            b.initial_vehicles@ == self.vehicles@,
            b.initial_obstacles@ == self.obstacles@,
            b.move_count == 0,
            b.history@.len() == 0,
            !b.is_won,
            b.theme == theme_for_level_spec(self.id),
            b.wf(),
    {
        let vehicles = self.vehicles.clone();
        let obstacles = self.obstacles.clone();
        proof {
            assert(vehicles@ =~= self.vehicles@);
            assert(obstacles@ =~= self.obstacles@);
        }
        let mut board = Board::new(self.width, self.height, self.exit, vehicles, obstacles);
        board.theme = Theme::for_level(self.id);
        board
    }

    /// Computes earned stars (1..=3) based on moves taken versus par moves.
    pub fn calculate_stars(&self, moves: u32) -> (s: u8)
        ensures
            s == stars_spec(self.par_moves, moves),
    {
        let par = self.par_moves;
        let half: u64 = (par / 2) as u64;
        let bonus: u64 = if half >= 2 {
            half
        } else {
            2
        };
        if moves <= par {
            3
        } else if (moves as u64) <= (par as u64) + bonus {
            2
        } else {
            1
        }
    }
}

/// The player's best result on one level.
#[derive(Debug, Clone, Copy, PartialEq, Eq)]
pub struct LevelRecord {
    pub completed: bool,
    pub best_moves: Option<u32>,
    pub stars: u8,
}

impl Default for LevelRecord {
    fn default() -> (r: LevelRecord)
        ensures
            !r.completed,
            r.best_moves is None,
            r.stars == 0,
    {
        LevelRecord { completed: false, best_moves: None, stars: 0 }
    }
}

impl LevelRecord {
    /// Records a win: the level counts as completed, and the best move
    /// count and star rating keep the better of the old and new results.
    pub fn record_win(&mut self, moves: u32, stars: u8)
        ensures
            final(self).completed,
            final(self).stars == if stars > old(self).stars { stars } else { old(self).stars },
            final(self).best_moves == Some(
                match old(self).best_moves {
                    Some(m) => if moves < m { moves } else { m },
                    None => moves,
                },
            ),
    {
        self.completed = true;
        if stars > self.stars {
            self.stars = stars;
        }
        let best = match self.best_moves {
            Some(m) => if moves < m {
                moves
            } else {
                m
            },
            None => moves,
        };
        self.best_moves = Some(best);
    }
}

/// Recording wins never makes a record worse: stars never drop, the best
/// move count never rises, and a completed level stays completed.
pub proof fn lemma_record_win_monotone(r0: LevelRecord, r1: LevelRecord, moves: u32, stars: u8)
    requires
        r1.completed,
        r1.stars == if stars > r0.stars { stars } else { r0.stars },
        r1.best_moves == Some(
            match r0.best_moves {
                Some(m) => if moves < m { moves } else { m },
                None => moves,
            },
        ),
    ensures
        r1.stars >= r0.stars,
        r1.stars >= stars,
        r0.best_moves matches Some(m) ==> r1.best_moves.unwrap() <= m,
        r1.best_moves.unwrap() <= moves,
        r0.completed ==> r1.completed,
{
}

/// The star rating of a finished level and the verdict text agree: three
/// stars exactly when the verdict is "perfect", two when it is "great".
pub proof fn lemma_stars_match_rating(par: u32, moves: u32)
    ensures
        (stars_spec(par, moves) == 3) == (moves <= par),
        (stars_spec(par, moves) == 2) == (par < moves && moves <= great_limit(par)),
        (stars_spec(par, moves) == 1) == (moves > great_limit(par)),
        1 <= stars_spec(par, moves) <= 3,
{
}

/// Fewer moves never earn fewer stars.
pub proof fn lemma_stars_monotone(par: u32, m1: u32, m2: u32)
    requires
        m1 <= m2,
    ensures
        stars_spec(par, m1) >= stars_spec(par, m2),
{
}

/// The views of a list of level buckets.
pub open spec fn bucket_views(bs: Seq<Vec<LevelData>>) -> Seq<Seq<LevelView>> {
    bs.map_values(|b: Vec<LevelData>| b@.map_values(|l: LevelData| l@))
}

/// Entry `r` of each of the first `k` buckets that has one, in bucket order.
pub open spec fn round_upto(bs: Seq<Seq<LevelView>>, r: int, k: int) -> Seq<LevelView>
    decreases k,
{
    if k <= 0 {
        Seq::empty()
    } else {
        round_upto(bs, r, k - 1) + if r < bs[k - 1].len() {
            seq![bs[k - 1][r]]
        } else {
            Seq::empty()
        }
    }
}

/// Rounds `0..r` of the round-robin, one after the other.
pub open spec fn rounds_upto(bs: Seq<Seq<LevelView>>, r: int) -> Seq<LevelView>
    decreases r,
{
    if r <= 0 {
        Seq::empty()
    } else {
        rounds_upto(bs, r - 1) + round_upto(bs, r - 1, bs.len() as int)
    }
}

/// Length of the longest of the first `k` buckets.
pub open spec fn max_len_upto(bs: Seq<Seq<LevelView>>, k: int) -> int
    decreases k,
{
    if k <= 0 {
        0
    } else {
        let m = max_len_upto(bs, k - 1);
        if bs[k - 1].len() > m {
            bs[k - 1].len() as int
        } else {
            m
        }
    }
}

/// All levels of all buckets, taken round-robin: the first level of every
/// bucket, then the second of every bucket that has one, and so on.
pub open spec fn zigzag_spec(bs: Seq<Seq<LevelView>>) -> Seq<LevelView> {
    rounds_upto(bs, max_len_upto(bs, bs.len() as int))
}

/// The name of level number `id`: "Level " and the number.
pub open spec fn level_name_spec(id: u32) -> Seq<char> {
    "Level "@ + decimal_spec(id as nat)
}

/// Level `l` given sequence number `n` as its id and name.
pub open spec fn renumbered(l: LevelView, n: u32) -> LevelView {
    LevelView { id: n, name: level_name_spec(n), ..l }
}

/// Levels renumbered 1, 2, 3, ... in sequence.
pub open spec fn renumber_all(s: Seq<LevelView>) -> Seq<LevelView> {
    Seq::new(s.len(), |i: int| renumbered(s[i], (i + 1) as u32))
}

fn level_name(id: u32) -> (s: String)
    ensures
        s@ == level_name_spec(id),
{
    let mut v = chars_of("Level ");
    let d = decimal_chars(id as u64);
    let mut k: usize = 0;
    let ghost v0 = v@;
    while k < d.len()
        invariant
            k <= d@.len(),
            v@ == v0 + d@.subrange(0, k as int),
        decreases d@.len() - k,
    {
        v.push(d[k]);
        k = k + 1;
    }
    assert(d@.subrange(0, d@.len() as int) =~= d@);
    string_from_chars(v.as_slice())
}

/// Mixes levels from several difficulty buckets round-robin and numbers
/// the result 1, 2, 3, ... ("Level 1", "Level 2", ...).
pub fn mix_zigzag(buckets: &[Vec<LevelData>]) -> (r: Vec<LevelData>)
    ensures
        r@.map_values(|l: LevelData| l@) == renumber_all(zigzag_spec(bucket_views(buckets@))),
{
    let ghost bs = bucket_views(buckets@);
    let nb = buckets.len();
    assert(bs.len() == nb);
    let mut max_len: usize = 0;
    let mut k: usize = 0;
    while k < nb
        invariant
            nb == buckets@.len(),
            bs == bucket_views(buckets@),
            bs.len() == nb,
            k <= nb,
            max_len == max_len_upto(bs, k as int),
        decreases nb - k,
    {
        assert(bs[k as int].len() == buckets@[k as int]@.len());
        if buckets[k].len() > max_len {
            max_len = buckets[k].len();
        }
        k = k + 1;
    }
    let mut out: Vec<LevelData> = Vec::new();
    let mut r: usize = 0;
    while r < max_len
        invariant
            nb == buckets@.len(),
            bs == bucket_views(buckets@),
            bs.len() == nb,
            r <= max_len,
            max_len == max_len_upto(bs, nb as int),
            out@.len() == rounds_upto(bs, r as int).len(),
            forall|i: int|
                0 <= i < out@.len() ==> (#[trigger] out@[i])@ == renumbered(
                    rounds_upto(bs, r as int)[i],
                    (i + 1) as u32,
                ),
        decreases max_len - r,
    {
        let ghost done = rounds_upto(bs, r as int);
        let mut j: usize = 0;
        while j < nb
            invariant
                nb == buckets@.len(),
                bs == bucket_views(buckets@),
                bs.len() == nb,
                r < max_len,
                j <= nb,
                done == rounds_upto(bs, r as int),
                out@.len() == done.len() + round_upto(bs, r as int, j as int).len(),
                forall|i: int|
                    0 <= i < out@.len() ==> (#[trigger] out@[i])@ == renumbered(
                        (done + round_upto(bs, r as int, j as int))[i],
                        (i + 1) as u32,
                    ),
            decreases nb - j,
        {
            let ghost before = done + round_upto(bs, r as int, j as int);
            assert(bs[j as int] == buckets@[j as int]@.map_values(|l: LevelData| l@));
            if r < buckets[j].len() {
                let mut lvl = buckets[j][r].clone();
                let len = out.len();
                let n: u32 = (len as u32).wrapping_add(1);
                proof {
                    assert(n == ((len + 1) as u32)) by (bit_vector)
                        requires
                            n == (if (len as u32) + 1 > u32::MAX {
                                (len as u32) + 1 - (u32::MAX + 1)
                            } else {
                                (len as u32) + 1
                            }),
                    ;
                }
                lvl.id = n;
                lvl.name = level_name(n);
                out.push(lvl);
                proof {
                    assert(done + round_upto(bs, r as int, j + 1) =~= before.push(bs[j as int][r as int]));
                }
            } else {
                proof {
                    assert(done + round_upto(bs, r as int, j + 1) =~= before);
                }
            }
            j = j + 1;
        }
        proof {
            assert(rounds_upto(bs, r + 1) == done + round_upto(bs, r as int, nb as int));
        }
        r = r + 1;
    }
    proof {
        let z = zigzag_spec(bs);
        assert(out@.map_values(|l: LevelData| l@) =~= renumber_all(z));
    }
    out
}


/// Total number of levels in the first `k` buckets.
pub open spec fn total_len(bs: Seq<Seq<LevelView>>, k: int) -> int
    decreases k,
{
    if k <= 0 {
        0
    } else {
        total_len(bs, k - 1) + bs[k - 1].len()
    }
}

/// Number of levels the first `r` rounds take from the first `k` buckets.
pub open spec fn taken_upto(bs: Seq<Seq<LevelView>>, r: int, k: int) -> int
    decreases k,
{
    if k <= 0 {
        0
    } else {
        taken_upto(bs, r, k - 1) + if bs[k - 1].len() < r {
            bs[k - 1].len() as int
        } else {
            r
        }
    }
}

proof fn lemma_round_len(bs: Seq<Seq<LevelView>>, r: int, k: int)
    requires
        0 <= r,
        0 <= k <= bs.len(),
    ensures
        taken_upto(bs, r + 1, k) == taken_upto(bs, r, k) + round_upto(bs, r, k).len(),
    decreases k,
{
    if k > 0 {
        lemma_round_len(bs, r, k - 1);
    }
}

proof fn lemma_rounds_len(bs: Seq<Seq<LevelView>>, r: int)
    requires
        0 <= r,
    ensures
        rounds_upto(bs, r).len() == taken_upto(bs, r, bs.len() as int),
    decreases r,
{
    if r == 0 {
        lemma_taken_zero(bs, bs.len() as int);
    } else {
        lemma_rounds_len(bs, r - 1);
        lemma_round_len(bs, r - 1, bs.len() as int);
    }
}

proof fn lemma_taken_zero(bs: Seq<Seq<LevelView>>, k: int)
    requires
        0 <= k <= bs.len(),
    ensures
        taken_upto(bs, 0, k) == 0,
    decreases k,
{
    if k > 0 {
        lemma_taken_zero(bs, k - 1);
    }
}

proof fn lemma_taken_all(bs: Seq<Seq<LevelView>>, r: int, k: int)
    requires
        0 <= k <= bs.len(),
        forall|j: int| 0 <= j < k ==> (#[trigger] bs[j]).len() <= r,
    ensures
        taken_upto(bs, r, k) == total_len(bs, k),
    decreases k,
{
    if k > 0 {
        lemma_taken_all(bs, r, k - 1);
    }
}

proof fn lemma_max_len(bs: Seq<Seq<LevelView>>, k: int)
    requires
        0 <= k <= bs.len(),
    ensures
        forall|j: int| 0 <= j < k ==> (#[trigger] bs[j]).len() <= max_len_upto(bs, k),
        max_len_upto(bs, k) >= 0,
    decreases k,
{
    if k > 0 {
        lemma_max_len(bs, k - 1);
    }
}

/// Mixing keeps the number of levels: the result has exactly as many
/// levels as all buckets together.
pub proof fn lemma_zigzag_keeps_count(bs: Seq<Seq<LevelView>>)
    ensures
        zigzag_spec(bs).len() == total_len(bs, bs.len() as int),
        renumber_all(zigzag_spec(bs)).len() == total_len(bs, bs.len() as int),
{
    let m = max_len_upto(bs, bs.len() as int);
    lemma_max_len(bs, bs.len() as int);
    lemma_rounds_len(bs, m);
    lemma_taken_all(bs, m, bs.len() as int);
}

proof fn lemma_concat_contains(a: Seq<LevelView>, b: Seq<LevelView>, x: LevelView)
    requires
        a.contains(x) || b.contains(x),
    ensures
        (a + b).contains(x),
{
    if a.contains(x) {
        let i = choose|i: int| 0 <= i < a.len() && a[i] == x;
        assert((a + b)[i] == x);
    } else {
        let i = choose|i: int| 0 <= i < b.len() && b[i] == x;
        assert((a + b)[a.len() + i] == x);
    }
}

proof fn lemma_round_contains(bs: Seq<Seq<LevelView>>, r: int, k: int, j: int)
    requires
        0 <= j < k <= bs.len(),
        0 <= r < bs[j].len(),
    ensures
        round_upto(bs, r, k).contains(bs[j][r]),
    decreases k,
{
    let tail = if r < bs[k - 1].len() {
        seq![bs[k - 1][r]]
    } else {
        Seq::<LevelView>::empty()
    };
    assert(round_upto(bs, r, k) == round_upto(bs, r, k - 1) + tail);
    if j == k - 1 {
        assert(tail[0] == bs[j][r]);
        lemma_concat_contains(round_upto(bs, r, k - 1), tail, bs[j][r]);
    } else {
        lemma_round_contains(bs, r, k - 1, j);
        lemma_concat_contains(round_upto(bs, r, k - 1), tail, bs[j][r]);
    }
}

proof fn lemma_rounds_contains(bs: Seq<Seq<LevelView>>, rr: int, r: int, j: int)
    requires
        0 <= r < rr,
        0 <= j < bs.len(),
        r < bs[j].len(),
    ensures
        rounds_upto(bs, rr).contains(bs[j][r]),
    decreases rr,
{
    let last = round_upto(bs, rr - 1, bs.len() as int);
    assert(rounds_upto(bs, rr) == rounds_upto(bs, rr - 1) + last);
    if r == rr - 1 {
        lemma_round_contains(bs, r, bs.len() as int, j);
    } else {
        lemma_rounds_contains(bs, rr - 1, r, j);
    }
    lemma_concat_contains(rounds_upto(bs, rr - 1), last, bs[j][r]);
}

/// Mixing loses no level: every level of every bucket is in the result.
pub proof fn lemma_zigzag_keeps_every_level(bs: Seq<Seq<LevelView>>, j: int, r: int)
    requires
        0 <= j < bs.len(),
        0 <= r < bs[j].len(),
    ensures
        zigzag_spec(bs).contains(bs[j][r]),
{
    lemma_max_len(bs, bs.len() as int);
    lemma_rounds_contains(bs, max_len_upto(bs, bs.len() as int), r, j);
}

proof fn lemma_round_prefix(bs: Seq<Seq<LevelView>>, r: int, b1: int, b2: int)
    requires
        0 <= b1 <= b2 <= bs.len(),
    ensures
        round_upto(bs, r, b1).len() <= round_upto(bs, r, b2).len(),
        round_upto(bs, r, b2).subrange(0, round_upto(bs, r, b1).len() as int) == round_upto(bs, r, b1),
    decreases b2 - b1,
{
    if b1 < b2 {
        lemma_round_prefix(bs, r, b1, b2 - 1);
        let a = round_upto(bs, r, b2 - 1);
        let c = round_upto(bs, r, b1);
        let tail = if r < bs[b2 - 1].len() {
            seq![bs[b2 - 1][r]]
        } else {
            Seq::<LevelView>::empty()
        };
        assert(round_upto(bs, r, b2) == a + tail);
        assert((a + tail).subrange(0, c.len() as int) =~= a.subrange(0, c.len() as int));
    } else {
        assert(round_upto(bs, r, b2).subrange(0, round_upto(bs, r, b1).len() as int) =~= round_upto(bs, r, b1));
    }
}

proof fn lemma_rounds_prefix(bs: Seq<Seq<LevelView>>, r1: int, r2: int)
    requires
        0 <= r1 <= r2,
    ensures
        rounds_upto(bs, r1).len() <= rounds_upto(bs, r2).len(),
        rounds_upto(bs, r2).subrange(0, rounds_upto(bs, r1).len() as int) == rounds_upto(bs, r1),
    decreases r2 - r1,
{
    if r1 < r2 {
        lemma_rounds_prefix(bs, r1, r2 - 1);
        let a = rounds_upto(bs, r2 - 1);
        let c = rounds_upto(bs, r1);
        let last = round_upto(bs, r2 - 1, bs.len() as int);
        assert(rounds_upto(bs, r2) == a + last);
        assert((a + last).subrange(0, c.len() as int) =~= a.subrange(0, c.len() as int));
    } else {
        assert(rounds_upto(bs, r2).subrange(0, rounds_upto(bs, r1).len() as int) =~= rounds_upto(bs, r1));
    }
}

/// Place in the mix of entry `k` of bucket `b`: after all earlier rounds,
/// and within round `k` after the entries of the buckets before `b`.
pub open spec fn zigzag_position(bs: Seq<Seq<LevelView>>, k: int, b: int) -> int {
    (rounds_upto(bs, k).len() + round_upto(bs, k, b).len()) as int
}

/// The mix lists the levels by entry number, and for equal entry numbers by
/// bucket: entry `k` of bucket `b` stands at `zigzag_position(bs, k, b)`, and
/// positions grow with `(k, b)` in that order.
pub proof fn lemma_zigzag_order(bs: Seq<Seq<LevelView>>, k1: int, b1: int, k2: int, b2: int)
    requires
        0 <= b1 < bs.len(),
        0 <= k1 < bs[b1].len(),
        0 <= b2 < bs.len(),
        0 <= k2 < bs[b2].len(),
    ensures
        0 <= zigzag_position(bs, k1, b1) < zigzag_spec(bs).len(),
        zigzag_spec(bs)[zigzag_position(bs, k1, b1)] == bs[b1][k1],
        (k1 < k2 || (k1 == k2 && b1 < b2)) ==> zigzag_position(bs, k1, b1) < zigzag_position(bs, k2, b2),
{
    let nb = bs.len() as int;
    let m = max_len_upto(bs, nb);
    lemma_max_len(bs, nb);
    // Entry k1 of bucket b1 in round k1.
    let rk = round_upto(bs, k1, b1);
    assert(round_upto(bs, k1, b1 + 1) == rk + seq![bs[b1][k1]]);
    lemma_round_prefix(bs, k1, b1 + 1, nb);
    let full = round_upto(bs, k1, nb);
    assert(full.subrange(0, rk.len() + 1 as int)[rk.len() as int] == bs[b1][k1]);
    let before = rounds_upto(bs, k1);
    assert(rounds_upto(bs, k1 + 1) == before + full);
    lemma_rounds_prefix(bs, k1 + 1, m);
    let z = zigzag_spec(bs);
    assert(z.subrange(0, (before + full).len() as int)[(before.len() + rk.len()) as int] == bs[b1][k1]);
    if k1 < k2 {
        lemma_rounds_prefix(bs, k1 + 1, k2);
    } else if k1 == k2 && b1 < b2 {
        lemma_round_prefix(bs, k1, b1 + 1, b2);
    }
}

/// Renumbering gives consecutive ids starting at one and matching names.
pub proof fn lemma_renumbered_ids(s: Seq<LevelView>, i: int)
    requires
        0 <= i < s.len(),
        s.len() <= u32::MAX,
    ensures
        renumber_all(s)[i].id == i + 1,
        renumber_all(s)[i].name == level_name_spec((i + 1) as u32),
        renumber_all(s)[i].par_moves == s[i].par_moves,
        renumber_all(s)[i].vehicles == s[i].vehicles,
{
}


/// Slot of a pack among the nine packs, board size major.
pub open spec fn pack_index(key: PackKey) -> int {
    let si: int = match key.size {
        FieldSize::Small6x6 => 0,
        FieldSize::Medium8x8 => 1,
        FieldSize::Big10x10 => 2,
    };
    let ti: int = match key.difficulty {
        DifficultyTier::Relaxed => 0,
        DifficultyTier::Challenging => 1,
        DifficultyTier::Hard => 2,
    };
    si * 3 + ti
}

fn pack_index_exec(key: PackKey) -> (i: usize)
    ensures
        i == pack_index(key),
{
    let si: usize = match key.size {
        FieldSize::Small6x6 => 0,
        FieldSize::Medium8x8 => 1,
        FieldSize::Big10x10 => 2,
    };
    let ti: usize = match key.difficulty {
        DifficultyTier::Relaxed => 0,
        DifficultyTier::Challenging => 1,
        DifficultyTier::Hard => 2,
    };
    si * 3 + ti
}

/// Level files come ten per board size, of rising difficulty. The relaxed
/// pack mixes the first three, the challenging pack the next three and the
/// hard pack the last four. `pack_first(p)` is the first file of pack slot `p`.
pub open spec fn pack_first(p: int) -> int {
    10 * (p / 3) + if p % 3 == 0 {
        0int
    } else if p % 3 == 1 {
        3int
    } else {
        6int
    }
}

/// Number of level files mixed into pack slot `p`.
pub open spec fn pack_file_count(p: int) -> int {
    if p % 3 == 2 {
        4int
    } else {
        3int
    }
}

/// Board side of level file `i`: ten files of each size, 6x6 first.
pub open spec fn level_file_side(i: int) -> int {
    if i / 10 == 0 {
        6int
    } else if i / 10 == 1 {
        8int
    } else {
        10int
    }
}

/// Name of level file `i` (of thirty): `pack_<side>_d<difficulty>.json`,
/// difficulties 4 to 13 for each board side.
pub open spec fn level_file_name_spec(i: int) -> Seq<char> {
    "pack_"@ + decimal_spec(level_file_side(i) as nat) + "_d"@ + decimal_spec((4 + i % 10) as nat)
        + ".json"@
}

fn append_chars(v: &mut Vec<char>, w: &Vec<char>)
    ensures
        final(v)@ == old(v)@ + w@,
{
    let mut k: usize = 0;
    let ghost v0 = v@;
    while k < w.len()
        invariant
            k <= w@.len(),
            v@ == v0 + w@.subrange(0, k as int),
        decreases w@.len() - k,
    {
        v.push(w[k]);
        k = k + 1;
    }
    assert(w@.subrange(0, w@.len() as int) =~= w@);
}

/// The thirty level files in the order `LevelRepository::from_buckets` takes
/// them: for each board side in turn (6, 8, 10), difficulties 4 to 13.
pub fn level_file_names() -> (v: Vec<String>)
    ensures
        v@.len() == 30,
        forall|i: int| 0 <= i < 30 ==> (#[trigger] v@[i])@ == level_file_name_spec(i),
{
    let mut v: Vec<String> = Vec::new();
    let mut i: u64 = 0;
    while i < 30
        invariant
            i <= 30,
            v@.len() == i,
            forall|j: int| 0 <= j < i ==> (#[trigger] v@[j])@ == level_file_name_spec(j),
        decreases 30 - i,
    {
        let side: u64 = if i / 10 == 0 {
            6
        } else if i / 10 == 1 {
            8
        } else {
            10
        };
        let mut name = chars_of("pack_");
        append_chars(&mut name, &decimal_chars(side));
        append_chars(&mut name, &chars_of("_d"));
        append_chars(&mut name, &decimal_chars(4 + i % 10));
        append_chars(&mut name, &chars_of(".json"));
        assert(name@ == level_file_name_spec(i as int));
        v.push(string_from_chars(name.as_slice()));
        i = i + 1;
    }
    v
}

/// The nine level packs.
pub struct LevelRepository {
    packs: Vec<Vec<LevelData>>,
}

impl LevelRepository {
    /// The levels of a pack (empty for a pack that is missing).
    pub closed spec fn pack_view(self, key: PackKey) -> Seq<LevelView> {
        if pack_index(key) < self.packs@.len() {
            self.packs@[pack_index(key)]@.map_values(|l: LevelData| l@)
        } else {
            Seq::empty()
        }
    }

    /// Builds the packs from the thirty level files: for each board size in
    /// turn (6x6, 8x8, 10x10), its ten files in order of rising difficulty.
    /// Each pack mixes its files with `mix_zigzag`.
    pub fn from_buckets(buckets: Vec<Vec<LevelData>>) -> (repo: LevelRepository)
        requires
            buckets@.len() == 30,
        ensures
            forall|key: PackKey|
                #[trigger] repo.pack_view(key) == renumber_all(
                    zigzag_spec(
                        bucket_views(
                            buckets@.subrange(
                                pack_first(pack_index(key)),
                                pack_first(pack_index(key)) + pack_file_count(pack_index(key)),
                            ),
                        ),
                    ),
                ),
    {
        let ghost all = buckets@;
        let mut rest = buckets;
        let mut packs: Vec<Vec<LevelData>> = Vec::new();
        let mut p: usize = 0;
        while p < 9
            invariant
                all.len() == 30,
                p <= 9,
                packs@.len() == p,
                pack_first(p as int) <= 30,
                rest@ == all.skip(pack_first(p as int)),
                forall|q: int|
                    0 <= q < p ==> (#[trigger] packs@[q])@.map_values(|l: LevelData| l@) == renumber_all(
                        zigzag_spec(
                            bucket_views(
                                all.subrange(pack_first(q), pack_first(q) + pack_file_count(q)),
                            ),
                        ),
                    ),
            decreases 9 - p,
        {
            let count: usize = if p % 3 == 2 {
                4
            } else {
                3
            };
            let ghost start = pack_first(p as int);
            assert(0 <= start && start + count <= 30);
            let mut group: Vec<Vec<LevelData>> = Vec::new();
            let mut c: usize = 0;
            while c < count
                invariant
                    all.len() == 30,
                    0 <= start,
                    start + count <= 30,
                    c <= count,
                    rest@ == all.skip(start + c),
                    group@ == all.subrange(start, start + c),
                decreases count - c,
            {
                let ghost before = rest@;
                let b = rest.remove(0);
                group.push(b);
                proof {
                    assert(rest@ =~= all.skip(start + c + 1));
                    assert(group@ =~= all.subrange(start, start + c + 1));
                }
                c = c + 1;
            }
            let mixed = mix_zigzag(group.as_slice());
            packs.push(mixed);
            p = p + 1;
        }
        let repo = LevelRepository { packs };
        proof {
            assert forall|key: PackKey| #[trigger]
                repo.pack_view(key) == renumber_all(
                    zigzag_spec(
                        bucket_views(
                            all.subrange(
                                pack_first(pack_index(key)),
                                pack_first(pack_index(key)) + pack_file_count(pack_index(key)),
                            ),
                        ),
                    ),
                ) by {
                let q = pack_index(key);
                assert(0 <= q < 9);
            }
        }
        repo
    }

    /// The levels of a pack.
    pub fn get_pack(&self, key: PackKey) -> (r: &[LevelData])
        ensures
            r@.map_values(|l: LevelData| l@) == self.pack_view(key),
    {
        let i = pack_index_exec(key);
        if i < self.packs.len() {
            self.packs[i].as_slice()
        } else {
            let r: &[LevelData] = &[];
            assert(r@.map_values(|l: LevelData| l@) =~= Seq::<LevelView>::empty());
            r
        }
    }

    /// Level `index` of a pack, if the pack has that many levels.
    pub fn get_level(&self, key: PackKey, index: usize) -> (r: Option<&LevelData>)
        ensures
            r is None <==> index >= self.pack_view(key).len(),
            r matches Some(l) ==> l@ == self.pack_view(key)[index as int],
    {
        let pack = self.get_pack(key);
        if index < pack.len() {
            Some(&pack[index])
        } else {
            None
        }
    }
}

/// Each pack holds the level files of its own board size and difficulty:
/// the 6x6 packs take files 0-9 (`pack_6_d4` to `pack_6_d13`), the 8x8 packs
/// files 10-19 and the 10x10 packs files 20-29; within a size, the relaxed
/// pack takes difficulties 4-6, the challenging pack 7-9 and the hard pack
/// 10-13.
pub proof fn lemma_pack_holds_its_files(key: PackKey, i: int)
    ensures
        0 <= pack_first(pack_index(key)),
        pack_first(pack_index(key)) + pack_file_count(pack_index(key)) <= 30,
        pack_first(pack_index(key)) <= i < pack_first(pack_index(key)) + pack_file_count(pack_index(key)) ==> {
            &&& key.size == FieldSize::Small6x6 ==> 0 <= i < 10
            &&& key.size == FieldSize::Medium8x8 ==> 10 <= i < 20
            &&& key.size == FieldSize::Big10x10 ==> 20 <= i < 30
            &&& key.difficulty == DifficultyTier::Relaxed ==> 4 <= 4 + i % 10 <= 6
            &&& key.difficulty == DifficultyTier::Challenging ==> 7 <= 4 + i % 10 <= 9
            &&& key.difficulty == DifficultyTier::Hard ==> 10 <= 4 + i % 10 <= 13
        },
        key.difficulty == DifficultyTier::Hard ==> pack_file_count(pack_index(key)) == 4,
        key.difficulty != DifficultyTier::Hard ==> pack_file_count(pack_index(key)) == 3,
{
}

/// Stars in closed form: three at or under par, two up to
/// `par + max(par / 2, 2)` moves, one beyond; the verdict text agrees.
pub proof fn lemma_stars_closed_form(par: u32, moves: u32)
    ensures
        moves <= par ==> stars_spec(par, moves) == 3,
        par < moves <= par + (if par / 2 >= 2 { par / 2 } else { 2 }) ==> stars_spec(par, moves) == 2,
        moves > par + (if par / 2 >= 2 { par / 2 } else { 2 }) ==> stars_spec(par, moves) == 1,
        forall|w: crate::i18n::WinModalStrings|
            #![trigger crate::i18n::rating_spec(w, moves, par)]
            par < moves <= par + (if par / 2 >= 2 { par / 2 } else { 2 }) ==> crate::i18n::rating_spec(w, moves, par)
                == w.eval_great@,
        forall|w: crate::i18n::WinModalStrings|
            #![trigger crate::i18n::rating_spec(w, moves, par)]
            moves > par + (if par / 2 >= 2 { par / 2 } else { 2 }) ==> crate::i18n::rating_spec(w, moves, par)
                == w.eval_good@,
        forall|w: crate::i18n::WinModalStrings|
            #![trigger crate::i18n::rating_spec(w, moves, par)]
            moves <= par ==> crate::i18n::rating_spec(w, moves, par) == w.eval_perfect@,
{
}

} // verus!
