use vstd::prelude::*;

use crate::board::{exit_reached_spec, placed_at, positions_of, shifted, Board, ExitPosition};
use crate::vehicle::{Orientation, Vehicle};
use std::collections::HashMap;

verus! {

/// Positions (rear cells) of all vehicles, by vehicle index.
#[derive(Debug, Clone, PartialEq, Eq, Hash)]
pub struct BoardState(pub Vec<(i32, i32)>);

impl View for BoardState {
    type V = Seq<(i32, i32)>;

    open spec fn view(&self) -> Seq<(i32, i32)> {
        self.0@
    }
}

/// Vehicle `i` standing at its position in state `s`.
pub open spec fn at(vs: Seq<Vehicle>, s: Seq<(i32, i32)>, i: int) -> Vehicle {
    placed_at(vs[i], s[i])
}

/// Whether cell `(cx, cy)` is on the `w` x `h` board and covered by no
/// vehicle other than `idx` in state `s`.
pub open spec fn free_in(
    w: i32,
    h: i32,
    vs: Seq<Vehicle>,
    s: Seq<(i32, i32)>,
    idx: int,
    c: (int, int),
) -> bool {
    &&& 0 <= c.0 < w
    &&& 0 <= c.1 < h
    &&& forall|j: int| 0 <= j < vs.len() && j != idx ==> !(#[trigger] at(vs, s, j)).covers(c.0, c.1)
}

/// Whether vehicle `idx` can slide `k` cells (backwards if negative) in
/// state `s`: every cell it enters on the way is free.
pub open spec fn slide_ok(w: i32, h: i32, vs: Seq<Vehicle>, s: Seq<(i32, i32)>, idx: int, k: int) -> bool {
    let v = at(vs, s, idx);
    let pos = v.axis_pos();
    let front = pos + v.length;
    &&& k != 0
    &&& k < 0 ==> forall|m: int| 1 <= m <= -k ==> #[trigger] free_in(w, h, vs, s, idx, v.lane_cell(pos - m))
    &&& k > 0 ==> forall|m: int|
        1 <= m <= k ==> #[trigger] free_in(w, h, vs, s, idx, v.lane_cell(front - 1 + m))
}

/// State `s` after vehicle `idx` slid `k` cells.
pub open spec fn slid(vs: Seq<Vehicle>, s: Seq<(i32, i32)>, idx: int, k: int) -> Seq<(i32, i32)> {
    let nv = shifted(at(vs, s, idx), k);
    s.update(idx, (nv.x, nv.y))
}

/// One move: a single vehicle slides some cells along its axis.
pub open spec fn step(w: i32, h: i32, vs: Seq<Vehicle>, s: Seq<(i32, i32)>, t: Seq<(i32, i32)>) -> bool {
    exists|idx: int, k: int|
        0 <= idx < vs.len() && #[trigger] slide_ok(w, h, vs, s, idx, k) && t == slid(vs, s, idx, k)
}

/// The views of a list of states.
pub open spec fn state_views(v: Seq<BoardState>) -> Seq<Seq<(i32, i32)>> {
    v.map_values(|x: BoardState| x@)
}

/// Whether the cell is free, given as wide integers.
fn free_exec(w: i32, h: i32, vs: &[Vehicle], s: &Vec<(i32, i32)>, idx: usize, c: (i64, i64)) -> (b: bool)
    requires
        s@.len() == vs@.len(),
    ensures
        b == free_in(w, h, vs@, s@, idx as int, (c.0 as int, c.1 as int)),
{
    if c.0 < 0 || c.1 < 0 || c.0 >= w as i64 || c.1 >= h as i64 {
        return false;
    }
    let cx = c.0 as i32;
    let cy = c.1 as i32;
    let mut j: usize = 0;
    while j < vs.len()
        invariant
            s@.len() == vs@.len(),
            j <= vs@.len(),
            cx as int == c.0,
            cy as int == c.1,
            forall|m: int| 0 <= m < j && m != idx ==> !(#[trigger] at(vs@, s@, m)).covers(cx as int, cy as int),
        decreases vs@.len() - j,
    {
        if j != idx {
            let p = s[j];
            let v = &vs[j];
            let covers = match v.orientation {
                Orientation::Horizontal => cy == p.1 && cx >= p.0 && (cx as i64) < (p.0 as i64) + (
                v.length as i64),
                Orientation::Vertical => cx == p.0 && cy >= p.1 && (cy as i64) < (p.1 as i64) + (
                v.length as i64),
            };
            assert(covers == at(vs@, s@, j as int).covers(cx as int, cy as int));
            if covers {
                return false;
            }
        }
        j = j + 1;
    }
    true
}

/// A copy of a state.
fn copy_state(s: &Vec<(i32, i32)>) -> (r: Vec<(i32, i32)>)
    ensures
        r@ == s@,
{
    let mut r: Vec<(i32, i32)> = Vec::new();
    let mut i: usize = 0;
    while i < s.len()
        invariant
            i <= s@.len(),
            r@ == s@.subrange(0, i as int),
        decreases s@.len() - i,
    {
        r.push(s[i]);
        i = i + 1;
    }
    r
}

/// State `s` with vehicle `idx` slid by `k` cells.
fn slid_exec(vs: &[Vehicle], s: &Vec<(i32, i32)>, idx: usize, k: i64) -> (r: Vec<(i32, i32)>)
    requires
        s@.len() == vs@.len(),
        idx < vs@.len(),
        -0x4_0000_0000 <= k <= 0x4_0000_0000,
    ensures
        r@ == slid(vs@, s@, idx as int, k as int),
{
    let mut r = copy_state(s);
    let p = s[idx];
    let np = match vs[idx].orientation {
        Orientation::Horizontal => ((p.0 as i64 + k) as i32, p.1),
        Orientation::Vertical => (p.0, (p.1 as i64 + k) as i32),
    };
    r.set(idx, np);
    r
}


/// Whether `t` is reached by sliding one of the vehicles `0..idx`.
pub open spec fn step_by_first(
    w: i32,
    h: i32,
    vs: Seq<Vehicle>,
    s: Seq<(i32, i32)>,
    idx: int,
    t: Seq<(i32, i32)>,
) -> bool {
    exists|j: int, k: int| 0 <= j < idx && #[trigger] slide_ok(w, h, vs, s, j, k) && t == slid(vs, s, j, k)
}

/// All states one move away from `current`: each vehicle slides backwards
/// one, two, ... cells while the cells are free, then forwards likewise.
/// Static obstacles are not taken into account.
pub fn generate_next_states(
    width: i32,
    height: i32,
    current: &BoardState,
    vehicles: &[Vehicle],
) -> (r: Vec<BoardState>)
    requires
        current@.len() == vehicles@.len(),
    ensures
        forall|t: Seq<(i32, i32)>|
            state_views(r@).contains(t) <==> step(width, height, vehicles@, current@, t),
        forall|i: int| 0 <= i < r@.len() ==> (#[trigger] r@[i])@.len() == vehicles@.len(),
        state_views(r@).no_duplicates(),
        !state_views(r@).contains(current@),
{
    let ghost vs = vehicles@;
    let ghost s = current@;
    let n = vehicles.len();
    let mut out: Vec<BoardState> = Vec::new();
    let mut idx: usize = 0;
    while idx < n
        invariant
            n == vs.len(),
            vs == vehicles@,
            s == current@,
            s.len() == n,
            idx <= n,
            forall|t: Seq<(i32, i32)>|
                state_views(out@).contains(t) <==> step_by_first(width, height, vs, s, idx as int, t),
            forall|i: int| 0 <= i < out@.len() ==> (#[trigger] out@[i])@.len() == n,
            state_views(out@).no_duplicates(),
        decreases n - idx,
    {
        let ghost v = at(vs, s, idx as int);
        let p = current.0[idx];
        let veh = &vehicles[idx];
        let pos: i64 = match veh.orientation {
            Orientation::Horizontal => p.0 as i64,
            Orientation::Vertical => p.1 as i64,
        };
        let lim: i64 = match veh.orientation {
            Orientation::Horizontal => width as i64,
            Orientation::Vertical => height as i64,
        };
        let front: i64 = pos + veh.length as i64;
        assert(pos == v.axis_pos());
        assert(front == v.axis_pos() + v.length);
        let ghost before = state_views(out@);
        // Backwards.
        let mut m: i64 = 1;
        loop
            invariant
                n == vs.len(),
                vs == vehicles@,
                s == current@,
                s.len() == n,
                idx < n,
                v == at(vs, s, idx as int),
                p == s[idx as int],
                *veh == vs[idx as int],
                pos == v.axis_pos(),
                1 <= m <= (if pos > 0 { pos } else { 0 }) + 1,
                forall|mm: int| 1 <= mm < m ==> #[trigger] free_in(width, height, vs, s, idx as int, v.lane_cell(pos - mm)),
                forall|t: Seq<(i32, i32)>|
                    state_views(out@).contains(t) <==> (step_by_first(width, height, vs, s, idx as int, t)
                        || exists|mm: int| 1 <= mm < m && t == #[trigger] slid(vs, s, idx as int, -mm)),
                forall|i: int| 0 <= i < out@.len() ==> (#[trigger] out@[i])@.len() == n,
                state_views(out@).no_duplicates(),
            ensures
                forall|t: Seq<(i32, i32)>|
                    state_views(out@).contains(t) <==> (step_by_first(width, height, vs, s, idx as int, t)
                        || exists|k: int| k < 0 && #[trigger] slide_ok(width, height, vs, s, idx as int, k) && t == slid(vs, s, idx as int, k)),
                forall|i: int| 0 <= i < out@.len() ==> (#[trigger] out@[i])@.len() == n,
                state_views(out@).no_duplicates(),
            decreases (if pos > 0 { pos } else { 0 }) + 1 - m,
        {
            let ghost views0 = state_views(out@);
            if m > pos || !free_exec(width, height, vehicles, &current.0, idx, match veh.orientation {
                Orientation::Horizontal => (pos - m, p.1 as i64),
                Orientation::Vertical => (p.0 as i64, pos - m),
            }) {
                proof {
                    assert(!free_in(width, height, vs, s, idx as int, v.lane_cell(pos - m)));
                    assert forall|t: Seq<(i32, i32)>|
                        state_views(out@).contains(t) <==> (step_by_first(width, height, vs, s, idx as int, t)
                            || exists|k: int| k < 0 && #[trigger] slide_ok(width, height, vs, s, idx as int, k) && t == slid(vs, s, idx as int, k)) by {
                        if exists|k: int| k < 0 && #[trigger] slide_ok(width, height, vs, s, idx as int, k) && t == slid(vs, s, idx as int, k) {
                            let k = choose|k: int| k < 0 && #[trigger] slide_ok(width, height, vs, s, idx as int, k) && t == slid(vs, s, idx as int, k);
                            if -k >= m {
                                assert(free_in(width, height, vs, s, idx as int, v.lane_cell(pos - m)));
                            }
                            assert(slid(vs, s, idx as int, -(-k)) == t);
                        }
                        if exists|mm: int| 1 <= mm < m && t == #[trigger] slid(vs, s, idx as int, -mm) {
                            let mm = choose|mm: int| 1 <= mm < m && t == #[trigger] slid(vs, s, idx as int, -mm);
                            assert(slide_ok(width, height, vs, s, idx as int, -mm));
                        }
                    }
                }
                break;
            }
            let t = BoardState(slid_exec(vehicles, &current.0, idx, -m));
            proof {
                assert(free_in(width, height, vs, s, idx as int, v.lane_cell(pos - m)));
            }
            out.push(t);
            proof {
                let nt = slid(vs, s, idx as int, -m as int);
                assert(state_views(out@) =~= views0.push(nt));
                if views0.contains(nt) {
                    if step_by_first(width, height, vs, s, idx as int, nt) {
                        let (j, k) = choose|j: int, k: int| 0 <= j < idx && #[trigger] slide_ok(width, height, vs, s, j, k) && nt == slid(vs, s, j, k);
                        assert(slid(vs, s, j, k)[idx as int] == s[idx as int]);
                    } else {
                        let mm = choose|mm: int| 1 <= mm < m && nt == #[trigger] slid(vs, s, idx as int, -mm);
                        assert(slid(vs, s, idx as int, -mm)[idx as int] != nt[idx as int]);
                    }
                }
                lemma_push_no_dup(views0, nt);
                assert forall|t2: Seq<(i32, i32)>|
                    state_views(out@).contains(t2) <==> (step_by_first(width, height, vs, s, idx as int, t2)
                        || exists|mm: int| 1 <= mm < m + 1 && t2 == #[trigger] slid(vs, s, idx as int, -mm)) by {
                    if state_views(out@).contains(t2) {
                        let i = choose|i: int| 0 <= i < state_views(out@).len() && state_views(out@)[i] == t2;
                        if i < views0.len() {
                            assert(views0.contains(t2));
                        }
                    }
                    if views0.contains(t2) {
                        let i = choose|i: int| 0 <= i < views0.len() && views0[i] == t2;
                        assert(state_views(out@)[i] == t2);
                    }
                    if exists|mm: int| 1 <= mm < m + 1 && t2 == #[trigger] slid(vs, s, idx as int, -mm) {
                        let mm = choose|mm: int| 1 <= mm < m + 1 && t2 == #[trigger] slid(vs, s, idx as int, -mm);
                        if mm < m {
                            assert(views0.contains(t2));
                        } else {
                            assert(state_views(out@)[views0.len() as int] == t2);
                        }
                    }
                }
            }
            m = m + 1;
        }
        // Forwards.
        let ghost mid = state_views(out@);
        let mut m: i64 = 1;
        loop
            invariant
                n == vs.len(),
                vs == vehicles@,
                s == current@,
                s.len() == n,
                idx < n,
                v == at(vs, s, idx as int),
                p == s[idx as int],
                *veh == vs[idx as int],
                pos == v.axis_pos(),
                front == v.axis_pos() + v.length,
                lim == match v.orientation {
                    Orientation::Horizontal => width as int,
                    Orientation::Vertical => height as int,
                },
                1 <= m <= (if lim - front > 0 { lim - front } else { 0 }) + 1,
                forall|mm: int| 1 <= mm < m ==> #[trigger] free_in(width, height, vs, s, idx as int, v.lane_cell(front - 1 + mm)),
                forall|t: Seq<(i32, i32)>|
                    state_views(out@).contains(t) <==> (step_by_first(width, height, vs, s, idx as int, t)
                        || (exists|k: int| k < 0 && #[trigger] slide_ok(width, height, vs, s, idx as int, k) && t == slid(vs, s, idx as int, k))
                        || exists|mm: int| 1 <= mm < m && t == #[trigger] slid(vs, s, idx as int, mm)),
                forall|i: int| 0 <= i < out@.len() ==> (#[trigger] out@[i])@.len() == n,
                state_views(out@).no_duplicates(),
            ensures
                forall|t: Seq<(i32, i32)>|
                    state_views(out@).contains(t) <==> step_by_first(width, height, vs, s, idx + 1, t),
                forall|i: int| 0 <= i < out@.len() ==> (#[trigger] out@[i])@.len() == n,
                state_views(out@).no_duplicates(),
            decreases (if lim - front > 0 { lim - front } else { 0 }) + 1 - m,
        {
            let ghost views0 = state_views(out@);
            if m > lim - front || !free_exec(width, height, vehicles, &current.0, idx, match veh.orientation {
                Orientation::Horizontal => (front - 1 + m, p.1 as i64),
                Orientation::Vertical => (p.0 as i64, front - 1 + m),
            }) {
                proof {
                    assert(!free_in(width, height, vs, s, idx as int, v.lane_cell(front - 1 + m)));
                    assert forall|t: Seq<(i32, i32)>|
                        state_views(out@).contains(t) <==> step_by_first(width, height, vs, s, idx + 1, t) by {
                        if step_by_first(width, height, vs, s, idx + 1, t) {
                            let (j, k) = choose|j: int, k: int| 0 <= j < idx + 1 && #[trigger] slide_ok(width, height, vs, s, j, k) && t == slid(vs, s, j, k);
                            if j < idx {
                                assert(step_by_first(width, height, vs, s, idx as int, t));
                            } else if k < 0 {
                            } else {
                                if k >= m {
                                    assert(free_in(width, height, vs, s, idx as int, v.lane_cell(front - 1 + m)));
                                }
                                assert(slid(vs, s, idx as int, k) == t);
                            }
                        }
                        if step_by_first(width, height, vs, s, idx as int, t) {
                            let (j, k) = choose|j: int, k: int| 0 <= j < idx && #[trigger] slide_ok(width, height, vs, s, j, k) && t == slid(vs, s, j, k);
                            assert(step_by_first(width, height, vs, s, idx + 1, t));
                        }
                        if exists|k: int| k < 0 && #[trigger] slide_ok(width, height, vs, s, idx as int, k) && t == slid(vs, s, idx as int, k) {
                            let k = choose|k: int| k < 0 && #[trigger] slide_ok(width, height, vs, s, idx as int, k) && t == slid(vs, s, idx as int, k);
                            assert(step_by_first(width, height, vs, s, idx + 1, t));
                        }
                        if exists|mm: int| 1 <= mm < m && t == #[trigger] slid(vs, s, idx as int, mm) {
                            let mm = choose|mm: int| 1 <= mm < m && t == #[trigger] slid(vs, s, idx as int, mm);
                            assert(slide_ok(width, height, vs, s, idx as int, mm));
                            assert(step_by_first(width, height, vs, s, idx + 1, t));
                        }
                    }
                }
                break;
            }
            let t = BoardState(slid_exec(vehicles, &current.0, idx, m));
            proof {
                assert(free_in(width, height, vs, s, idx as int, v.lane_cell(front - 1 + m)));
            }
            out.push(t);
            proof {
                let nt = slid(vs, s, idx as int, m as int);
                assert(state_views(out@) =~= views0.push(nt));
                assert(free_in(width, height, vs, s, idx as int, v.lane_cell(front - 1 + 1)));
                if views0.contains(nt) {
                    if step_by_first(width, height, vs, s, idx as int, nt) {
                        let (j, k) = choose|j: int, k: int| 0 <= j < idx && #[trigger] slide_ok(width, height, vs, s, j, k) && nt == slid(vs, s, j, k);
                        assert(slid(vs, s, j, k)[idx as int] == s[idx as int]);
                        lemma_i32_wrap_distinct(pos + m, pos as int);
                    } else if exists|k: int| k < 0 && #[trigger] slide_ok(width, height, vs, s, idx as int, k) && nt == slid(vs, s, idx as int, k) {
                        let k = choose|k: int| k < 0 && #[trigger] slide_ok(width, height, vs, s, idx as int, k) && nt == slid(vs, s, idx as int, k);
                        assert(free_in(width, height, vs, s, idx as int, v.lane_cell(pos - (-k))));
                        lemma_i32_wrap_distinct(pos + m, pos + k);
                        assert(slid(vs, s, idx as int, k)[idx as int] != nt[idx as int]);
                    } else {
                        let mm = choose|mm: int| 1 <= mm < m && nt == #[trigger] slid(vs, s, idx as int, mm);
                        lemma_i32_wrap_distinct(pos + m, pos + mm);
                        assert(slid(vs, s, idx as int, mm)[idx as int] != nt[idx as int]);
                    }
                }
                lemma_push_no_dup(views0, nt);
                assert forall|t2: Seq<(i32, i32)>|
                    state_views(out@).contains(t2) <==> (step_by_first(width, height, vs, s, idx as int, t2)
                        || (exists|k: int| k < 0 && #[trigger] slide_ok(width, height, vs, s, idx as int, k) && t2 == slid(vs, s, idx as int, k))
                        || exists|mm: int| 1 <= mm < m + 1 && t2 == #[trigger] slid(vs, s, idx as int, mm)) by {
                    if state_views(out@).contains(t2) {
                        let i = choose|i: int| 0 <= i < state_views(out@).len() && state_views(out@)[i] == t2;
                        if i < views0.len() {
                            assert(views0.contains(t2));
                        }
                    }
                    if views0.contains(t2) {
                        let i = choose|i: int| 0 <= i < views0.len() && views0[i] == t2;
                        assert(state_views(out@)[i] == t2);
                    }
                    if exists|mm: int| 1 <= mm < m + 1 && t2 == #[trigger] slid(vs, s, idx as int, mm) {
                        let mm = choose|mm: int| 1 <= mm < m + 1 && t2 == #[trigger] slid(vs, s, idx as int, mm);
                        if mm < m {
                            assert(views0.contains(t2));
                        } else {
                            assert(state_views(out@)[views0.len() as int] == t2);
                        }
                    }
                }
            }
            m = m + 1;
        }
        idx = idx + 1;
    }
    proof {
        assert forall|t: Seq<(i32, i32)>|
            state_views(out@).contains(t) <==> step(width, height, vehicles@, current@, t) by {
            if step(width, height, vs, s, t) {
                let (j, k) = choose|j: int, k: int| 0 <= j < vs.len() && #[trigger] slide_ok(width, height, vs, s, j, k) && t == slid(vs, s, j, k);
                assert(step_by_first(width, height, vs, s, n as int, t));
            }
            if step_by_first(width, height, vs, s, n as int, t) {
                let (j, k) = choose|j: int, k: int| 0 <= j < n && #[trigger] slide_ok(width, height, vs, s, j, k) && t == slid(vs, s, j, k);
                assert(step(width, height, vs, s, t));
            }
        }
        if step(width, height, vs, s, s) {
            let (j, k) = choose|j: int, k: int| 0 <= j < vs.len() && #[trigger] slide_ok(width, height, vs, s, j, k) && s == slid(vs, s, j, k);
            let v = at(vs, s, j);
            if k < 0 {
                assert(free_in(width, height, vs, s, j, v.lane_cell(v.axis_pos() - (-k))));
            } else {
                assert(free_in(width, height, vs, s, j, v.lane_cell(v.axis_pos() + v.length - 1 + 1)));
                assert(free_in(width, height, vs, s, j, v.lane_cell(v.axis_pos() + v.length - 1 + k)));
            }
            lemma_i32_wrap_distinct(v.axis_pos() + k, v.axis_pos());
            assert(slid(vs, s, j, k)[j] != s[j]);
        }
    }
    out
}


/// In the layout a board starts from, a cell is free for the solver exactly
/// when the board, which has no static obstacles, reports it free.
proof fn lemma_free_in_is_lane_free(b: Board, idx: int, p: int)
    requires
        0 <= idx < b.vehicles@.len(),
        b.obstacles@.len() == 0,
    ensures
        free_in(b.width, b.height, b.vehicles@, positions_of(b.vehicles@), idx, b.vehicles@[idx].lane_cell(p))
            == b.lane_free(idx, p),
{
    let vs = b.vehicles@;
    let s = positions_of(vs);
    let c = vs[idx].lane_cell(p);
    assert(vs.len() == b.vehicles.len());
    assert forall|j: int| 0 <= j < vs.len() implies #[trigger] at(vs, s, j) == vs[j] by {
        assert(s[j] == (vs[j].x, vs[j].y));
    }
    if free_in(b.width, b.height, vs, s, idx, c) {
        assert forall|i: int|
            0 <= i < vs.len() && Some(idx as usize) != Some(i as usize) implies !(#[trigger] vs[i]).covers(
            c.0,
            c.1,
        ) by {
            assert(at(vs, s, i) == vs[i]);
        }
    }
    if b.lane_free(idx, p) {
        assert forall|j: int| 0 <= j < vs.len() && j != idx implies !(#[trigger] at(vs, s, j)).covers(c.0, c.1) by {
            assert(Some(idx as usize) != Some(j as usize));
        }
    }
}

/// The solver's moves are the player's moves: on a board without static
/// obstacles, a vehicle can slide `k` cells in the solver's search exactly
/// when `k` is a non-zero offset within the bounds that
/// `compute_movement_bounds` reports, and the state it reaches holds the
/// positions of the board's vehicles after that slide.
pub proof fn lemma_solver_moves_are_board_moves(b: Board, idx: int, lo: int, hi: int, k: int)
    requires
        0 <= idx < b.vehicles@.len(),
        b.obstacles@.len() == 0,
        b.movement_bounds_spec(idx, lo, hi),
    ensures
        slide_ok(b.width, b.height, b.vehicles@, positions_of(b.vehicles@), idx, k) <==> (k != 0 && lo <= k
            <= hi),
        slid(b.vehicles@, positions_of(b.vehicles@), idx, k) == positions_of(
            b.vehicles@.update(idx, shifted(b.vehicles@[idx], k)),
        ),
{
    let vs = b.vehicles@;
    let s = positions_of(vs);
    let v = vs[idx];
    let pos = v.axis_pos();
    let front = pos + v.length;
    assert(s[idx] == (v.x, v.y));
    assert(at(vs, s, idx) == v);
    assert forall|q: int| #[trigger] free_in(b.width, b.height, vs, s, idx, v.lane_cell(q)) == b.lane_free(idx, q) by {
        lemma_free_in_is_lane_free(b, idx, q);
    }
    if k < 0 {
        if k >= lo {
            assert forall|m: int| 1 <= m <= -k implies #[trigger] free_in(
                b.width,
                b.height,
                vs,
                s,
                idx,
                v.lane_cell(pos - m),
            ) by {
                assert(b.lane_free(idx, pos - m));
            }
        } else if slide_ok(b.width, b.height, vs, s, idx, k) {
            assert(free_in(b.width, b.height, vs, s, idx, v.lane_cell(pos - (-lo + 1))));
            assert(b.lane_free(idx, pos + lo - 1));
            if -lo >= pos {
                assert(!b.inside(v.lane_cell(pos + lo - 1).0, v.lane_cell(pos + lo - 1).1));
            }
        }
    }
    if k > 0 {
        if k <= hi {
            assert forall|m: int| 1 <= m <= k implies #[trigger] free_in(
                b.width,
                b.height,
                vs,
                s,
                idx,
                v.lane_cell(front - 1 + m),
            ) by {
                assert(b.lane_free(idx, front - 1 + m));
            }
        } else if slide_ok(b.width, b.height, vs, s, idx, k) {
            assert(free_in(b.width, b.height, vs, s, idx, v.lane_cell(front - 1 + (hi + 1))));
            assert(b.lane_free(idx, front + hi));
            if hi >= b.axis_limit(idx) - front {
                assert(!b.inside(v.lane_cell(front + hi).0, v.lane_cell(front + hi).1));
            }
        }
    }
    assert(slid(vs, s, idx, k) =~= positions_of(vs.update(idx, shifted(v, k))));
}

/// Whether state `s` can be reached from `s0` in at most `d` moves.
pub open spec fn reach_within(
    w: i32,
    h: i32,
    vs: Seq<Vehicle>,
    s0: Seq<(i32, i32)>,
    s: Seq<(i32, i32)>,
    d: nat,
) -> bool
    decreases d,
{
    if d == 0 {
        s == s0
    } else {
        reach_within(w, h, vs, s0, s, (d - 1) as nat) || exists|p: Seq<(i32, i32)>|
            reach_within(w, h, vs, s0, p, (d - 1) as nat) && #[trigger] step(w, h, vs, p, s)
    }
}

/// Index of the first player vehicle (the length if there is none).
pub open spec fn player_index(vs: Seq<Vehicle>, i: int) -> int
    decreases vs.len() - i,
{
    if i >= vs.len() {
        vs.len() as int
    } else if vs[i].is_player {
        i
    } else {
        player_index(vs, i + 1)
    }
}

/// Whether the player vehicle `pi` reaches the exit in state `s`.
pub open spec fn winning(
    w: i32,
    h: i32,
    exit: ExitPosition,
    vs: Seq<Vehicle>,
    pi: int,
    s: Seq<(i32, i32)>,
) -> bool {
    exit_reached_spec(
        exit,
        vs[pi].orientation,
        s[pi].0 as int,
        s[pi].1 as int,
        vs[pi].length as int,
        w as int,
        h as int,
    )
}

/// Whether the puzzle can be solved in at most `d` moves.
pub open spec fn solvable_within(w: i32, h: i32, exit: ExitPosition, vs: Seq<Vehicle>, d: nat) -> bool {
    exists|s: Seq<(i32, i32)>|
        #[trigger] reach_within(w, h, vs, positions_of(vs), s, d) && winning(
            w,
            h,
            exit,
            vs,
            player_index(vs, 0),
            s,
        )
}

pub proof fn lemma_player_index(vs: Seq<Vehicle>, i: int)
    requires
        0 <= i <= vs.len(),
    ensures
        i <= player_index(vs, i) <= vs.len(),
        forall|k: int| i <= k < player_index(vs, i) ==> !(#[trigger] vs[k]).is_player,
        player_index(vs, i) < vs.len() ==> vs[player_index(vs, i)].is_player,
    decreases vs.len() - i,
{
    if i < vs.len() && !vs[i].is_player {
        lemma_player_index(vs, i + 1);
    }
}

/// Reachability within `a` moves implies reachability within any `b >= a`.
pub proof fn lemma_within_mono(
    w: i32,
    h: i32,
    vs: Seq<Vehicle>,
    s0: Seq<(i32, i32)>,
    s: Seq<(i32, i32)>,
    a: nat,
    b: nat,
)
    requires
        a <= b,
        reach_within(w, h, vs, s0, s, a),
    ensures
        reach_within(w, h, vs, s0, s, b),
    decreases b - a,
{
    if a < b {
        lemma_within_mono(w, h, vs, s0, s, a, (b - 1) as nat);
    }
}

/// Once a round of moves reaches nothing new, nothing new is ever reached.
pub proof fn lemma_within_closed(
    w: i32,
    h: i32,
    vs: Seq<Vehicle>,
    s0: Seq<(i32, i32)>,
    d: nat,
    e: nat,
    s: Seq<(i32, i32)>,
)
    requires
        d > 0,
        forall|t: Seq<(i32, i32)>|
            #[trigger] reach_within(w, h, vs, s0, t, d) ==> reach_within(w, h, vs, s0, t, (d - 1) as nat),
        reach_within(w, h, vs, s0, s, e),
    ensures
        reach_within(w, h, vs, s0, s, (d - 1) as nat),
    decreases e,
{
    if e >= d {
        if reach_within(w, h, vs, s0, s, (e - 1) as nat) {
            lemma_within_closed(w, h, vs, s0, d, (e - 1) as nat, s);
        } else {
            assert(exists|p: Seq<(i32, i32)>|
                reach_within(w, h, vs, s0, p, (e - 1) as nat) && #[trigger] step(w, h, vs, p, s));
            let p = choose|p: Seq<(i32, i32)>|
                reach_within(w, h, vs, s0, p, (e - 1) as nat) && #[trigger] step(w, h, vs, p, s);
            lemma_within_closed(w, h, vs, s0, d, (e - 1) as nat, p);
            assert(reach_within(w, h, vs, s0, p, (d - 1) as nat) && step(w, h, vs, p, s));
            assert(reach_within(w, h, vs, s0, s, d));
        }
    } else {
        lemma_within_mono(w, h, vs, s0, s, e, (d - 1) as nat);
    }
}

/// Whether two states are equal.
fn same_state(a: &Vec<(i32, i32)>, b: &Vec<(i32, i32)>) -> (r: bool)
    ensures
        r == (a@ == b@),
{
    if a.len() != b.len() {
        return false;
    }
    let mut i: usize = 0;
    while i < a.len()
        invariant
            a@.len() == b@.len(),
            i <= a@.len(),
            forall|k: int| 0 <= k < i ==> a@[k] == b@[k],
        decreases a@.len() - i,
    {
        let (ax, ay) = a[i];
        let (bx, by) = b[i];
        if ax != bx || ay != by {
            return false;
        }
        i = i + 1;
    }
    assert(a@ =~= b@);
    true
}

/// A 64-bit key of a state, mixed from all positions; equal states have
/// equal keys, different states usually different ones.
pub open spec fn state_key_upto(s: Seq<(i32, i32)>, n: int) -> int
    decreases n,
{
    if n <= 0 {
        0
    } else {
        (state_key_upto(s, n - 1) * 1000003 + (s[n - 1].0 as u32) * 65599 + (s[n - 1].1 as u32))
            % 0x1_0000_0000_0000_0000
    }
}

pub open spec fn state_key(s: Seq<(i32, i32)>) -> u64 {
    state_key_upto(s, s.len() as int) as u64
}

proof fn lemma_state_key_range(s: Seq<(i32, i32)>, n: int)
    ensures
        0 <= state_key_upto(s, n) < 0x1_0000_0000_0000_0000,
    decreases n,
{
    if n > 0 {
        lemma_state_key_range(s, n - 1);
    }
}

fn state_key_exec(s: &Vec<(i32, i32)>) -> (k: u64)
    ensures
        k == state_key(s@),
{
    let mut h: u64 = 0;
    let mut i: usize = 0;
    while i < s.len()
        invariant
            i <= s@.len(),
            h as int == state_key_upto(s@, i as int),
        decreases s@.len() - i,
    {
        let p = s[i];
        let x: u128 = (h as u128) * 1000003 + (p.0 as u32 as u128) * 65599 + (p.1 as u32 as u128);
        h = (x % 0x1_0000_0000_0000_0000) as u64;
        i = i + 1;
    }
    proof {
        lemma_state_key_range(s@, s@.len() as int);
    }
    h
}

/// The states seen so far, in the order they were first seen, with a hash
/// index from each state's key to the places in the list where states with
/// that key stand.
struct Seen {
    states: Vec<BoardState>,
    index: HashMap<u64, Vec<usize>>,
}

impl Seen {
    /// The index points exactly at the states with each key.
    spec fn wf(&self) -> bool {
        &&& forall|k: u64, j: int|
            #![trigger self.index@[k]@[j]]
            self.index@.contains_key(k) && 0 <= j < self.index@[k]@.len() ==> {
                &&& self.index@[k]@[j] < self.states@.len()
                &&& state_key(self.states@[self.index@[k]@[j] as int]@) == k
            }
        &&& forall|i: int|
            0 <= i < self.states@.len() ==> self.index@.contains_key(state_key(#[trigger] self.states@[i]@))
                && self.index@[state_key(self.states@[i]@)]@.contains(i as usize)
    }

    /// Nothing seen yet.
    fn new() -> (r: Seen)
        ensures
            r.wf(),
            r.states@.len() == 0,
    {
        Seen { states: Vec::new(), index: HashMap::new() }
    }

    /// A seen state is listed under its key.
    proof fn lemma_lookup(&self, t: Seq<(i32, i32)>) -> (i: int)
        requires
            self.wf(),
            state_views(self.states@).contains(t),
        ensures
            0 <= i < self.states@.len(),
            self.states@[i]@ == t,
            self.index@.contains_key(state_key(t)),
            self.index@[state_key(t)]@.contains(i as usize),
    {
        let i = choose|i: int| 0 <= i < state_views(self.states@).len() && state_views(self.states@)[i] == t;
        assert(self.states@.len() == self.states.len());
        assert(self.states@[i]@ == t);
        i
    }

    /// Whether state `t` was seen.
    #[verifier::rlimit(30)]
    fn contains(&self, t: &BoardState) -> (r: bool)
        requires
            self.wf(),
        ensures
            r == state_views(self.states@).contains(t@),
    {
        broadcast use vstd::std_specs::hash::group_hash_axioms;
        let k = state_key_exec(&t.0);
        let found = self.index.get(&k);
        if found.is_none() {
            proof {
                if state_views(self.states@).contains(t@) {
                    let i = self.lemma_lookup(t@);
                }
            }
            return false;
        }
        let bucket = found.unwrap();
        let mut j: usize = 0;
        while j < bucket.len()
            invariant
                self.wf(),
                self.index@.contains_key(k),
                self.index@[k] == *bucket,
                k == state_key(t@),
                j <= bucket@.len(),
                forall|jj: int| 0 <= jj < j ==> self.states@[#[trigger] bucket@[jj] as int]@ != t@,
            decreases bucket@.len() - j,
        {
            let i = bucket[j];
            assert(self.index@[k]@[j as int] == i);
            if same_state(&self.states[i].0, &t.0) {
                assert(state_views(self.states@)[i as int] == t@);
                return true;
            }
            j = j + 1;
        }
        proof {
            if state_views(self.states@).contains(t@) {
                let i = self.lemma_lookup(t@);
                assert(self.states@.len() == self.states.len());
                assert(bucket@ == self.index@[k]@);
                assert(bucket@.contains(i as usize));
                let jj = choose|jj: int| 0 <= jj < bucket@.len() && bucket@[jj] == i as usize;
                assert(bucket@[jj] as int == i);
                assert(self.states@[bucket@[jj] as int]@ != t@);
            }
        }
        false
    }

    /// Records state `t` as seen.
    fn insert(&mut self, t: BoardState)
        requires
            old(self).wf(),
        ensures
            final(self).wf(),
            final(self).states@ == old(self).states@.push(t),
    {
        broadcast use vstd::std_specs::hash::group_hash_axioms;
        let i = self.states.len();
        let k = state_key_exec(&t.0);
        let ghost old_states = self.states@;
        let ghost old_index = self.index@;
        self.states.push(t);
        let mut bucket = match self.index.remove(&k) {
            Some(b) => b,
            None => Vec::new(),
        };
        let ghost old_bucket = bucket@;
        assert(old_index.contains_key(k) ==> old_bucket == old_index[k]@);
        assert(!old_index.contains_key(k) ==> old_bucket.len() == 0);
        bucket.push(i);
        self.index.insert(k, bucket);
        proof {
            assert(self.index@ == old_index.insert(k, self.index@[k]));
            assert(self.index@[k]@ == old_bucket.push(i));
            assert forall|kk: u64, j: int|
                #![trigger self.index@[kk]@[j]]
                self.index@.contains_key(kk) && 0 <= j < self.index@[kk]@.len() implies {
                    &&& self.index@[kk]@[j] < self.states@.len()
                    &&& state_key(self.states@[self.index@[kk]@[j] as int]@) == kk
                } by {
                if kk == k {
                    if j < old_bucket.len() {
                        assert(old_index[k]@[j] == self.index@[kk]@[j]);
                    }
                } else {
                    assert(old_index[kk] == self.index@[kk]);
                    assert(old_index[kk]@[j] == self.index@[kk]@[j]);
                }
            }
            assert forall|ii: int| 0 <= ii < self.states@.len() implies self.index@.contains_key(
                state_key(#[trigger] self.states@[ii]@),
            ) && self.index@[state_key(self.states@[ii]@)]@.contains(ii as usize) by {
                let kk = state_key(self.states@[ii]@);
                if ii == i as int {
                    assert(self.index@[k]@[old_bucket.len() as int] == i);
                } else {
                    assert(self.states@[ii] == old_states[ii]);
                    assert(old_index[kk]@.contains(ii as usize));
                    let jj = choose|jj: int| 0 <= jj < old_index[kk]@.len() && old_index[kk]@[jj] == ii as usize;
                    if kk == k {
                        assert(self.index@[k]@[jj] == ii as usize);
                    } else {
                        assert(self.index@[kk] == old_index[kk]);
                    }
                }
            }
        }
    }
}

proof fn lemma_push_contains(s: Seq<Seq<(i32, i32)>>, x: Seq<(i32, i32)>, t: Seq<(i32, i32)>)
    ensures
        s.push(x).contains(t) <==> (s.contains(t) || t == x),
{
    if s.push(x).contains(t) {
        let i = choose|i: int| 0 <= i < s.push(x).len() && s.push(x)[i] == t;
        if i < s.len() {
            assert(s[i] == t);
        }
    }
    if s.contains(t) {
        let i = choose|i: int| 0 <= i < s.len() && s[i] == t;
        assert(s.push(x)[i] == t);
    }
    if t == x {
        assert(s.push(x)[s.len() as int] == t);
    }
}

/// Truncation to `i32` of a number between `i32::MIN` and `2^32`.
proof fn lemma_i32_wrap(a: int)
    requires
        -0x8000_0000 <= a < 0x1_0000_0000,
    ensures
        (a as i32) as int == if a <= 0x7fff_ffff { a } else { a - 0x1_0000_0000 },
{
    let x: i64 = a as i64;
    assert(x as int == a);
    assert((x as i32) as i64 == if x <= 0x7fff_ffff { x } else { (x - 0x1_0000_0000) as i64 }) by (bit_vector)
        requires
            -0x8000_0000 <= x < 0x1_0000_0000,
    ;
    assert((x as i32) == (a as i32));
}

/// Two different positions closer than `2^32` stay different after truncation to `i32`.
proof fn lemma_i32_wrap_distinct(a: int, b: int)
    requires
        -0x8000_0000 <= a < 0x1_0000_0000,
        -0x8000_0000 <= b < 0x1_0000_0000,
        a != b,
        a - b < 0x1_0000_0000,
        b - a < 0x1_0000_0000,
    ensures
        a as i32 != b as i32,
{
    lemma_i32_wrap(a);
    lemma_i32_wrap(b);
}

proof fn lemma_push_no_dup(s: Seq<Seq<(i32, i32)>>, x: Seq<(i32, i32)>)
    requires
        s.no_duplicates(),
        !s.contains(x),
    ensures
        s.push(x).no_duplicates(),
{
    assert forall|i: int, j: int| 0 <= i < s.push(x).len() && 0 <= j < s.push(x).len() && i != j implies s.push(
        x,
    )[i] != s.push(x)[j] by {
        if i == s.len() {
            assert(s[j] == s.push(x)[j]);
        } else if j == s.len() {
            assert(s[i] == s.push(x)[i]);
        }
    }
}

/// Breadth-first layering: the states reachable within `d + 1` moves are
/// those reachable within `d` moves and the successors of the frontier,
/// provided the frontier holds every state first reached at distance `d`.
proof fn lemma_next_level(
    w: i32,
    h: i32,
    vs: Seq<Vehicle>,
    s0: Seq<(i32, i32)>,
    fr: Seq<Seq<(i32, i32)>>,
    d: nat,
    t: Seq<(i32, i32)>,
)
    requires
        forall|k: int| 0 <= k < fr.len() ==> reach_within(w, h, vs, s0, #[trigger] fr[k], d),
        forall|u: Seq<(i32, i32)>|
            #[trigger] reach_within(w, h, vs, s0, u, d) && (d == 0 || !reach_within(w, h, vs, s0, u, (d - 1) as nat))
                ==> fr.contains(u),
    ensures
        reach_within(w, h, vs, s0, t, d + 1) <==> (reach_within(w, h, vs, s0, t, d) || exists|k: int|
            0 <= k < fr.len() && #[trigger] step(w, h, vs, fr[k], t)),
{
    if reach_within(w, h, vs, s0, t, d + 1) && !reach_within(w, h, vs, s0, t, d) {
        let p = choose|p: Seq<(i32, i32)>| reach_within(w, h, vs, s0, p, d) && #[trigger] step(w, h, vs, p, t);
        if fr.contains(p) {
            let k = choose|k: int| 0 <= k < fr.len() && fr[k] == p;
            assert(step(w, h, vs, fr[k], t));
        } else {
            assert(d > 0 && reach_within(w, h, vs, s0, p, (d - 1) as nat));
            assert(reach_within(w, h, vs, s0, t, d));
        }
    }
    if exists|k: int| 0 <= k < fr.len() && #[trigger] step(w, h, vs, fr[k], t) {
        let k = choose|k: int| 0 <= k < fr.len() && #[trigger] step(w, h, vs, fr[k], t);
        assert(reach_within(w, h, vs, s0, fr[k], d));
        assert(reach_within(w, h, vs, s0, t, d + 1));
    }
}

/// Solves a parking puzzle by breadth-first search over vehicle positions,
/// which finds the least number of moves that brings the first player
/// vehicle to the exit. A move slides one vehicle any number of free cells
/// along its axis; static obstacles are not taken into account. Returns
/// `None` when there is no player vehicle, or when no sequence of at most
/// `u32::MAX` moves reaches the exit.
pub fn solve(width: i32, height: i32, exit: ExitPosition, vehicles: &[Vehicle]) -> (r: Option<u32>)
    ensures
        match r {
            Some(n) => player_index(vehicles@, 0) < vehicles@.len() && solvable_within(
                width,
                height,
                exit,
                vehicles@,
                n as nat,
            ) && (n > 0 ==> !solvable_within(width, height, exit, vehicles@, (n - 1) as nat)),
            None => player_index(vehicles@, 0) == vehicles@.len() || forall|d: nat|
                d <= u32::MAX ==> !#[trigger] solvable_within(width, height, exit, vehicles@, d),
        },
{
    let ghost vs = vehicles@;
    let n = vehicles.len();
    let mut pi: usize = 0;
    proof {
        lemma_player_index(vs, 0);
    }
    while pi < n && !vehicles[pi].is_player
        invariant
            n == vs.len(),
            vs == vehicles@,
            pi <= n,
            player_index(vs, 0) == player_index(vs, pi as int),
        decreases n - pi,
    {
        pi = pi + 1;
    }
    if pi == n {
        return None;
    }
    let ghost s0 = positions_of(vs);
    let mut init: Vec<(i32, i32)> = Vec::new();
    let mut i: usize = 0;
    while i < n
        invariant
            n == vs.len(),
            vs == vehicles@,
            i <= n,
            init@ == positions_of(vs.subrange(0, i as int)),
        decreases n - i,
    {
        init.push((vehicles[i].x, vehicles[i].y));
        proof {
            assert(positions_of(vs.subrange(0, i + 1)) =~= positions_of(vs.subrange(0, i as int)).push(
                (vs[i as int].x, vs[i as int].y),
            ));
        }
        i = i + 1;
    }
    assert(vs.subrange(0, n as int) =~= vs);
    assert(init@ == s0);
    let mut visited = Seen::new();
    visited.insert(BoardState(copy_state(&init)));
    let mut frontier: Vec<BoardState> = Vec::new();
    frontier.push(BoardState(init));
    let mut depth: u32 = 0;
    proof {
        assert forall|t: Seq<(i32, i32)>|
            state_views(visited.states@).contains(t) <==> reach_within(width, height, vs, s0, t, 0) by {
            assert(state_views(visited.states@) =~= seq![s0]);
            if t == s0 {
                assert(state_views(visited.states@)[0] == t);
            }
        }
        assert forall|t: Seq<(i32, i32)>|
            #[trigger] reach_within(width, height, vs, s0, t, 0) implies state_views(frontier@).contains(t) by {
            assert(state_views(frontier@)[0] == t);
        }
    }
    loop
        invariant
            n == vs.len(),
            vs == vehicles@,
            pi == player_index(vs, 0),
            pi < n,
            s0 == positions_of(vs),
            forall|t: Seq<(i32, i32)>|
                state_views(visited.states@).contains(t) <==> reach_within(width, height, vs, s0, t, depth as nat),
            forall|k: int|
                0 <= k < frontier@.len() ==> reach_within(width, height, vs, s0, (#[trigger] frontier@[k])@, depth as nat),
            forall|t: Seq<(i32, i32)>|
                #[trigger] reach_within(width, height, vs, s0, t, depth as nat) && (depth == 0
                    || !reach_within(width, height, vs, s0, t, (depth - 1) as nat)) ==> state_views(frontier@).contains(t),
            depth > 0 ==> !solvable_within(width, height, exit, vs, (depth - 1) as nat),
            forall|k: int| 0 <= k < frontier@.len() ==> (#[trigger] frontier@[k])@.len() == n,
            forall|k: int| 0 <= k < visited.states@.len() ==> (#[trigger] visited.states@[k])@.len() == n,
            visited.wf(),
        decreases u32::MAX - depth,
    {
        let mut i: usize = 0;
        while i < frontier.len()
            invariant
                n == vs.len(),
                vs == vehicles@,
                pi == player_index(vs, 0),
                pi < n,
                s0 == positions_of(vs),
                i <= frontier@.len(),
                forall|k: int| 0 <= k < frontier@.len() ==> (#[trigger] frontier@[k])@.len() == n,
                forall|k: int|
                    0 <= k < frontier@.len() ==> reach_within(width, height, vs, s0, (#[trigger] frontier@[k])@, depth as nat),
                forall|k: int| 0 <= k < i ==> !winning(width, height, exit, vs, pi as int, (#[trigger] frontier@[k])@),
                depth > 0 ==> !solvable_within(width, height, exit, vs, (depth - 1) as nat),
            decreases frontier@.len() - i,
        {
            let (px, py) = frontier[i].0[pi];
            if exit.is_reached(vehicles[pi].orientation, px, py, vehicles[pi].length, width, height) {
                proof {
                    let st = frontier@[i as int]@;
                    assert(winning(width, height, exit, vs, pi as int, st));
                    assert(reach_within(width, height, vs, positions_of(vs), st, depth as nat));
                    assert(solvable_within(width, height, exit, vs, depth as nat));
                }
                return Some(depth);
            }
            i = i + 1;
        }
        proof {
            assert forall|st: Seq<(i32, i32)>|
                #[trigger] reach_within(width, height, vs, positions_of(vs), st, depth as nat) implies !winning(
                width,
                height,
                exit,
                vs,
                pi as int,
                st,
            ) by {
                if depth > 0 && reach_within(width, height, vs, s0, st, (depth - 1) as nat) {
                } else {
                    assert(state_views(frontier@).contains(st));
                    let k = choose|k: int| 0 <= k < state_views(frontier@).len() && state_views(frontier@)[k] == st;
                    assert(frontier@[k]@ == st);
                }
            }
            assert(!solvable_within(width, height, exit, vs, depth as nat));
        }
        if frontier.len() == 0 {
            proof {
                assert(depth > 0) by {
                    if depth == 0 {
                        assert(reach_within(width, height, vs, s0, s0, 0));
                        assert(state_views(frontier@).contains(s0));
                    }
                }
                assert forall|t: Seq<(i32, i32)>|
                    #[trigger] reach_within(width, height, vs, s0, t, depth as nat) implies reach_within(
                    width,
                    height,
                    vs,
                    s0,
                    t,
                    (depth - 1) as nat,
                ) by {
                    if !reach_within(width, height, vs, s0, t, (depth - 1) as nat) {
                        assert(state_views(frontier@).contains(t));
                    }
                }
                assert forall|d: nat| d <= u32::MAX implies !#[trigger] solvable_within(width, height, exit, vs, d) by {
                    if solvable_within(width, height, exit, vs, d) {
                        let st = choose|st: Seq<(i32, i32)>|
                            #[trigger] reach_within(width, height, vs, positions_of(vs), st, d) && winning(
                                width,
                                height,
                                exit,
                                vs,
                                player_index(vs, 0),
                                st,
                            );
                        lemma_within_closed(width, height, vs, s0, depth as nat, d, st);
                        assert(reach_within(width, height, vs, positions_of(vs), st, (depth - 1) as nat));
                    }
                }
            }
            return None;
        }
        if depth == u32::MAX {
            proof {
                assert forall|d: nat| d <= u32::MAX implies !#[trigger] solvable_within(width, height, exit, vs, d) by {
                    if solvable_within(width, height, exit, vs, d) {
                        let st = choose|st: Seq<(i32, i32)>|
                            #[trigger] reach_within(width, height, vs, positions_of(vs), st, d) && winning(
                                width,
                                height,
                                exit,
                                vs,
                                player_index(vs, 0),
                                st,
                            );
                        lemma_within_mono(width, height, vs, s0, st, d, depth as nat);
                        assert(reach_within(width, height, vs, positions_of(vs), st, depth as nat));
                    }
                }
            }
            return None;
        }
        let ghost fr = state_views(frontier@);
        let mut next: Vec<BoardState> = Vec::new();
        let mut fi: usize = 0;
        while fi < frontier.len()
            invariant
                n == vs.len(),
                vs == vehicles@,
                s0 == positions_of(vs),
                fr == state_views(frontier@),
                fi <= frontier@.len(),
                forall|k: int| 0 <= k < frontier@.len() ==> (#[trigger] frontier@[k])@.len() == n,
                forall|k: int| 0 <= k < visited.states@.len() ==> (#[trigger] visited.states@[k])@.len() == n,
                visited.wf(),
                forall|k: int| 0 <= k < next@.len() ==> (#[trigger] next@[k])@.len() == n,
                forall|t: Seq<(i32, i32)>|
                    state_views(visited.states@).contains(t) <==> (reach_within(width, height, vs, s0, t, depth as nat)
                        || exists|k: int| 0 <= k < fi && #[trigger] step(width, height, vs, fr[k], t)),
                forall|t: Seq<(i32, i32)>|
                    state_views(next@).contains(t) <==> (state_views(visited.states@).contains(t)
                        && !reach_within(width, height, vs, s0, t, depth as nat)),
            decreases frontier@.len() - fi,
        {
            let succs = generate_next_states(width, height, &frontier[fi], vehicles);
            assert(fr[fi as int] == frontier@[fi as int]@);
            let mut j: usize = 0;
            while j < succs.len()
                invariant
                    n == vs.len(),
                    vs == vehicles@,
                    s0 == positions_of(vs),
                    fr == state_views(frontier@),
                    fi < frontier@.len(),
                    j <= succs@.len(),
                    forall|t: Seq<(i32, i32)>|
                        state_views(succs@).contains(t) <==> step(width, height, vs, fr[fi as int], t),
                    forall|k: int| 0 <= k < succs@.len() ==> (#[trigger] succs@[k])@.len() == n,
                    forall|k: int| 0 <= k < visited.states@.len() ==> (#[trigger] visited.states@[k])@.len() == n,
                    visited.wf(),
                    forall|k: int| 0 <= k < next@.len() ==> (#[trigger] next@[k])@.len() == n,
                    forall|t: Seq<(i32, i32)>|
                        state_views(visited.states@).contains(t) <==> (reach_within(width, height, vs, s0, t, depth as nat)
                            || (exists|k: int| 0 <= k < fi && #[trigger] step(width, height, vs, fr[k], t))
                            || exists|m: int| 0 <= m < j && (#[trigger] succs@[m])@ == t),
                    forall|t: Seq<(i32, i32)>|
                        state_views(next@).contains(t) <==> (state_views(visited.states@).contains(t)
                            && !reach_within(width, height, vs, s0, t, depth as nat)),
                decreases succs@.len() - j,
            {
                let ghost x = succs@[j as int]@;
                let ghost vis0 = state_views(visited.states@);
                let ghost next0 = state_views(next@);
                if !visited.contains(&succs[j]) {
                    visited.insert(BoardState(copy_state(&succs[j].0)));
                    next.push(BoardState(copy_state(&succs[j].0)));
                    proof {
                        assert(state_views(visited.states@) =~= vis0.push(x));
                        assert(state_views(next@) =~= next0.push(x));
                        assert forall|t: Seq<(i32, i32)>|
                            state_views(visited.states@).contains(t) <==> (reach_within(width, height, vs, s0, t, depth as nat)
                                || (exists|k: int| 0 <= k < fi && #[trigger] step(width, height, vs, fr[k], t))
                                || exists|m: int| 0 <= m < j + 1 && (#[trigger] succs@[m])@ == t) by {
                            lemma_push_contains(vis0, x, t);
                            if exists|m: int| 0 <= m < j + 1 && (#[trigger] succs@[m])@ == t {
                                let m = choose|m: int| 0 <= m < j + 1 && (#[trigger] succs@[m])@ == t;
                                if m < j {
                                    assert(exists|m: int| 0 <= m < j && (#[trigger] succs@[m])@ == t);
                                }
                            }
                        }
                        assert forall|t: Seq<(i32, i32)>|
                            state_views(next@).contains(t) <==> (state_views(visited.states@).contains(t)
                                && !reach_within(width, height, vs, s0, t, depth as nat)) by {
                            lemma_push_contains(vis0, x, t);
                            lemma_push_contains(next0, x, t);
                        }
                    }
                } else {
                    proof {
                        assert forall|t: Seq<(i32, i32)>|
                            state_views(visited.states@).contains(t) <==> (reach_within(width, height, vs, s0, t, depth as nat)
                                || (exists|k: int| 0 <= k < fi && #[trigger] step(width, height, vs, fr[k], t))
                                || exists|m: int| 0 <= m < j + 1 && (#[trigger] succs@[m])@ == t) by {
                            if exists|m: int| 0 <= m < j + 1 && (#[trigger] succs@[m])@ == t {
                                let m = choose|m: int| 0 <= m < j + 1 && (#[trigger] succs@[m])@ == t;
                                if m < j {
                                    assert(exists|m: int| 0 <= m < j && (#[trigger] succs@[m])@ == t);
                                }
                            }
                        }
                    }
                }
                j = j + 1;
            }
            proof {
                assert forall|t: Seq<(i32, i32)>|
                    state_views(visited.states@).contains(t) <==> (reach_within(width, height, vs, s0, t, depth as nat)
                        || exists|k: int| 0 <= k < fi + 1 && #[trigger] step(width, height, vs, fr[k], t)) by {
                    if exists|m: int| 0 <= m < succs@.len() && (#[trigger] succs@[m])@ == t {
                        let m = choose|m: int| 0 <= m < succs@.len() && (#[trigger] succs@[m])@ == t;
                        assert(state_views(succs@)[m] == t);
                        assert(state_views(succs@).contains(t));
                        assert(step(width, height, vs, fr[fi as int], t));
                    }
                    if step(width, height, vs, fr[fi as int], t) {
                        assert(state_views(succs@).contains(t));
                        let m = choose|m: int| 0 <= m < state_views(succs@).len() && state_views(succs@)[m] == t;
                        assert(succs@[m]@ == t);
                    }
                    if exists|k: int| 0 <= k < fi + 1 && #[trigger] step(width, height, vs, fr[k], t) {
                        let k = choose|k: int| 0 <= k < fi + 1 && #[trigger] step(width, height, vs, fr[k], t);
                        if k < fi {
                            assert(exists|k: int| 0 <= k < fi && #[trigger] step(width, height, vs, fr[k], t));
                        }
                    }
                }
            }
            fi = fi + 1;
        }
        proof {
            assert forall|k: int| 0 <= k < fr.len() implies reach_within(width, height, vs, s0, #[trigger] fr[k], depth as nat) by {
                assert(fr[k] == frontier@[k]@);
            }
            assert forall|u: Seq<(i32, i32)>|
                #[trigger] reach_within(width, height, vs, s0, u, depth as nat) && (depth == 0
                    || !reach_within(width, height, vs, s0, u, (depth - 1) as nat)) implies fr.contains(u) by {
            }
            assert forall|t: Seq<(i32, i32)>|
                state_views(visited.states@).contains(t) <==> reach_within(width, height, vs, s0, t, (depth + 1) as nat) by {
                lemma_next_level(width, height, vs, s0, fr, depth as nat, t);
            }
            assert forall|k: int| 0 <= k < next@.len() implies reach_within(
                width,
                height,
                vs,
                s0,
                (#[trigger] next@[k])@,
                (depth + 1) as nat,
            ) by {
                assert(state_views(next@)[k] == next@[k]@);
                assert(state_views(next@).contains(next@[k]@));
            }
            assert forall|t: Seq<(i32, i32)>|
                #[trigger] reach_within(width, height, vs, s0, t, (depth + 1) as nat) && (depth + 1 == 0
                    || !reach_within(width, height, vs, s0, t, depth as nat)) implies state_views(next@).contains(t) by {
            }
        }
        frontier = next;
        depth = depth + 1;
    }
}

} // verus!
