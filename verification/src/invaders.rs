//! The invader formation: a set of live invaders on the board, drifting
//! sideways on a millisecond countdown and dropping one row with a
//! direction reversal whenever the drift would cross a side boundary.
//! Invaders are only ever removed (by hits), never added back.

use vstd::prelude::*;

use crate::frame::{grid_set, Frame, NUM_COLS, NUM_ROWS};
use crate::player::countdown;

verus! {

/// Milliseconds between two formation steps.
pub const FLEET_STEP_MS: u64 = 2000;

/// Glyph an invader is drawn with.
pub const INVADER_GLYPH: char = '+';

/// One live invader's position.
#[derive(Clone, Copy, PartialEq, Eq, Structural, Debug)]
pub struct Invader {
    pub x: usize,
    pub y: usize,
}

/// The formation's collective horizontal direction.
#[derive(Clone, Copy, PartialEq, Eq, Structural, Debug)]
pub enum Direction {
    Left,
    Right,
}

/// The mathematical model of a fleet: what the contracts speak of.
#[verifier::ext_equal]
pub struct FleetModel {
    pub width: usize,
    pub bottom_row: usize,
    pub interval: u64,
    pub time_left: u64,
    pub direction: Direction,
    pub army: Seq<Invader>,
}

impl FleetModel {
    /// Every invader is on the board and at or above the bottom threshold,
    /// and the movement countdown is live.
    pub open spec fn wf(&self) -> bool {
        &&& 0 < self.width
        &&& 0 < self.interval
        &&& 0 < self.time_left <= self.interval
        &&& forall|i: int|
            0 <= i < self.army.len() ==> (#[trigger] self.army[i]).x < self.width
                && self.army[i].y <= self.bottom_row
    }

    /// The next lateral step would cross a side boundary.
    pub open spec fn at_edge(&self) -> bool {
        match self.direction {
            Direction::Left => exists|i: int|
                0 <= i < self.army.len() && (#[trigger] self.army[i]).x == 0,
            Direction::Right => exists|i: int|
                0 <= i < self.army.len() && (#[trigger] self.army[i]).x + 1 == self.width,
        }
    }

    /// No invader is left alive.
    pub open spec fn all_killed(&self) -> bool {
        self.army.len() == 0
    }

    /// Some live invader is at or past the bottom threshold.
    pub open spec fn reached_bottom(&self) -> bool {
        exists|i: int| 0 <= i < self.army.len() && (#[trigger] self.army[i]).y >= self.bottom_row
    }
}

/// An invader one row further down, held at the bottom threshold.
pub open spec fn dropped(inv: Invader, bottom_row: usize) -> Invader {
    if inv.y < bottom_row {
        Invader { x: inv.x, y: (inv.y + 1) as usize }
    } else {
        Invader { x: inv.x, y: bottom_row }
    }
}

/// An invader one column over in the given direction, saturating at the
/// board edges (a step is only taken when no invader is at the edge).
pub open spec fn shifted(inv: Invader, direction: Direction, width: usize) -> Invader {
    match direction {
        Direction::Left => if inv.x >= 1 {
            Invader { x: (inv.x - 1) as usize, y: inv.y }
        } else {
            inv
        },
        Direction::Right => if inv.x + 1 < width {
            Invader { x: (inv.x + 1) as usize, y: inv.y }
        } else {
            inv
        },
    }
}

/// The other direction.
pub open spec fn reversed(direction: Direction) -> Direction {
    match direction {
        Direction::Left => Direction::Right,
        Direction::Right => Direction::Left,
    }
}

/// One formation step: a lateral shift in the current direction, or — when
/// that would cross a side boundary — a one-row drop with a direction
/// reversal. Either way the countdown restarts.
pub open spec fn fleet_step_spec(m: FleetModel) -> FleetModel {
    if m.at_edge() {
        FleetModel {
            army: m.army.map(|i: int, inv: Invader| dropped(inv, m.bottom_row)),
            direction: reversed(m.direction),
            time_left: m.interval,
            ..m
        }
    } else {
        FleetModel {
            army: m.army.map(|i: int, inv: Invader| shifted(inv, m.direction, m.width)),
            time_left: m.interval,
            ..m
        }
    }
}

/// Whether `delta` more milliseconds make the movement countdown run out.
pub open spec fn fleet_steps(m: FleetModel, delta: u64) -> bool {
    delta >= m.time_left
}

/// Advance the fleet by `delta` milliseconds: take a formation step when
/// the countdown runs out, otherwise just let it tick down.
pub open spec fn fleet_update_spec(m: FleetModel, delta: u64) -> FleetModel {
    if fleet_steps(m, delta) {
        fleet_step_spec(m)
    } else {
        FleetModel { time_left: countdown(m.time_left, delta), ..m }
    }
}

/// Once some invader is at or past the bottom threshold, no amount of
/// further fleet movement brings it back: `reached_bottom` is monotonic
/// over updates for the rest of the run.
pub proof fn lemma_reached_bottom_monotonic(m: FleetModel, delta: u64)
    ensures
        m.reached_bottom() ==> fleet_update_spec(m, delta).reached_bottom(),
{
    if m.reached_bottom() {
        let i = choose|i: int|
            0 <= i < m.army.len() && (#[trigger] m.army[i]).y >= m.bottom_row;
        let m2 = fleet_update_spec(m, delta);
        if fleet_steps(m, delta) {
            if m.at_edge() {
                assert(m2.army[i] == dropped(m.army[i], m.bottom_row));
                assert(m2.army[i].y >= m2.bottom_row);
            } else {
                assert(m2.army[i] == shifted(m.army[i], m.direction, m.width));
                assert(m2.army[i].y >= m2.bottom_row);
            }
        } else {
            assert(m2.army[i].y >= m2.bottom_row);
        }
    }
}

/// Fleet movement never changes the number of live invaders: only hits
/// do, so the fleet can only ever shrink.
pub proof fn lemma_fleet_update_keeps_count(m: FleetModel, delta: u64)
    ensures
        fleet_update_spec(m, delta).army.len() == m.army.len(),
{
}

/// The grid after the whole formation has drawn itself, one invader at a
/// time in army order.
pub open spec fn draw_army_spec(grid: Seq<Seq<char>>, army: Seq<Invader>, w: int, h: int) -> Seq<
    Seq<char>,
>
    decreases army.len(),
{
    if army.len() == 0 {
        grid
    } else {
        grid_set(
            draw_army_spec(grid, army.drop_last(), w, h),
            w,
            h,
            army.last().x as int,
            army.last().y as int,
            INVADER_GLYPH,
        )
    }
}

/// Whether the default full formation has an invader at (x, y): a
/// rectangular block at fixed spacing, clear of the side columns and of
/// the lower half of the board.
pub open spec fn in_formation(x: int, y: int) -> bool {
    &&& 1 < x < NUM_COLS - 2
    &&& 0 < y < 9
    &&& x % 2 == 0
    &&& y % 2 == 0
}

/// The army is exactly the default full formation, enumerated
/// column-major: every listed invader is a formation cell, every formation
/// cell is listed, and the strictly ascending order lists none twice.
pub open spec fn default_formation(army: Seq<Invader>) -> bool {
    &&& forall|i: int|
        0 <= i < army.len() ==> in_formation((#[trigger] army[i]).x as int, army[i].y as int)
    &&& forall|x: int, y: int| in_formation(x, y) ==> #[trigger] contains_invader(army, x, y)
    &&& forall|i: int, j: int|
        #![trigger army[i], army[j]]
        0 <= i < j < army.len() ==> (army[i].x < army[j].x || (army[i].x == army[j].x
            && army[i].y < army[j].y))
}

/// The formation of enemies. See [`FleetModel`] for the model the
/// contracts are stated over.
pub struct InvaderFleet {
    pub width: usize,
    pub bottom_row: usize,
    pub interval: u64,
    pub time_left: u64,
    pub direction: Direction,
    pub army: Vec<Invader>,
}

impl View for InvaderFleet {
    type V = FleetModel;

    open spec fn view(&self) -> FleetModel {
        FleetModel {
            width: self.width,
            bottom_row: self.bottom_row,
            interval: self.interval,
            time_left: self.time_left,
            direction: self.direction,
            army: self.army@,
        }
    }
}

impl InvaderFleet {
    /// A fleet built from explicit parts; the countdown starts at a full
    /// interval and the formation drifts rightward first.
    pub fn from_parts(
        width: usize,
        bottom_row: usize,
        interval: u64,
        army: Vec<Invader>,
    ) -> (fleet: InvaderFleet)
        requires
            0 < width,
            0 < interval,
            forall|i: int|
                0 <= i < army@.len() ==> (#[trigger] army@[i]).x < width && army@[i].y
                    <= bottom_row,
        ensures
            fleet@.wf(),
            fleet@ == (FleetModel {
                width,
                bottom_row,
                interval,
                time_left: interval,
                direction: Direction::Right,
                army: army@,
            }),
    {
        InvaderFleet {
            width,
            bottom_row,
            interval,
            time_left: interval,
            direction: Direction::Right,
            army,
        }
    }

    /// The full rectangular starting formation on the default board,
    /// enumerated column-major: exactly the cells of [`in_formation`],
    /// each exactly once, in strictly ascending column-major order.
    pub fn new() -> (fleet: InvaderFleet)
        ensures
            fleet@.wf(),
            fleet@.width == NUM_COLS,
            fleet@.bottom_row == NUM_ROWS - 1,
            fleet@.interval == FLEET_STEP_MS,
            fleet@.time_left == FLEET_STEP_MS,
            fleet@.direction == Direction::Right,
            default_formation(fleet@.army),
            !fleet@.all_killed(),
    {
        let mut army: Vec<Invader> = Vec::new();
        let mut x: usize = 0;
        while x < NUM_COLS
            invariant
                x <= NUM_COLS,
                forall|i: int|
                    0 <= i < army@.len() ==> in_formation(
                        (#[trigger] army@[i]).x as int,
                        army@[i].y as int,
                    ),
                forall|i: int| 0 <= i < army@.len() ==> (#[trigger] army@[i]).x < x,
                forall|cx: int, cy: int|
                    cx < x && in_formation(cx, cy) ==> #[trigger] contains_invader(army@, cx, cy),
                forall|i: int, j: int|
                    #![trigger army@[i], army@[j]]
                    0 <= i < j < army@.len() ==> (army@[i].x < army@[j].x || (army@[i].x
                        == army@[j].x && army@[i].y < army@[j].y)),
                x >= 3 ==> army@.len() > 0,
            decreases NUM_COLS - x,
        {
            let mut y: usize = 0;
            while y < NUM_ROWS
                invariant
                    x < NUM_COLS,
                    y <= NUM_ROWS,
                    forall|i: int|
                        0 <= i < army@.len() ==> in_formation(
                            (#[trigger] army@[i]).x as int,
                            army@[i].y as int,
                        ),
                    forall|i: int|
                        0 <= i < army@.len() ==> ((#[trigger] army@[i]).x < x || (army@[i].x == x
                            && army@[i].y < y)),
                    forall|cx: int, cy: int|
                        cx < x && in_formation(cx, cy) ==> #[trigger] contains_invader(
                            army@,
                            cx,
                            cy,
                        ),
                    forall|cy: int|
                        cy < y && in_formation(x as int, cy) ==> #[trigger] contains_invader(
                            army@,
                            x as int,
                            cy,
                        ),
                    forall|i: int, j: int|
                        #![trigger army@[i], army@[j]]
                        0 <= i < j < army@.len() ==> (army@[i].x < army@[j].x || (army@[i].x
                            == army@[j].x && army@[i].y < army@[j].y)),
                    x == 2 && y >= 3 ==> army@.len() > 0,
                    x >= 3 ==> army@.len() > 0,
                decreases NUM_ROWS - y,
            {
                if x > 1 && x < NUM_COLS - 2 && y > 0 && y < 9 && x % 2 == 0 && y % 2 == 0 {
                    let ghost before = army@;
                    army.push(Invader { x, y });
                    proof {
                        assert(army@[before.len() as int] == (Invader { x, y }));
                        assert forall|cx: int, cy: int|
                            cx < x && in_formation(cx, cy) implies #[trigger] contains_invader(
                            army@,
                            cx,
                            cy,
                        ) by {
                            assert(contains_invader(before, cx, cy));
                            let i = choose|i: int|
                                0 <= i < before.len() && (#[trigger] before[i]).x == cx
                                    && before[i].y == cy;
                            assert(army@[i].x == cx && army@[i].y == cy);
                        }
                        assert forall|cy: int|
                            cy < y + 1 && in_formation(x as int, cy) implies
                            #[trigger] contains_invader(army@, x as int, cy) by {
                            if cy < y {
                                assert(contains_invader(before, x as int, cy));
                                let i = choose|i: int|
                                    0 <= i < before.len() && (#[trigger] before[i]).x == x as int
                                        && before[i].y == cy;
                                assert(army@[i].x == x as int && army@[i].y == cy);
                            } else {
                                assert(army@[before.len() as int].x == x as int
                                    && army@[before.len() as int].y == cy);
                            }
                        }
                    }
                }
                y = y + 1;
            }
            x = x + 1;
        }
        InvaderFleet::from_parts(NUM_COLS, NUM_ROWS - 1, FLEET_STEP_MS, army)
    }

    /// True iff no invader is left alive.
    pub fn all_killed(&self) -> (r: bool)
        ensures
            r == self@.all_killed(),
    {
        self.army.len() == 0
    }

    /// True iff some live invader is at or past the bottom threshold: the
    /// immediate, unconditional lose trigger.
    pub fn reached_bottom(&self) -> (r: bool)
        ensures
            r == self@.reached_bottom(),
    {
        let mut i: usize = 0;
        while i < self.army.len()
            invariant
                i <= self.army@.len(),
                forall|k: int| 0 <= k < i ==> (#[trigger] self.army@[k]).y < self.bottom_row,
            decreases self.army@.len() - i,
        {
            if self.army[i].y >= self.bottom_row {
                proof {
                    assert(0 <= i < self@.army.len() && self@.army[i as int].y >= self.bottom_row);
                }
                return true;
            }
            i = i + 1;
        }
        false
    }

    /// True iff the next lateral step would cross a side boundary.
    fn at_edge(&self) -> (r: bool)
        requires
            self@.wf(),
        ensures
            r == self@.at_edge(),
    {
        let mut i: usize = 0;
        match self.direction {
            Direction::Left => {
                while i < self.army.len()
                    invariant
                        i <= self.army@.len(),
                        forall|k: int| 0 <= k < i ==> (#[trigger] self.army@[k]).x != 0,
                        self.direction == Direction::Left,
                    decreases self.army@.len() - i,
                {
                    if self.army[i].x == 0 {
                        proof {
                            assert(0 <= i < self@.army.len() && self@.army[i as int].x == 0);
                        }
                        return true;
                    }
                    i = i + 1;
                }
                false
            },
            Direction::Right => {
                while i < self.army.len()
                    invariant
                        self@.wf(),
                        i <= self.army@.len(),
                        forall|k: int| 0 <= k < i ==> (#[trigger] self.army@[k]).x + 1 != self.width,
                        self.direction == Direction::Right,
                    decreases self.army@.len() - i,
                {
                    if self.army[i].x + 1 == self.width {
                        proof {
                            assert(0 <= i < self@.army.len() && self@.army[i as int].x + 1
                                == self.width);
                        }
                        return true;
                    }
                    i = i + 1;
                }
                false
            },
        }
    }

    /// Advance the movement countdown by `delta` milliseconds; when it runs
    /// out, take one formation step (lateral drift, or a row drop with
    /// direction reversal at a side boundary) and restart the countdown.
    /// Returns whether a step occurred this call — the movement-cue
    /// trigger, which thus fires on every step, lateral or drop alike.
    pub fn update(&mut self, delta: u64) -> (stepped: bool)
        requires
            old(self)@.wf(),
        ensures
            final(self)@.wf(),
            stepped == fleet_steps(old(self)@, delta),
            final(self)@ =~= fleet_update_spec(old(self)@, delta),
    {
        if delta >= self.time_left {
            self.time_left = self.interval;
            proof {
                assert(self@.at_edge() == old(self)@.at_edge());
            }
            let edge = self.at_edge();
            if edge {
                self.direction = match self.direction {
                    Direction::Left => Direction::Right,
                    Direction::Right => Direction::Left,
                };
                let ghost before = self.army@;
                let mut i: usize = 0;
                while i < self.army.len()
                    invariant
                        self.width == old(self).width,
                        self.bottom_row == old(self).bottom_row,
                        self.interval == old(self).interval,
                        self.time_left == old(self).interval,
                        self.direction == reversed(old(self)@.direction),
                        before == old(self)@.army,
                        self.army@.len() == before.len(),
                        i <= before.len(),
                        forall|k: int|
                            0 <= k < i ==> self.army@[k] == dropped(
                                #[trigger] before[k],
                                self.bottom_row,
                            ),
                        forall|k: int| i <= k < before.len() ==> self.army@[k] == before[k],
                    decreases before.len() - i,
                {
                    let inv = self.army[i];
                    if inv.y < self.bottom_row {
                        self.army[i] = Invader { x: inv.x, y: inv.y + 1 };
                    } else {
                        self.army[i] = Invader { x: inv.x, y: self.bottom_row };
                    }
                    i = i + 1;
                }
                proof {
                    assert(self.army@ =~= before.map(
                        |k: int, inv: Invader| dropped(inv, old(self)@.bottom_row),
                    ));
                    assert(self@ =~= fleet_update_spec(old(self)@, delta));
                }
            } else {
                let ghost before = self.army@;
                let mut i: usize = 0;
                while i < self.army.len()
                    invariant
                        old(self)@.wf(),
                        self.width == old(self).width,
                        self.bottom_row == old(self).bottom_row,
                        self.interval == old(self).interval,
                        self.time_left == old(self).interval,
                        self.direction == old(self).direction,
                        !old(self)@.at_edge(),
                        self.army@.len() == before.len(),
                        before == old(self)@.army,
                        i <= before.len(),
                        forall|k: int|
                            0 <= k < i ==> self.army@[k] == shifted(
                                #[trigger] before[k],
                                self.direction,
                                self.width,
                            ),
                        forall|k: int| i <= k < before.len() ==> self.army@[k] == before[k],
                    decreases before.len() - i,
                {
                    let inv = self.army[i];
                    proof {
                        assert(inv == old(self)@.army[i as int]);
                    }
                    match self.direction {
                        Direction::Left => {
                            if inv.x >= 1 {
                                self.army[i] = Invader { x: inv.x - 1, y: inv.y };
                            }
                        },
                        Direction::Right => {
                            if inv.x + 1 < self.width {
                                self.army[i] = Invader { x: inv.x + 1, y: inv.y };
                            }
                        },
                    }
                    i = i + 1;
                }
                proof {
                    assert(self.army@ =~= before.map(
                        |k: int, inv: Invader| shifted(inv, old(self)@.direction, old(self)@.width),
                    ));
                    assert(self@ =~= fleet_update_spec(old(self)@, delta));
                }
            }
            true
        } else {
            self.time_left = self.time_left - delta;
            false
        }
    }

    /// Draw every live invader into the frame, in army order.
    pub fn draw(&self, frame: &mut Frame)
        requires
            old(frame).wf(),
        ensures
            final(frame).wf(),
            final(frame).width == old(frame).width,
            final(frame).height == old(frame).height,
            final(frame)@ == draw_army_spec(
                old(frame)@,
                self@.army,
                old(frame).width as int,
                old(frame).height as int,
            ),
    {
        let mut i: usize = 0;
        while i < self.army.len()
            invariant
                frame.wf(),
                frame.width == old(frame).width,
                frame.height == old(frame).height,
                i <= self.army@.len(),
                frame@ == draw_army_spec(
                    old(frame)@,
                    self@.army.take(i as int),
                    old(frame).width as int,
                    old(frame).height as int,
                ),
            decreases self.army@.len() - i,
        {
            let inv = self.army[i];
            frame.set(inv.x, inv.y, INVADER_GLYPH);
            proof {
                let prefix = self@.army.take(i as int + 1);
                assert(prefix.drop_last() =~= self@.army.take(i as int));
                assert(prefix.last() == self@.army[i as int]);
            }
            i = i + 1;
        }
        proof {
            assert(self@.army.take(self.army@.len() as int) =~= self@.army);
        }
    }
}

/// Some invader in the army stands at (x, y).
pub open spec fn contains_invader(army: Seq<Invader>, x: int, y: int) -> bool {
    exists|i: int| 0 <= i < army.len() && (#[trigger] army[i]).x == x && army[i].y == y
}

} // verus!
