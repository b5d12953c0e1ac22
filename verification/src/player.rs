//! The player ship: a position on the bottom row, input-driven horizontal
//! movement clamped to the board, and at most one shot in flight at a time.
//! All movement is delta-time scaled through millisecond countdowns, so
//! behaviour is frame-rate independent.

use vstd::prelude::*;

use crate::frame::{grid_set, Frame, NUM_COLS, NUM_ROWS};
use crate::invaders::{FleetModel, Invader, InvaderFleet};

verus! {

/// Milliseconds between two upward steps of a shot in flight.
pub const SHOT_STEP_MS: u64 = 50;

/// Glyph the ship is drawn with.
pub const PLAYER_GLYPH: char = 'A';
/// Glyph a shot in flight is drawn with.
pub const SHOT_GLYPH: char = '|';

/// Milliseconds left on a countdown after `delta` more have passed.
pub open spec fn countdown(left: u64, delta: u64) -> u64 {
    if delta >= left {
        0
    } else {
        (left - delta) as u64
    }
}

/// The player's shot: a position and the countdown until its next upward
/// step.
#[derive(Clone, Copy, PartialEq, Eq, Structural, Debug)]
pub struct Shot {
    pub x: usize,
    pub y: usize,
    pub time_left: u64,
}

/// The player ship. `y` is the fixed baseline, the bottom row of the board.
#[derive(Clone, Copy, PartialEq, Eq, Structural, Debug)]
pub struct Player {
    pub width: usize,
    pub height: usize,
    pub x: usize,
    pub y: usize,
    pub shot: Option<Shot>,
}

impl Player {
    /// The ship sits on the bottom row, within the board, and any shot in
    /// flight is within the board with a live countdown.
    pub open spec fn wf(&self) -> bool {
        &&& 0 < self.width
        &&& 0 < self.height
        &&& self.x < self.width
        &&& self.y == self.height - 1
        &&& match self.shot {
            Some(s) => s.x < self.width && s.y < self.height && 0 < s.time_left <= SHOT_STEP_MS,
            None => true,
        }
    }
}

/// One step left, saturating at the left boundary.
pub open spec fn move_left_spec(p: Player) -> Player {
    if p.x >= 1 {
        Player { x: (p.x - 1) as usize, ..p }
    } else {
        p
    }
}

/// One step right, saturating at the right boundary.
pub open spec fn move_right_spec(p: Player) -> Player {
    if p.x + 1 < p.width {
        Player { x: (p.x + 1) as usize, ..p }
    } else {
        p
    }
}

/// A shot may be fired exactly when none is in flight.
pub open spec fn can_shoot(p: Player) -> bool {
    p.shot is None
}

/// Firing spawns a shot at the ship's position; with one already in
/// flight it is a no-op.
pub open spec fn shoot_spec(p: Player) -> Player {
    if can_shoot(p) {
        Player { shot: Some(Shot { x: p.x, y: p.y, time_left: SHOT_STEP_MS }), ..p }
    } else {
        p
    }
}

/// Advance the shot by `delta` milliseconds: when its countdown runs out it
/// moves up one row, or is removed once it would pass the top boundary.
pub open spec fn player_update_spec(p: Player, delta: u64) -> Player {
    match p.shot {
        None => p,
        Some(s) => {
            let t = countdown(s.time_left, delta);
            if t > 0 {
                Player { shot: Some(Shot { time_left: t, ..s }), ..p }
            } else if s.y >= 1 {
                Player { shot: Some(Shot { x: s.x, y: (s.y - 1) as usize, time_left: SHOT_STEP_MS }), ..p }
            } else {
                Player { shot: None, ..p }
            }
        },
    }
}

/// The grid after the player has drawn itself: the ship's glyph at its
/// position, then the shot's glyph if one is in flight.
pub open spec fn draw_player_spec(grid: Seq<Seq<char>>, p: Player, w: int, h: int) -> Seq<Seq<char>> {
    let with_ship = grid_set(grid, w, h, p.x as int, p.y as int, PLAYER_GLYPH);
    match p.shot {
        Some(s) => grid_set(with_ship, w, h, s.x as int, s.y as int, SHOT_GLYPH),
        None => with_ship,
    }
}

/// Firing always leaves a shot in flight, so an immediate second call
/// cannot succeed: fire is rate-limited to one projectile.
pub proof fn lemma_shoot_rate_limit(p: Player)
    ensures
        !can_shoot(shoot_spec(p)),
{
}

/// The index of the first invader standing exactly at (x, y), if any.
pub open spec fn first_match(army: Seq<Invader>, x: usize, y: usize) -> Option<int>
    decreases army.len(),
{
    if army.len() == 0 {
        None
    } else if army[0].x == x && army[0].y == y {
        Some(0)
    } else {
        match first_match(army.drop_first(), x, y) {
            None => None,
            Some(i) => Some(i + 1),
        }
    }
}

/// `first_match` finds exactly the first coordinate match: `None` iff no
/// invader stands at (x, y), and otherwise the least matching index.
pub proof fn lemma_first_match_props(army: Seq<Invader>, x: usize, y: usize)
    ensures
        match first_match(army, x, y) {
            None => forall|i: int|
                0 <= i < army.len() ==> !((#[trigger] army[i]).x == x && army[i].y == y),
            Some(j) => 0 <= j < army.len() && army[j].x == x && army[j].y == y && forall|k: int|
                0 <= k < j ==> !((#[trigger] army[k]).x == x && army[k].y == y),
        },
    decreases army.len(),
{
    if army.len() == 0 {
    } else if army[0].x == x && army[0].y == y {
    } else {
        lemma_first_match_props(army.drop_first(), x, y);
        assert forall|i: int| 1 <= i < army.len() implies (#[trigger] army[i])
            == army.drop_first()[i - 1] by {
            assert(army.drop_first()[i - 1] == army[i]);
        }
        match first_match(army.drop_first(), x, y) {
            None => {
                assert forall|i: int|
                    0 <= i < army.len() implies !((#[trigger] army[i]).x == x && army[i].y
                    == y) by {
                    if i >= 1 {
                        assert(army[i] == army.drop_first()[i - 1]);
                    }
                }
            },
            Some(j) => {
                assert(army[j + 1] == army.drop_first()[j]);
                assert forall|k: int|
                    0 <= k < j + 1 implies !((#[trigger] army[k]).x == x && army[k].y == y) by {
                    if k >= 1 {
                        assert(army[k] == army.drop_first()[k - 1]);
                    }
                }
            },
        }
    }
}

/// Collision detection: the shot against every live invader. On an exact
/// coordinate match the shot and the first matched invader are both
/// removed; otherwise — and in particular whenever no shot coordinate
/// matches any live invader coordinate — nothing at all is changed.
pub open spec fn detect_hits_spec(p: Player, f: FleetModel) -> (Player, FleetModel, bool) {
    match p.shot {
        None => (p, f, false),
        Some(s) => match first_match(f.army, s.x, s.y) {
            None => (p, f, false),
            Some(j) => (
                Player { shot: None, ..p },
                FleetModel { army: f.army.remove(j), ..f },
                true,
            ),
        },
    }
}

/// A hit removes exactly one invader, and a miss removes none: collision
/// detection can only ever shrink the fleet.
pub proof fn lemma_hits_only_shrink(p: Player, f: FleetModel)
    ensures
        detect_hits_spec(p, f).2 ==> detect_hits_spec(p, f).1.army.len() == f.army.len() - 1,
        !detect_hits_spec(p, f).2 ==> detect_hits_spec(p, f).1.army == f.army,
{
    match p.shot {
        None => {},
        Some(s) => {
            lemma_first_match_props(f.army, s.x, s.y);
            match first_match(f.army, s.x, s.y) {
                None => {},
                Some(j) => {
                    f.army.remove_ensures(j);
                },
            }
        },
    }
}

/// When no live invader stands at the shot's coordinate — in particular
/// when no shot is in flight — collision detection removes nothing and
/// changes nothing.
pub proof fn lemma_no_match_no_removal(p: Player, f: FleetModel)
    requires
        forall|i: int|
            0 <= i < f.army.len() ==> !(p.shot matches Some(s) && (#[trigger] f.army[i]).x == s.x
                && f.army[i].y == s.y),
    ensures
        detect_hits_spec(p, f).0 == p,
        detect_hits_spec(p, f).1 == f,
        !detect_hits_spec(p, f).2,
{
    match p.shot {
        None => {},
        Some(s) => {
            lemma_first_match_props(f.army, s.x, s.y);
            match first_match(f.army, s.x, s.y) {
                None => {},
                Some(j) => {
                    assert(!(f.army[j].x == s.x && f.army[j].y == s.y));
                    assert(false);
                },
            }
        },
    }
}

impl Player {
    /// A ship centred on the bottom row of a board of the given dimensions.
    pub fn with_board(width: usize, height: usize) -> (p: Player)
        requires
            0 < width,
            0 < height,
        ensures
            p.wf(),
            p.width == width,
            p.height == height,
            p.x == width / 2,
            p.y == height - 1,
            p.shot is None,
    {
        Player { width, height, x: width / 2, y: height - 1, shot: None }
    }

    /// A ship centred on the bottom row of the default board.
    pub fn new() -> (p: Player)
        ensures
            p.wf(),
            p.width == NUM_COLS,
            p.height == NUM_ROWS,
            p.x == NUM_COLS / 2,
            p.y == NUM_ROWS - 1,
            p.shot is None,
    {
        Player::with_board(NUM_COLS, NUM_ROWS)
    }

    /// Shift one column left; a move at the boundary saturates, it never
    /// wraps and never errors.
    pub fn move_left(&mut self)
        requires
            old(self).wf(),
        ensures
            final(self).wf(),
            *final(self) == move_left_spec(*old(self)),
    {
        if self.x >= 1 {
            self.x = self.x - 1;
        }
    }

    /// Shift one column right; a move at the boundary saturates, it never
    /// wraps and never errors.
    pub fn move_right(&mut self)
        requires
            old(self).wf(),
        ensures
            final(self).wf(),
            *final(self) == move_right_spec(*old(self)),
    {
        if self.x + 1 < self.width {
            self.x = self.x + 1;
        }
    }

    /// Fire if no shot is in flight. Returns whether a shot was spawned;
    /// a call while one is in flight is a no-op returning false.
    pub fn shoot(&mut self) -> (fired: bool)
        requires
            old(self).wf(),
        ensures
            final(self).wf(),
            fired == can_shoot(*old(self)),
            *final(self) == shoot_spec(*old(self)),
    {
        match self.shot {
            None => {
                self.shot = Some(Shot { x: self.x, y: self.y, time_left: SHOT_STEP_MS });
                true
            },
            Some(_) => false,
        }
    }

    /// Advance the in-flight shot by the elapsed milliseconds; the shot is
    /// removed once it passes the top boundary.
    pub fn update(&mut self, delta: u64)
        requires
            old(self).wf(),
        ensures
            final(self).wf(),
            *final(self) == player_update_spec(*old(self), delta),
    {
        match self.shot {
            None => {},
            Some(s) => {
                if delta >= s.time_left {
                    if s.y >= 1 {
                        self.shot = Some(
                            Shot { x: s.x, y: s.y - 1, time_left: SHOT_STEP_MS },
                        );
                    } else {
                        self.shot = None;
                    }
                } else {
                    self.shot = Some(Shot { time_left: s.time_left - delta, ..s });
                }
            },
        }
    }

    /// Check the in-flight shot against every live invader. On an exact
    /// coordinate match, remove both the shot and that invader and return
    /// true; otherwise return false with no mutation at all. A call with no
    /// shot in flight is a no-op returning false.
    pub fn detect_hits(&mut self, fleet: &mut InvaderFleet) -> (hit: bool)
        requires
            old(self).wf(),
            old(fleet)@.wf(),
        ensures
            final(self).wf(),
            final(fleet)@.wf(),
            *final(self) == detect_hits_spec(*old(self), old(fleet)@).0,
            final(fleet)@ =~= detect_hits_spec(*old(self), old(fleet)@).1,
            hit == detect_hits_spec(*old(self), old(fleet)@).2,
    {
        let ghost p0 = *self;
        let ghost f0 = fleet@;
        match self.shot {
            None => false,
            Some(s) => {
                let mut i: usize = 0;
                while i < fleet.army.len()
                    invariant
                        p0 == *old(self),
                        f0 == old(fleet)@,
                        p0.wf(),
                        f0.wf(),
                        *self == p0,
                        p0.shot == Some(s),
                        fleet@ == f0,
                        i <= fleet.army@.len(),
                        forall|k: int|
                            0 <= k < i ==> !((#[trigger] fleet.army@[k]).x == s.x
                                && fleet.army@[k].y == s.y),
                    decreases fleet.army@.len() - i,
                {
                    let inv = fleet.army[i];
                    if inv.x == s.x && inv.y == s.y {
                        proof {
                            lemma_first_match_props(f0.army, s.x, s.y);
                            assert(f0.army[i as int].x == s.x && f0.army[i as int].y == s.y);
                            match first_match(f0.army, s.x, s.y) {
                                None => {
                                    assert(false);
                                },
                                Some(j) => {
                                    if j < i {
                                        assert(!((f0.army[j]).x == s.x && f0.army[j].y == s.y));
                                        assert(false);
                                    }
                                    if j > i {
                                        assert(!((f0.army[i as int]).x == s.x && f0.army[
                                            i as int
                                        ].y == s.y));
                                        assert(false);
                                    }
                                },
                            }
                            assert(first_match(f0.army, s.x, s.y) == Some(i as int));
                        }
                        fleet.army.remove(i);
                        self.shot = None;
                        proof {
                            f0.army.remove_ensures(i as int);
                            assert(fleet.army@ == f0.army.remove(i as int));
                            assert forall|k: int|
                                0 <= k < fleet.army@.len() implies (#[trigger] fleet.army@[k]).x
                                < fleet.width && fleet.army@[k].y <= fleet.bottom_row by {
                                if k < i {
                                    assert(fleet.army@[k] == f0.army[k]);
                                    assert(f0.army[k].x < f0.width);
                                } else {
                                    assert(fleet.army@[k] == f0.army[k + 1]);
                                    assert(f0.army[k + 1].x < f0.width);
                                }
                            }
                            assert(fleet@ =~= detect_hits_spec(p0, f0).1);
                        }
                        return true;
                    }
                    i = i + 1;
                }
                proof {
                    lemma_first_match_props(f0.army, s.x, s.y);
                    match first_match(f0.army, s.x, s.y) {
                        None => {},
                        Some(j) => {
                            assert(!(f0.army[j].x == s.x && f0.army[j].y == s.y));
                            assert(false);
                        },
                    }
                }
                false
            },
        }
    }

    /// Draw the ship, then the shot, into the frame. Later writes win, so
    /// with the fixed composition order overlap is resolved
    /// last-write-wins.
    pub fn draw(&self, frame: &mut Frame)
        requires
            self.wf(),
            old(frame).wf(),
            old(frame).width == self.width,
            old(frame).height == self.height,
        ensures
            final(frame).wf(),
            final(frame).width == old(frame).width,
            final(frame).height == old(frame).height,
            final(frame)@ == draw_player_spec(
                old(frame)@,
                *self,
                self.width as int,
                self.height as int,
            ),
    {
        frame.set(self.x, self.y, PLAYER_GLYPH);
        match self.shot {
            Some(s) => frame.set(s.x, s.y, SHOT_GLYPH),
            None => {},
        }
    }
}

} // verus!
