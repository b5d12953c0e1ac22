//! The game loop's decision core. One tick: dispatch the drained input
//! events in order, advance the player and the fleet by the elapsed time,
//! run collision detection, decide win/lose, and — while the game is still
//! running — compose the frame to hand to the renderer. The surrounding
//! binary only polls the keyboard, plays the returned cues, sends the
//! returned frame, and sleeps.

use vstd::prelude::*;

use crate::audio::AudioActions;
use crate::frame::{blank_grid, Frame, NUM_COLS, NUM_ROWS};
use crate::invaders::{
    default_formation, draw_army_spec, fleet_steps, fleet_update_spec, FleetModel, InvaderFleet,
    FLEET_STEP_MS,
};
use crate::player::{
    can_shoot, detect_hits_spec, draw_player_spec, move_left_spec, move_right_spec,
    player_update_spec, shoot_spec, Player,
};

verus! {

/// The loop's state: it runs until it reaches one of three terminal
/// outcomes, each of which ends the run immediately.
#[derive(Clone, Copy, PartialEq, Eq, Structural, Debug)]
pub enum Status {
    Running,
    Quit,
    Win,
    Lose,
}

/// One dispatched keyboard event, as the binary hands it in.
#[derive(Clone, Copy, PartialEq, Eq, Structural, Debug)]
pub enum InputEvent {
    Left,
    Right,
    Fire,
    Quit,
}

/// The mathematical model of a game in progress.
#[verifier::ext_equal]
pub struct GameModel {
    pub player: Player,
    pub fleet: FleetModel,
    pub status: Status,
}

impl GameModel {
    /// Player and fleet are each well formed, agree on the board width,
    /// and the fleet's bottom threshold lies on the board.
    pub open spec fn wf(&self) -> bool {
        &&& self.player.wf()
        &&& self.fleet.wf()
        &&& self.fleet.width == self.player.width
        &&& self.fleet.bottom_row < self.player.height
    }
}

/// Dispatch one input event: moves shift the player, fire spawns a shot,
/// quit ends the run at once. Events reaching a finished game do nothing.
pub open spec fn apply_event(m: GameModel, e: InputEvent) -> GameModel {
    if !(m.status is Running) {
        m
    } else {
        match e {
            InputEvent::Left => GameModel { player: move_left_spec(m.player), ..m },
            InputEvent::Right => GameModel { player: move_right_spec(m.player), ..m },
            InputEvent::Fire => GameModel { player: shoot_spec(m.player), ..m },
            InputEvent::Quit => GameModel { status: Status::Quit, ..m },
        }
    }
}

/// The sound cues one event triggers: a pew for a successful shot, the
/// lose cue on quit.
pub open spec fn event_cues(m: GameModel, e: InputEvent) -> Seq<AudioActions> {
    if !(m.status is Running) {
        Seq::empty()
    } else {
        match e {
            InputEvent::Fire => if can_shoot(m.player) {
                seq![AudioActions::Pew]
            } else {
                Seq::empty()
            },
            InputEvent::Quit => seq![AudioActions::Lose],
            _ => Seq::empty(),
        }
    }
}

/// Dispatch a whole drained batch of input events, in order.
pub open spec fn apply_events(m: GameModel, events: Seq<InputEvent>) -> GameModel
    decreases events.len(),
{
    if events.len() == 0 {
        m
    } else {
        apply_events(apply_event(m, events[0]), events.drop_first())
    }
}

/// The cues a whole batch of events triggers, in dispatch order.
pub open spec fn events_cues(m: GameModel, events: Seq<InputEvent>) -> Seq<AudioActions>
    decreases events.len(),
{
    if events.len() == 0 {
        Seq::empty()
    } else {
        event_cues(m, events[0]) + events_cues(apply_event(m, events[0]), events.drop_first())
    }
}

/// Event dispatch peels off the last event: the batch then one more equals
/// the batch followed by that event.
pub proof fn lemma_apply_events_snoc(m: GameModel, s: Seq<InputEvent>, e: InputEvent)
    ensures
        apply_events(m, s.push(e)) == apply_event(apply_events(m, s), e),
        events_cues(m, s.push(e)) =~= events_cues(m, s) + event_cues(apply_events(m, s), e),
    decreases s.len(),
{
    if s.len() == 0 {
        assert(s.push(e)[0] == e);
        assert(s.push(e).drop_first() =~= Seq::<InputEvent>::empty());
        assert(apply_events(m, s.push(e)) == apply_events(apply_event(m, e), s.push(
            e,
        ).drop_first()));
        assert(apply_events(apply_event(m, e), s.push(e).drop_first()) == apply_event(m, e));
        assert(events_cues(m, s.push(e)) =~= event_cues(m, e) + events_cues(
            apply_event(m, e),
            s.push(e).drop_first(),
        ));
        assert(events_cues(apply_event(m, e), s.push(e).drop_first())
            =~= Seq::<AudioActions>::empty());
        assert(event_cues(m, e) + Seq::<AudioActions>::empty() =~= event_cues(m, e));
        assert(events_cues(m, s) + event_cues(m, e) =~= event_cues(m, e));
    } else {
        let m1 = apply_event(m, s[0]);
        lemma_apply_events_snoc(m1, s.drop_first(), e);
        assert(s.push(e)[0] == s[0]);
        assert(s.push(e).drop_first() =~= s.drop_first().push(e));
        assert(apply_events(m, s.push(e)) == apply_events(m1, s.drop_first().push(e)));
        assert(apply_events(m, s) == apply_events(m1, s.drop_first()));
        assert(events_cues(m, s.push(e)) =~= event_cues(m, s[0]) + events_cues(
            m1,
            s.drop_first().push(e),
        ));
        assert(events_cues(m, s) =~= event_cues(m, s[0]) + events_cues(m1, s.drop_first()));
        assert(event_cues(m, s[0]) + (events_cues(m1, s.drop_first()) + event_cues(
            apply_events(m1, s.drop_first()),
            e,
        )) =~= (event_cues(m, s[0]) + events_cues(m1, s.drop_first())) + event_cues(
            apply_events(m1, s.drop_first()),
            e,
        ));
    }
}

/// For every sequence of input events the player stays well formed: its
/// position never leaves [0, width − 1], however many moves run past the
/// boundary, since each single move saturates there.
pub proof fn lemma_moves_stay_in_bounds(m: GameModel, events: Seq<InputEvent>)
    requires
        m.wf(),
    ensures
        apply_events(m, events).wf(),
        apply_events(m, events).player.width == m.player.width,
        apply_events(m, events).player.x < m.player.width,
    decreases events.len(),
{
    if events.len() == 0 {
    } else {
        assert(apply_event(m, events[0]).wf());
        lemma_moves_stay_in_bounds(apply_event(m, events[0]), events.drop_first());
    }
}

/// Events reaching a finished game change nothing and play nothing.
pub proof fn lemma_apply_events_terminal(m: GameModel, events: Seq<InputEvent>)
    requires
        !(m.status is Running),
    ensures
        apply_events(m, events) == m,
        events_cues(m, events) =~= Seq::<AudioActions>::empty(),
    decreases events.len(),
{
    if events.len() == 0 {
    } else {
        lemma_apply_events_terminal(m, events.drop_first());
        assert(Seq::<AudioActions>::empty() + Seq::<AudioActions>::empty()
            =~= Seq::<AudioActions>::empty());
    }
}

/// One whole tick of the simulation: dispatch the events, and — if the game
/// still runs — update player and fleet by the elapsed time, resolve hits,
/// and decide the outcome, wins before losses.
pub open spec fn tick_spec(m: GameModel, events: Seq<InputEvent>, delta: u64) -> GameModel {
    let m1 = apply_events(m, events);
    if !(m1.status is Running) {
        m1
    } else {
        let p2 = player_update_spec(m1.player, delta);
        let f2 = fleet_update_spec(m1.fleet, delta);
        let p3 = detect_hits_spec(p2, f2).0;
        let f3 = detect_hits_spec(p2, f2).1;
        let status = if f3.all_killed() {
            Status::Win
        } else if f3.reached_bottom() {
            Status::Lose
        } else {
            Status::Running
        };
        GameModel { player: p3, fleet: f3, status }
    }
}

/// Every cue one tick plays, in order: the event cues, then the movement
/// cue if the fleet stepped, the explosion on a hit, and the win or lose
/// cue when the tick ends the game.
pub open spec fn tick_cues_spec(m: GameModel, events: Seq<InputEvent>, delta: u64) -> Seq<
    AudioActions,
> {
    let base = events_cues(m, events);
    let m1 = apply_events(m, events);
    if !(m1.status is Running) {
        base
    } else {
        let p2 = player_update_spec(m1.player, delta);
        let f2 = fleet_update_spec(m1.fleet, delta);
        let hit = detect_hits_spec(p2, f2).2;
        let f3 = detect_hits_spec(p2, f2).1;
        let with_move = if fleet_steps(m1.fleet, delta) {
            base.push(AudioActions::Move)
        } else {
            base
        };
        let with_explode = if hit {
            with_move.push(AudioActions::Explode)
        } else {
            with_move
        };
        if f3.all_killed() {
            with_explode.push(AudioActions::Win)
        } else if f3.reached_bottom() {
            with_explode.push(AudioActions::Lose)
        } else {
            with_explode
        }
    }
}

/// A finished game is absorbing: no tick, whatever its events and elapsed
/// time, changes it or plays a cue. In particular a run that ended because
/// the fleet reached the bottom stays ended.
pub proof fn lemma_terminal_absorbing(m: GameModel, events: Seq<InputEvent>, delta: u64)
    requires
        !(m.status is Running),
    ensures
        tick_spec(m, events, delta) == m,
        tick_cues_spec(m, events, delta) =~= Seq::<AudioActions>::empty(),
{
    lemma_apply_events_terminal(m, events);
}

/// The frame one tick shows: a blank grid, the player drawn into it, then
/// the fleet — a fixed composition order, so overlaps resolve
/// last-write-wins.
pub open spec fn compose_frame_spec(p: Player, f: FleetModel) -> Seq<Seq<char>> {
    draw_army_spec(
        draw_player_spec(blank_grid(p.width as int, p.height as int), p, p.width as int, p.height as int),
        f.army,
        p.width as int,
        p.height as int,
    )
}

/// What one tick hands back to the binary: the cues to play and, while the
/// game still runs, the freshly composed frame for the renderer.
pub struct TickOutput {
    pub cues: Vec<AudioActions>,
    pub frame: Option<Frame>,
}

/// The orchestrator: owns the player, the fleet and the run's status.
pub struct Game {
    pub player: Player,
    pub fleet: InvaderFleet,
    pub status: Status,
}

impl View for Game {
    type V = GameModel;

    open spec fn view(&self) -> GameModel {
        GameModel { player: self.player, fleet: self.fleet@, status: self.status }
    }
}

impl Game {
    /// A fresh default game: full formation, centred player, running.
    pub fn new() -> (g: Game)
        ensures
            g@.wf(),
            g@.status is Running,
            g@.player.width == NUM_COLS,
            g@.player.height == NUM_ROWS,
            g@.player.x == NUM_COLS / 2,
            g@.player.shot is None,
            g@.fleet.width == NUM_COLS,
            g@.fleet.bottom_row == NUM_ROWS - 1,
            g@.fleet.interval == FLEET_STEP_MS,
            g@.fleet.time_left == FLEET_STEP_MS,
            default_formation(g@.fleet.army),
            !g@.fleet.all_killed(),
            !g@.fleet.reached_bottom(),
    {
        let player = Player::new();
        let fleet = InvaderFleet::new();
        proof {
            assert forall|i: int| 0 <= i < fleet@.army.len() implies (#[trigger] fleet@.army[
                i
            ]).y < fleet@.bottom_row by {
                assert(crate::invaders::in_formation(
                    fleet@.army[i].x as int,
                    fleet@.army[i].y as int,
                ));
            }
        }
        Game { player, fleet, status: Status::Running }
    }

    /// A game assembled from explicit parts, for boards of any size.
    pub fn from_parts(player: Player, fleet: InvaderFleet) -> (g: Game)
        requires
            player.wf(),
            fleet@.wf(),
            fleet@.width == player.width,
            fleet@.bottom_row < player.height,
        ensures
            g@.wf(),
            g@ == (GameModel { player, fleet: fleet@, status: Status::Running }),
    {
        Game { player, fleet, status: Status::Running }
    }

    /// Run one tick: dispatch every drained event in order, advance the
    /// simulation by `delta` milliseconds, resolve hits, decide the
    /// outcome, and compose the next frame while the game still runs. The
    /// returned cues are exactly the tick's sound decisions, in order.
    pub fn tick(&mut self, events: &Vec<InputEvent>, delta: u64) -> (out: TickOutput)
        requires
            old(self)@.wf(),
        ensures
            final(self)@.wf(),
            final(self)@ =~= tick_spec(old(self)@, events@, delta),
            out.cues@ =~= tick_cues_spec(old(self)@, events@, delta),
            (final(self)@.status is Running) <==> out.frame is Some,
            out.frame matches Some(f) ==> f.wf() && f.width == old(self)@.player.width
                && f.height == old(self)@.player.height && f@ == compose_frame_spec(
                final(self)@.player,
                final(self)@.fleet,
            ),
    {
        let ghost g0 = self@;
        let mut cues: Vec<AudioActions> = Vec::new();
        let mut k: usize = 0;
        while k < events.len()
            invariant
                g0 == old(self)@,
                g0.wf(),
                k <= events@.len(),
                self@ == apply_events(g0, events@.take(k as int)),
                cues@ == events_cues(g0, events@.take(k as int)),
                self@.wf(),
                self@.player.width == g0.player.width,
                self@.player.height == g0.player.height,
            decreases events@.len() - k,
        {
            let ghost prefix = events@.take(k as int);
            let ghost mk = self@;
            let e = events[k];
            if matches!(self.status, Status::Running) {
                match e {
                    InputEvent::Left => self.player.move_left(),
                    InputEvent::Right => self.player.move_right(),
                    InputEvent::Fire => {
                        if self.player.shoot() {
                            cues.push(AudioActions::Pew);
                        }
                    },
                    InputEvent::Quit => {
                        self.status = Status::Quit;
                        cues.push(AudioActions::Lose);
                    },
                }
            }
            proof {
                lemma_apply_events_snoc(g0, prefix, e);
                assert(prefix.push(e) =~= events@.take(k as int + 1));
                assert(self@ =~= apply_event(mk, e));
                assert(self@ == apply_events(g0, events@.take(k as int + 1)));
                assert(cues@ =~= events_cues(g0, prefix) + event_cues(mk, e));
                assert(cues@ == events_cues(g0, events@.take(k as int + 1)));
            }
            k = k + 1;
        }
        proof {
            assert(events@.take(events@.len() as int) =~= events@);
        }
        let ghost m1 = self@;
        if matches!(self.status, Status::Running) {
            self.player.update(delta);
            let stepped = self.fleet.update(delta);
            if stepped {
                cues.push(AudioActions::Move);
            }
            let hit = self.player.detect_hits(&mut self.fleet);
            if hit {
                cues.push(AudioActions::Explode);
            }
            if self.fleet.all_killed() {
                self.status = Status::Win;
                cues.push(AudioActions::Win);
                proof {
                    assert(self@ =~= tick_spec(g0, events@, delta));
                    assert(cues@ =~= tick_cues_spec(g0, events@, delta));
                }
                TickOutput { cues, frame: None }
            } else if self.fleet.reached_bottom() {
                self.status = Status::Lose;
                cues.push(AudioActions::Lose);
                proof {
                    assert(self@ =~= tick_spec(g0, events@, delta));
                    assert(cues@ =~= tick_cues_spec(g0, events@, delta));
                }
                TickOutput { cues, frame: None }
            } else {
                let mut frame = Frame::new(self.player.width, self.player.height);
                self.player.draw(&mut frame);
                self.fleet.draw(&mut frame);
                proof {
                    assert(self@ =~= tick_spec(g0, events@, delta));
                    assert(cues@ =~= tick_cues_spec(g0, events@, delta));
                    assert(frame@ == compose_frame_spec(self@.player, self@.fleet));
                }
                TickOutput { cues, frame: Some(frame) }
            }
        } else {
            proof {
                assert(self@ =~= tick_spec(g0, events@, delta));
                assert(cues@ =~= tick_cues_spec(g0, events@, delta));
            }
            TickOutput { cues, frame: None }
        }
    }
}

} // verus!
