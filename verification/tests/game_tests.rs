use invaders::audio::{cue_name, AudioActions};
use invaders::frame::{NUM_COLS, NUM_ROWS};
use invaders::game::{Game, InputEvent, Status};
use invaders::invaders::{Invader, InvaderFleet};
use invaders::player::Player;

fn small_game(invaders: Vec<Invader>, interval: u64) -> Game {
    let player = Player::with_board(10, 10);
    let fleet = InvaderFleet::from_parts(10, 9, interval, invaders);
    Game::from_parts(player, fleet)
}

#[test]
fn quit_ends_the_run_with_the_lose_cue() {
    let mut g = small_game(vec![Invader { x: 2, y: 0 }], 1000);
    let out = g.tick(&vec![InputEvent::Quit], 5);
    assert_eq!(g.status, Status::Quit);
    assert_eq!(out.cues, vec![AudioActions::Lose]);
    assert!(out.frame.is_none());
}

#[test]
fn events_after_quit_in_the_same_batch_are_ignored() {
    let mut g = small_game(vec![Invader { x: 2, y: 0 }], 1000);
    let out = g.tick(&vec![InputEvent::Quit, InputEvent::Fire, InputEvent::Right], 5);
    assert_eq!(g.status, Status::Quit);
    assert_eq!(g.player.x, 5);
    assert!(g.player.shot.is_none());
    assert_eq!(out.cues, vec![AudioActions::Lose]);
}

#[test]
fn a_running_tick_composes_the_frame() {
    let mut g = small_game(vec![Invader { x: 2, y: 0 }], 1000);
    let out = g.tick(&vec![InputEvent::Left, InputEvent::Left], 5);
    assert_eq!(g.status, Status::Running);
    assert_eq!(g.player.x, 3);
    assert!(out.cues.is_empty());
    let frame = out.frame.expect("running game must yield a frame");
    assert_eq!(frame.cells[3][9], 'A');
    assert_eq!(frame.cells[2][0], '+');
    assert_eq!(frame.cells[0][0], ' ');
}

#[test]
fn firing_plays_pew_and_draws_the_shot_over_the_ship() {
    let mut g = small_game(vec![Invader { x: 2, y: 0 }], 1000);
    let out = g.tick(&vec![InputEvent::Fire], 5);
    assert_eq!(out.cues, vec![AudioActions::Pew]);
    let frame = out.frame.expect("running game must yield a frame");
    // the shot spawns on the ship's cell and is drawn after it
    assert_eq!(frame.cells[5][9], '|');
}

#[test]
fn second_fire_in_one_batch_plays_one_pew() {
    let mut g = small_game(vec![Invader { x: 2, y: 0 }], 1000);
    let out = g.tick(&vec![InputEvent::Fire, InputEvent::Fire], 5);
    assert_eq!(out.cues, vec![AudioActions::Pew]);
}

#[test]
fn hitting_the_last_invader_wins_at_once() {
    let mut g = small_game(vec![Invader { x: 5, y: 9 }], 1000);
    let out = g.tick(&vec![InputEvent::Fire], 5);
    assert_eq!(g.status, Status::Win);
    assert_eq!(
        out.cues,
        vec![AudioActions::Pew, AudioActions::Explode, AudioActions::Win]
    );
    assert!(out.frame.is_none());
}

#[test]
fn an_invader_on_the_threshold_loses_at_once() {
    let mut g = small_game(vec![Invader { x: 2, y: 9 }], 1000);
    let out = g.tick(&Vec::new(), 5);
    assert_eq!(g.status, Status::Lose);
    assert_eq!(out.cues, vec![AudioActions::Lose]);
    assert!(out.frame.is_none());
}

#[test]
fn fleet_step_plays_the_move_cue() {
    let mut g = small_game(vec![Invader { x: 2, y: 0 }], 100);
    let out = g.tick(&Vec::new(), 100);
    assert_eq!(out.cues, vec![AudioActions::Move]);
    assert_eq!(g.fleet.army[0], Invader { x: 3, y: 0 });
}

#[test]
fn ticks_after_the_end_change_nothing() {
    let mut g = small_game(vec![Invader { x: 2, y: 0 }], 1000);
    let _ = g.tick(&vec![InputEvent::Quit], 5);
    let out = g.tick(&vec![InputEvent::Fire], 500);
    assert_eq!(g.status, Status::Quit);
    assert!(out.cues.is_empty());
    assert!(out.frame.is_none());
}

#[test]
fn default_game_runs_on_the_default_board() {
    let mut g = Game::new();
    assert_eq!(g.status, Status::Running);
    let out = g.tick(&Vec::new(), 1);
    assert_eq!(g.status, Status::Running);
    let frame = out.frame.expect("running game must yield a frame");
    assert_eq!(frame.width, NUM_COLS);
    assert_eq!(frame.height, NUM_ROWS);
    assert_eq!(frame.cells[NUM_COLS / 2][NUM_ROWS - 1], 'A');
}

#[test]
fn cue_names_match_the_registered_clips() {
    assert_eq!(cue_name(AudioActions::StartUp), "startup");
    assert_eq!(cue_name(AudioActions::Lose), "lose");
    assert_eq!(cue_name(AudioActions::Explode), "explode");
    assert_eq!(cue_name(AudioActions::Move), "move");
    assert_eq!(cue_name(AudioActions::Pew), "pew");
    assert_eq!(cue_name(AudioActions::Win), "win");
}
