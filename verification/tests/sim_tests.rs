use invaders::invaders::{Invader, InvaderFleet};
use invaders::player::Player;

#[test]
fn ten_moves_right_saturate_at_board_edge() {
    // board width 10, player starts centred at x = 5
    let mut p = Player::with_board(10, 10);
    assert_eq!(p.x, 5);
    for _ in 0..10 {
        p.move_right();
    }
    assert_eq!(p.x, 9);
}

#[test]
fn moves_left_saturate_at_zero() {
    let mut p = Player::with_board(10, 10);
    for _ in 0..25 {
        p.move_left();
    }
    assert_eq!(p.x, 0);
    p.move_left();
    assert_eq!(p.x, 0);
    p.move_right();
    assert_eq!(p.x, 1);
}

#[test]
fn second_shot_before_any_update_is_refused() {
    let mut p = Player::with_board(10, 10);
    assert!(p.shoot());
    let after_first = p;
    assert!(!p.shoot());
    assert_eq!(p, after_first);
}

#[test]
fn shot_clears_at_top_boundary_and_fire_reopens() {
    // two-row board: the shot spawns on the baseline, steps to row 0, then
    // leaves past the top boundary
    let mut p = Player::with_board(10, 2);
    assert!(p.shoot());
    assert!(p.shot.is_some());
    p.update(50);
    assert_eq!(p.shot.unwrap().y, 0);
    p.update(50);
    assert!(p.shot.is_none());
    assert!(p.shoot());
}

#[test]
fn shot_advances_by_elapsed_time_not_by_calls() {
    let mut p = Player::with_board(10, 10);
    assert!(p.shoot());
    let y0 = p.shot.unwrap().y;
    p.update(20);
    assert_eq!(p.shot.unwrap().y, y0);
    p.update(20);
    assert_eq!(p.shot.unwrap().y, y0);
    p.update(20);
    assert_eq!(p.shot.unwrap().y, y0 - 1);
}

#[test]
fn detect_hits_without_match_changes_nothing() {
    let mut p = Player::with_board(10, 10);
    assert!(p.shoot());
    let mut fleet = InvaderFleet::from_parts(10, 9, 100, vec![Invader { x: 3, y: 3 }]);
    assert!(!p.detect_hits(&mut fleet));
    assert!(p.shot.is_some());
    assert_eq!(fleet.army.len(), 1);
    assert_eq!(fleet.army[0], Invader { x: 3, y: 3 });
}

#[test]
fn detect_hits_without_shot_is_a_no_op() {
    let mut p = Player::with_board(10, 10);
    let mut fleet = InvaderFleet::from_parts(10, 9, 100, vec![Invader { x: 5, y: 9 }]);
    assert!(!p.detect_hits(&mut fleet));
    assert_eq!(fleet.army.len(), 1);
}

#[test]
fn detect_hits_on_match_removes_shot_and_invader() {
    let mut p = Player::with_board(10, 10);
    assert!(p.shoot());
    // the shot spawns at the ship's position (5, 9)
    let mut fleet = InvaderFleet::from_parts(10, 9, 100, vec![
        Invader { x: 2, y: 0 },
        Invader { x: 5, y: 9 },
    ]);
    assert!(p.detect_hits(&mut fleet));
    assert!(p.shot.is_none());
    assert_eq!(fleet.army.len(), 1);
    assert_eq!(fleet.army[0], Invader { x: 2, y: 0 });
    assert!(!fleet.all_killed());
}

#[test]
fn all_killed_iff_no_live_invader() {
    let empty = InvaderFleet::from_parts(10, 9, 100, Vec::new());
    assert!(empty.all_killed());
    let one = InvaderFleet::from_parts(10, 9, 100, vec![Invader { x: 0, y: 0 }]);
    assert!(!one.all_killed());
}

#[test]
fn reached_bottom_stays_true_under_updates() {
    let mut fleet = InvaderFleet::from_parts(10, 5, 100, vec![Invader { x: 2, y: 5 }]);
    assert!(fleet.reached_bottom());
    for _ in 0..7 {
        fleet.update(100);
        assert!(fleet.reached_bottom());
    }
}

#[test]
fn fleet_update_accumulates_time_before_stepping() {
    let mut fleet = InvaderFleet::from_parts(10, 9, 100, vec![Invader { x: 4, y: 0 }]);
    assert!(!fleet.update(30));
    assert!(!fleet.update(30));
    assert_eq!(fleet.army[0], Invader { x: 4, y: 0 });
    assert!(fleet.update(40));
    assert_eq!(fleet.army[0], Invader { x: 5, y: 0 });
}

#[test]
fn fleet_drops_and_reverses_at_side_boundary() {
    let mut fleet = InvaderFleet::from_parts(10, 9, 100, vec![Invader { x: 9, y: 0 }]);
    // already at the right edge: the step is a drop with reversal
    assert!(fleet.update(100));
    assert_eq!(fleet.army[0], Invader { x: 9, y: 1 });
    // now drifting left
    assert!(fleet.update(100));
    assert_eq!(fleet.army[0], Invader { x: 8, y: 1 });
}

#[test]
fn single_invader_reaches_bottom_at_reproducible_tick_count() {
    // board width 10, bottom threshold row 9, one row per reversal: from
    // (0, 0) drifting right, every 10th step is a drop, so the 90th
    // deterministic update flips reached_bottom
    let mut fleet = InvaderFleet::from_parts(10, 9, 100, vec![Invader { x: 0, y: 0 }]);
    let mut flipped_at: usize = 0;
    for tick in 1..=90 {
        assert!(fleet.update(100));
        if fleet.reached_bottom() && flipped_at == 0 {
            flipped_at = tick;
        }
    }
    assert_eq!(flipped_at, 90);
    assert!(fleet.reached_bottom());
}

#[test]
fn default_formation_is_the_fixed_rectangle() {
    let fleet = InvaderFleet::new();
    assert_eq!(fleet.army.len(), 72);
    for inv in &fleet.army {
        assert!(inv.x > 1 && inv.x < 38);
        assert!(inv.y > 0 && inv.y < 9);
        assert_eq!(inv.x % 2, 0);
        assert_eq!(inv.y % 2, 0);
    }
    assert!(!fleet.all_killed());
    assert!(!fleet.reached_bottom());
}
