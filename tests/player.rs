use invaders::difficulty::{Difficulty, DifficultyLevel};
use invaders::frame::{Drawable, Frame};
use invaders::invaders::Invaders;
use invaders::player::Player;
use invaders::shot::{Shot, ShotManager, EXPLOSION_MS, SHOT_STEP_MS};

fn frame_of(w: usize, h: usize) -> Frame {
    vec![vec![' '; h]; w]
}

#[test]
fn new_player_takes_the_difficulty() {
    let p = Player::new(&Difficulty::new(DifficultyLevel::Easy));
    assert_eq!(p.max_shots(), 3);
    let d = Difficulty { invader_speed: 1, player_fire_rate: 1, max_shots: None };
    assert_eq!(Player::new(&d).max_shots(), 2);
    assert_eq!(Player::default().max_shots(), 2);
}

#[test]
fn center_puts_player_mid_column_near_bottom() {
    let mut p = Player::default();
    p.center(&frame_of(60, 40));
    assert_eq!((p.x(), p.y()), (30, 37));
    p.center(&frame_of(5, 2));
    assert_eq!((p.x(), p.y()), (2, 0));
}

#[test]
fn movement_wraps_at_both_edges() {
    let frame = frame_of(10, 20);
    let mut p = Player::default();
    p.center(&frame);
    assert_eq!(p.x(), 5);
    p.move_right(&frame);
    p.move_right(&frame);
    p.move_right(&frame);
    assert_eq!(p.x(), 8);
    p.move_right(&frame);
    assert_eq!(p.x(), 0);
    p.move_left(&frame);
    assert_eq!(p.x(), 8);
    p.move_left(&frame);
    assert_eq!(p.x(), 7);
    for _ in 0..6 {
        p.move_left(&frame);
    }
    assert_eq!(p.x(), 1);
    p.move_left(&frame);
    assert_eq!(p.x(), 8);
}

#[test]
fn shoot_needs_the_fire_rate_timer_and_room_in_the_pool() {
    let frame = frame_of(60, 40);
    let mut p = Player::new(&Difficulty::new(DifficultyLevel::Normal));
    p.center(&frame);
    assert!(!p.shoot());
    p.update(500);
    assert!(p.shoot());
    assert_eq!(p.shots().len(), 1);
    assert_eq!((p.shots()[0].x, p.shots()[0].y), (30, 36));
    assert!(!p.shoot());
    p.update(500);
    assert!(p.shoot());
    p.update(500);
    // two shots in flight fill a Normal pool
    assert_eq!(p.shots().len(), 2);
    assert!(!p.shoot());
}

#[test]
fn pool_never_exceeds_its_maximum() {
    let frame = frame_of(60, 400);
    for level in [
        DifficultyLevel::Easy,
        DifficultyLevel::Normal,
        DifficultyLevel::Hard,
        DifficultyLevel::Hardcore,
    ] {
        let mut p = Player::new(&Difficulty::new(level));
        p.center(&frame);
        for _ in 0..300 {
            p.shoot();
            assert!(p.shots().len() <= p.max_shots());
            p.update(250_000);
            assert!(p.shots().len() <= p.max_shots());
        }
    }
}

#[test]
fn shots_climb_and_die_at_the_top() {
    let mut s = Shot::new(4, 3);
    s.update(SHOT_STEP_MS - 1);
    assert_eq!(s.y, 3);
    s.update(1);
    assert_eq!(s.y, 2);
    s.update(SHOT_STEP_MS);
    s.update(SHOT_STEP_MS);
    assert_eq!(s.y, 0);
    assert!(s.dead());
}

#[test]
fn exploded_shot_stays_put_and_dies_after_decay() {
    let mut s = Shot::new(7, 20);
    s.update(SHOT_STEP_MS);
    assert_eq!(s.y, 19);
    s.explode();
    assert!(s.exploding);
    for _ in 0..4 {
        s.update(60);
        assert_eq!((s.x, s.y), (7, 19));
        assert!(!s.dead());
    }
    s.update(EXPLOSION_MS - 240 - 1);
    assert!(!s.dead());
    s.update(1);
    assert!(s.dead());
    assert_eq!((s.x, s.y), (7, 19));
}

#[test]
fn shot_manager_respects_limit_and_rate() {
    let mut m = ShotManager::new();
    m.try_fire_shot(3, 10, 2);
    m.update(333);
    m.try_fire_shot(3, 10, 2);
    m.try_fire_shot(3, 10, 2);
    m.update(333);
    m.try_fire_shot(4, 10, 2);
    m.update(333);
    m.try_fire_shot(5, 10, 2);
    let mut frame = frame_of(8, 12);
    m.draw(&mut frame);
    let marks: usize = frame.iter().map(|c| c.iter().filter(|g| **g == '|').count()).sum();
    assert_eq!(marks, 2);
}

#[test]
fn detect_hits_scores_and_explodes_shot() {
    let frame = frame_of(60, 40);
    let mut inv = Invaders::new(&Difficulty::default());
    inv.populate(&frame);
    let mut p = Player::new(&Difficulty::default());
    p.center(&frame);
    // walk to the column of the first member
    while p.x() != 2 {
        p.move_left(&frame);
    }
    p.update(500);
    assert!(p.shoot());
    let mut hits = 0;
    for _ in 0..40 {
        p.update(SHOT_STEP_MS);
        hits += p.detect_hits(&mut inv);
        if hits > 0 {
            break;
        }
    }
    assert_eq!(hits, 1);
    assert_eq!(inv.army.len(), 2);
    assert!(p.shots()[0].exploding);
    assert_eq!((p.shots()[0].x, p.shots()[0].y), (2, 2));
    // the explosion does not hit again
    assert_eq!(p.detect_hits(&mut inv), 0);
    assert_eq!(inv.army.len(), 2);
}

#[test]
fn end_to_end_clear_level_one_then_level_two_has_five() {
    let frame = frame_of(60, 40);
    let difficulty = Difficulty::default();
    let mut inv = Invaders::new(&difficulty);
    inv.populate(&frame);
    assert_eq!(inv.army.len(), 3);
    let mut p = Player::new(&difficulty);
    p.center(&frame);
    let mut score: u32 = 0;
    for target in [2usize, 5, 8] {
        while p.x() != target {
            p.move_left(&frame);
        }
        p.update(500);
        assert!(p.shoot());
        for _ in 0..40 {
            p.update(SHOT_STEP_MS);
            score += p.detect_hits(&mut inv) as u32;
        }
    }
    assert_eq!(score, 3);
    assert_eq!(inv.army.len(), 0);
    assert!(inv.all_killed());
    inv.next_level(&frame);
    assert_eq!(inv.army.len(), 5);
}

#[test]
fn player_draws_itself_and_its_shots() {
    let frame0 = frame_of(10, 10);
    let mut p = Player::default();
    p.center(&frame0);
    p.update(500);
    p.shoot();
    let mut frame = frame0.clone();
    p.draw(&mut frame);
    assert_eq!(frame[5][7], 'A');
    assert_eq!(frame[5][6], '|');
    let mut tiny: Frame = vec![vec![' '; 2]; 2];
    p.draw(&mut tiny);
    assert_eq!(tiny, vec![vec![' '; 2]; 2]);
}
