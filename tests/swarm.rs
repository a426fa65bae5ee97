use invaders::difficulty::{Difficulty, DifficultyLevel};
use invaders::frame::{new_frame, Frame};
use invaders::invaders::{Invaders, MIN_MOVE_MS};

fn frame_of(w: usize, h: usize) -> Frame {
    vec![vec![' '; h]; w]
}

fn positions(inv: &Invaders) -> Vec<(usize, usize)> {
    inv.army.iter().map(|m| (m.x, m.y)).collect()
}

#[test]
fn series_follows_recurrence() {
    assert_eq!(Invaders::series(1), 3);
    assert_eq!(Invaders::series(2), 5);
    assert_eq!(Invaders::series(3), 8);
    assert_eq!(Invaders::series(4), 13);
    for n in 3..=21u16 {
        assert_eq!(
            Invaders::series(n),
            Invaders::series(n - 1) + Invaders::series(n - 2)
        );
    }
    assert_eq!(Invaders::series(21), 46368);
}

#[test]
fn series_is_held_at_the_largest_u16() {
    assert_eq!(Invaders::series(22), u16::MAX);
    assert_eq!(Invaders::series(u16::MAX), u16::MAX);
}

#[test]
fn populate_level_one_lays_out_three_hidden_members() {
    let frame = frame_of(60, 40);
    let mut inv = Invaders::new(&Difficulty::default());
    inv.populate(&frame);
    assert_eq!(positions(&inv), vec![(2, 2), (5, 2), (8, 2)]);
    assert_eq!(inv.total_count, 3);
    assert!(inv.army.iter().all(|m| !m.is_visible && m.points == 1));
    assert_eq!(inv.revealed_count(), 0);
}

#[test]
fn populate_positions_are_distinct_and_inside_upper_half() {
    let frame = frame_of(20, 30);
    let mut inv = Invaders::new(&Difficulty::default());
    for _ in 0..6 {
        inv.next_level(&frame);
    }
    // per row: (20 - 4) / 3 = 5; rows: (15 - 1) / 2 = 7; level 7 wants 55
    assert_eq!(inv.level(), 7);
    assert_eq!(inv.army.len(), 35);
    let pos = positions(&inv);
    for (i, a) in pos.iter().enumerate() {
        assert!(a.0 < 20 && a.1 < 15);
        for b in pos.iter().skip(i + 1) {
            assert_ne!(a, b);
        }
    }
    assert_eq!(pos[5], (2, 4));
}

#[test]
fn populate_on_a_tiny_frame_places_nobody() {
    let mut inv = Invaders::new(&Difficulty::default());
    inv.populate(&frame_of(3, 40));
    assert!(inv.all_killed());
    inv.populate(&frame_of(60, 4));
    assert!(inv.all_killed());
    inv.populate(&Vec::new());
    assert!(inv.all_killed());
}

#[test]
fn kill_on_empty_cell_returns_zero_and_keeps_population() {
    let frame = frame_of(60, 40);
    let mut inv = Invaders::new(&Difficulty::default());
    inv.populate(&frame);
    assert_eq!(inv.kill_invader_at(3, 2), 0);
    assert_eq!(inv.army.len(), 3);
    assert_eq!(inv.kill_invader_at(5, 2), 1);
    assert_eq!(positions(&inv), vec![(2, 2), (8, 2)]);
    assert_eq!(inv.kill_invader_at(5, 2), 0);
    assert_eq!(inv.army.len(), 2);
}

#[test]
fn reveal_shows_one_member_per_pop_interval() {
    let frame = frame_of(60, 40);
    let mut inv = Invaders::new(&Difficulty::default());
    inv.populate(&frame);
    inv.update(199, &frame);
    assert_eq!(inv.revealed_count(), 0);
    inv.update(1, &frame);
    assert_eq!(inv.revealed_count(), 1);
    assert!(inv.army[0].is_visible && !inv.army[1].is_visible);
    inv.update(5000, &frame);
    assert_eq!(inv.revealed_count(), 2);
    for _ in 0..10 {
        inv.update(200, &frame);
    }
    assert_eq!(inv.revealed_count(), 3);
    assert!(inv.army.iter().all(|m| m.is_visible));
}

#[test]
fn swarm_steps_right_once_per_interval() {
    let frame = frame_of(60, 40);
    let mut inv = Invaders::new(&Difficulty::new(DifficultyLevel::Normal));
    inv.populate(&frame);
    assert!(!inv.update(599, &frame));
    assert_eq!(positions(&inv), vec![(2, 2), (5, 2), (8, 2)]);
    assert!(inv.update(1, &frame));
    assert_eq!(positions(&inv), vec![(3, 2), (6, 2), (9, 2)]);
    assert_eq!(inv.direction(), 1);
}

#[test]
fn reaching_right_edge_flips_descends_and_speeds_up() {
    let frame = frame_of(60, 40);
    let mut inv = Invaders::new(&Difficulty::new(DifficultyLevel::Normal));
    inv.populate(&frame);
    // rightmost member goes from column 8 to column 58 = width - 2
    for _ in 0..50 {
        assert!(inv.update(600, &frame));
    }
    assert_eq!(positions(&inv), vec![(52, 2), (55, 2), (58, 2)]);
    assert_eq!(inv.direction(), 1);
    let before = inv.move_duration();
    assert_eq!(before, 600);
    assert!(inv.update(600, &frame));
    assert_eq!(inv.direction(), -1);
    assert_eq!(positions(&inv), vec![(52, 3), (55, 3), (58, 3)]);
    assert!(inv.move_duration() < before);
    assert_eq!(inv.move_duration(), 550);
    // the new interval applies from the next restart on
    assert!(!inv.update(549, &frame));
    assert!(inv.update(51, &frame));
    assert_eq!(positions(&inv), vec![(51, 3), (54, 3), (57, 3)]);
}

#[test]
fn reaching_left_edge_flips_back_and_descends() {
    let frame = frame_of(60, 40);
    let mut inv = Invaders::new(&Difficulty::new(DifficultyLevel::Hardcore));
    inv.populate(&frame);
    let mut descents = 0;
    let mut last_dir = inv.direction();
    for _ in 0..200 {
        let ys: Vec<usize> = inv.army.iter().map(|m| m.y).collect();
        let xs: Vec<usize> = inv.army.iter().map(|m| m.x).collect();
        inv.update(1000, &frame);
        let dir = inv.direction();
        let new_ys: Vec<usize> = inv.army.iter().map(|m| m.y).collect();
        let new_xs: Vec<usize> = inv.army.iter().map(|m| m.x).collect();
        if dir != last_dir {
            descents += 1;
            assert_eq!(dir, -last_dir);
            assert_eq!(new_xs, xs);
            assert!(new_ys.iter().zip(ys.iter()).all(|(a, b)| *a == b + 1));
        } else {
            assert_eq!(new_ys, ys);
        }
        last_dir = dir;
        assert!(inv.army.iter().all(|m| m.x >= 1 && m.x <= 58));
    }
    assert!(descents >= 3);
    // Hardcore starts at the floor: descents leave the interval there
    assert_eq!(inv.move_duration(), MIN_MOVE_MS);
}

#[test]
fn speed_up_is_clamped_at_the_floor() {
    let frame = frame_of(12, 60);
    let mut inv = Invaders::new(&Difficulty::new(DifficultyLevel::Easy));
    inv.populate(&frame);
    let mut last = inv.move_duration();
    assert_eq!(last, 800);
    let mut seen = vec![last];
    for _ in 0..200 {
        inv.update(10_000, &frame);
        let d = inv.move_duration();
        if d != last {
            assert!(d < last);
            seen.push(d);
        }
        assert!(d >= MIN_MOVE_MS);
        last = d;
    }
    assert_eq!(*seen.last().unwrap(), MIN_MOVE_MS);
    assert_eq!(&seen[..3], &[800, 750, 700]);
}

#[test]
fn shots_fired_add_to_the_speed_up() {
    let frame = frame_of(12, 60);
    let mut inv = Invaders::new(&Difficulty::new(DifficultyLevel::Easy));
    inv.populate(&frame);
    for _ in 0..5 {
        inv.record_shot();
    }
    assert_eq!(inv.shots_fired, 5);
    while inv.direction() == 1 {
        inv.update(10_000, &frame);
    }
    // 800 - (1 * 50 + 5 * 10)
    assert_eq!(inv.move_duration(), 700);
    inv.next_level(&frame);
    assert_eq!(inv.shots_fired, 0);
}

#[test]
fn reached_bottom_checks_the_last_row() {
    let frame = frame_of(60, 10);
    let mut inv = Invaders::new(&Difficulty::default());
    inv.populate(&frame);
    assert!(!inv.reached_bottom(&frame));
    inv.army[0].y = 8;
    assert!(!inv.reached_bottom(&frame));
    inv.army[0].y = 9;
    assert!(inv.reached_bottom(&frame));
}

#[test]
fn next_level_grows_population_and_restarts_reveal() {
    let frame = frame_of(60, 40);
    let mut inv = Invaders::new(&Difficulty::default());
    inv.populate(&frame);
    inv.update(200, &frame);
    assert_eq!(inv.revealed_count(), 1);
    inv.next_level(&frame);
    assert_eq!(inv.level(), 2);
    assert_eq!(inv.army.len(), 5);
    assert_eq!(inv.revealed_count(), 0);
    inv.next_level(&frame);
    assert_eq!(inv.army.len(), 8);
}

#[test]
fn populate_is_deterministic() {
    let frame = new_frame(110, 50);
    let mut a = Invaders::new(&Difficulty::default());
    let mut b = Invaders::default();
    a.next_level(&frame);
    b.next_level(&frame);
    assert_eq!(positions(&a), positions(&b));
}

#[test]
fn reveal_goes_on_in_order_after_a_kill() {
    let frame = frame_of(60, 40);
    let mut inv = Invaders::new(&Difficulty { invader_speed: 100_000, player_fire_rate: 1, max_shots: None });
    inv.populate(&frame);
    inv.update(200, &frame);
    assert!(inv.army[0].is_visible);
    assert_eq!(inv.kill_invader_at(2, 2), 1);
    assert_eq!(inv.revealed_count(), 0);
    assert!(inv.army.iter().all(|m| !m.is_visible));
    inv.update(200, &frame);
    assert_eq!(positions(&inv), vec![(5, 2), (8, 2)]);
    assert!(inv.army[0].is_visible && !inv.army[1].is_visible);
    inv.update(200, &frame);
    assert!(inv.army.iter().all(|m| m.is_visible));
    assert_eq!(inv.revealed_count(), 2);
    // killing a hidden member leaves the count alone
    let mut other = Invaders::new(&Difficulty::default());
    other.populate(&frame);
    other.update(200, &frame);
    assert_eq!(other.kill_invader_at(8, 2), 1);
    assert_eq!(other.revealed_count(), 1);
}

#[test]
fn descent_lifts_an_interval_below_the_floor_to_it() {
    let frame = frame_of(2, 40);
    let mut inv = Invaders::new(&Difficulty { invader_speed: 50, player_fire_rate: 1, max_shots: None });
    inv.populate(&frame);
    assert!(inv.update(50, &frame));
    assert_eq!(inv.direction(), -1);
    assert_eq!(inv.move_duration(), MIN_MOVE_MS);
}
