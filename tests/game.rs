use invaders::difficulty::DifficultyLevel;
use invaders::frame::{new_frame, Drawable, Frame};
use invaders::game::{Cue, Game, Key, Reaction, Verdict};
use invaders::level::{Level, FINAL_LEVEL};
use invaders::score::Score;
use invaders::text::decimal;
use invaders::menu::Menu;
use invaders::shot::SHOT_STEP_MS;

fn frame_of(w: usize, h: usize) -> Frame {
    vec![vec![' '; h]; w]
}

fn row(frame: &Frame, y: usize, from: usize, len: usize) -> String {
    (from..from + len).map(|x| frame[x][y]).collect()
}

#[test]
fn decimal_pads_with_zeros() {
    assert_eq!(decimal(7, 4), vec!['0', '0', '0', '7']);
    assert_eq!(decimal(1234, 2), vec!['1', '2', '3', '4']);
    assert_eq!(decimal(0, 0), vec!['0']);
    assert_eq!(decimal(u32::MAX, 1).len(), 10);
}

#[test]
fn score_adds_and_saturates() {
    let mut s = Score::new();
    s.add_points(3);
    s.add_points(0);
    assert_eq!(s.count(), 3);
    for _ in 0..70000 {
        s.add_points(u16::MAX);
    }
    assert_eq!(s.count(), u32::MAX);
}

#[test]
fn level_counts_up_to_the_final_one() {
    let mut l = Level::new();
    assert_eq!(l.level(), 1);
    for n in 2..=FINAL_LEVEL {
        assert!(!l.increment_level());
        assert_eq!(l.level(), n);
    }
    assert!(l.increment_level());
    assert_eq!(l.level(), FINAL_LEVEL);
}

#[test]
fn score_and_level_draw_on_the_top_row() {
    let mut f = frame_of(40, 3);
    let mut s = Score::new();
    s.add_points(42);
    s.draw(&mut f);
    Level::new().draw(&mut f);
    assert_eq!(row(&f, 0, 0, 11), "SCORE: 0042");
    assert_eq!(row(&f, 0, 20, 9), "LEVEL: 01");
    let mut narrow = frame_of(5, 1);
    s.draw(&mut narrow);
    assert_eq!(row(&narrow, 0, 0, 5), "SCORE");
}

#[test]
fn menu_draws_title_difficulty_and_options() {
    let mut f = frame_of(80, 14);
    let mut m = Menu::new();
    m.change_option(false);
    m.draw(&mut f);
    assert_eq!(row(&f, 8, 0, 19), " Difficulty: Normal");
    assert_eq!(row(&f, 7, 0, 9), " New game");
    assert_eq!(row(&f, 9, 0, 5), ">Exit");
    // the title starts at column (80 - 67) / 2 = 6
    assert_eq!(row(&f, 0, 6, 8), "  ______");
    let mut small = frame_of(3, 3);
    m.draw(&mut small);
}

#[test]
fn game_starts_in_menu_and_starts_a_run_on_fire() {
    let frame = new_frame(110, 50);
    let mut g = Game::new(&frame);
    assert!(g.in_menu);
    assert_eq!(g.step(1000, &frame).len(), 0);
    assert_eq!(g.press(Key::Left, &frame), Reaction::Nothing);
    assert_eq!(g.menu.selected_level(), DifficultyLevel::Easy);
    assert_eq!(g.press(Key::Fire, &frame), Reaction::Nothing);
    assert!(!g.in_menu);
    assert_eq!(g.difficulty.max_shots, Some(3));
    assert_eq!(g.invaders.army.len(), 3);
    assert_eq!((g.player.x(), g.player.y()), (30, 37));
}

#[test]
fn exit_option_leaves() {
    let frame = new_frame(110, 50);
    let mut g = Game::new(&frame);
    g.press(Key::Down, &frame);
    assert_eq!(g.press(Key::Fire, &frame), Reaction::Exit);
}

#[test]
fn run_fires_scores_and_levels_up() {
    let frame = new_frame(110, 50);
    let mut g = Game::new(&frame);
    g.press(Key::Fire, &frame);
    assert_eq!(g.press(Key::Fire, &frame), Reaction::Nothing);
    g.step(500, &frame);
    assert_eq!(g.press(Key::Fire, &frame), Reaction::Play(Cue::Pew));
    assert_eq!(g.invaders.shots_fired, 1);
    let mut explosions = 0;
    for _ in 0..3000 {
        if g.invaders.army.len() < 3 {
            break;
        }
        // stand under the leftmost member and keep firing
        let target = g.invaders.army.iter().map(|m| m.x).min().unwrap();
        if g.player.x() > target {
            g.press(Key::Left, &frame);
        } else if g.player.x() < target {
            g.press(Key::Right, &frame);
        }
        g.press(Key::Fire, &frame);
        let cues = g.step(SHOT_STEP_MS, &frame);
        if cues.contains(&Cue::Explode) {
            explosions += 1;
        }
        assert_eq!(g.conclude(&frame), Verdict::Continue);
    }
    assert_eq!(explosions, 1);
    assert_eq!(g.score.count(), 1);
    assert_eq!(g.invaders.army.len(), 2);
    g.invaders.army.clear();
    assert_eq!(g.conclude(&frame), Verdict::LevelUp);
    assert_eq!(g.level.level(), 2);
    assert_eq!(g.invaders.army.len(), 5);
    let mut f = new_frame(110, 50);
    g.draw(&mut f);
    assert_eq!(row(&f, 0, 0, 11), "SCORE: 0001");
    assert_eq!(f[g.player.x()][37], 'A');
}

#[test]
fn swarm_at_bottom_loses_and_quit_gives_up() {
    let frame = new_frame(110, 50);
    let mut g = Game::new(&frame);
    g.press(Key::Fire, &frame);
    g.invaders.army[0].y = 39;
    assert_eq!(g.conclude(&frame), Verdict::Lost);
    assert!(g.in_menu);
    g.press(Key::Fire, &frame);
    assert!(!g.in_menu);
    assert_eq!(g.press(Key::Quit, &frame), Reaction::Play(Cue::Lose));
    assert!(g.in_menu);
}

#[test]
fn move_cue_follows_swarm_steps() {
    let frame = new_frame(110, 50);
    let mut g = Game::new(&frame);
    g.press(Key::Fire, &frame);
    assert!(!g.step(599, &frame).contains(&Cue::Move));
    assert!(g.step(1, &frame).contains(&Cue::Move));
}
