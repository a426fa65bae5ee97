use invaders::difficulty::{Difficulty, DifficultyLevel};
use invaders::frame::{new_frame, set_cell, Drawable};
use invaders::invaders::Invaders;
use invaders::menu::Menu;
use invaders::timer::Timer;

#[test]
fn difficulty_profiles() {
    let e = Difficulty::new(DifficultyLevel::Easy);
    assert_eq!((e.invader_speed, e.player_fire_rate, e.max_shots), (800, 400, Some(3)));
    let n = Difficulty::default();
    assert_eq!((n.invader_speed, n.player_fire_rate, n.max_shots), (600, 500, Some(2)));
    let h = Difficulty::new(DifficultyLevel::Hard);
    assert_eq!((h.invader_speed, h.player_fire_rate, h.max_shots), (400, 600, Some(2)));
    let c = Difficulty::new(DifficultyLevel::Hardcore);
    assert_eq!((c.invader_speed, c.player_fire_rate, c.max_shots), (100, 200000, Some(1)));
}

#[test]
fn timer_counts_down_and_restarts() {
    let mut t = Timer::new(500);
    t.tick(300);
    assert!(!t.finished());
    assert_eq!(t.remaining(), 200);
    t.tick(300);
    assert!(t.finished());
    assert_eq!(t.remaining(), 0);
    t.reset();
    assert!(!t.finished());
    assert_eq!(t.remaining(), 500);
    t.set_duration(100);
    assert_eq!(t.duration(), 100);
    assert_eq!(t.remaining(), 500);
    t.tick(600);
    t.reset();
    assert_eq!(t.remaining(), 100);
}

#[test]
fn new_frame_subtracts_margins() {
    let f = new_frame(80, 24);
    assert_eq!(f.len(), 30);
    assert!(f.iter().all(|c| c.len() == 14 && c.iter().all(|g| *g == ' ')));
    assert!(new_frame(40, 5).is_empty());
}

#[test]
fn set_cell_ignores_cells_outside() {
    let mut f = new_frame(55, 13);
    set_cell(&mut f, 4, 2, 'x');
    set_cell(&mut f, 5, 0, 'x');
    set_cell(&mut f, 0, 3, 'x');
    assert_eq!(f[4][2], 'x');
    assert_eq!(f.iter().flatten().filter(|g| **g == 'x').count(), 1);
}

#[test]
fn menu_moves_within_its_lists() {
    let mut m = Menu::new();
    assert_eq!(m.get_selected_difficulty(), "Normal");
    m.change_option(true);
    assert_eq!(m.selection, 0);
    m.change_option(false);
    m.change_option(false);
    assert_eq!(m.selection, 1);
    m.toggle_difficulty(true);
    assert_eq!(m.get_selected_difficulty(), "Easy");
    assert_eq!(m.selected_level(), DifficultyLevel::Easy);
    m.toggle_difficulty(true);
    assert_eq!(m.current_difficulty, 0);
    for _ in 0..5 {
        m.toggle_difficulty(false);
    }
    assert_eq!(m.get_selected_difficulty(), "Hardcore");
    assert_eq!(m.selected_level(), DifficultyLevel::Hardcore);
    let d = Menu::default();
    assert_eq!(d.options, vec!["New game".to_string(), "Exit".to_string()]);
}

#[test]
fn swarm_draws_visible_members_only() {
    let mut f = new_frame(110, 50);
    let mut inv = Invaders::default();
    inv.populate(&f);
    inv.update(200, &f);
    inv.draw(&mut f);
    // more than half of the step interval is left: 'x'
    assert_eq!(f[2][2], 'x');
    assert_eq!(f[5][2], ' ');
    inv.update(200, &f);
    let mut g = new_frame(110, 50);
    inv.draw(&mut g);
    assert_eq!((g[2][2], g[5][2]), ('+', '+'));
}
