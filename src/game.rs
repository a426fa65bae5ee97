use vstd::prelude::*;
use crate::difficulty::{profile, Difficulty, DifficultyLevel};
use crate::frame::{cells, height_of, width_of, Drawable, Frame};
use crate::menu::{level_at, stepped_index};
use crate::timer::TimerView;
use crate::invaders::{capped, layout, placed, Invaders, InvadersView, POP_INTERVAL_MS};
use crate::menu::Menu;
use crate::player::{
    collide, column_left, column_right, muzzle, Player, PlayerView, DEFAULT_MAX_SHOTS,
};
use crate::shot::survivors;
use crate::level::{Level, FINAL_LEVEL};
use crate::score::Score;

verus! {

/// A key press, as the game reads it.
#[derive(Clone, Copy, Debug, PartialEq, Eq, Structural)]
pub enum Key {
    Up,
    Down,
    Left,
    Right,
    /// Space or Enter.
    Fire,
    /// Escape or `q`.
    Quit,
}

/// A sound the game asks for.
#[derive(Clone, Copy, Debug, PartialEq, Eq, Structural)]
pub enum Cue {
    Pew,
    Explode,
    Move,
    Win,
    Lose,
}

/// What a key press led to.
#[derive(Clone, Copy, Debug, PartialEq, Eq, Structural)]
pub enum Reaction {
    Nothing,
    Play(Cue),
    /// The player chose to leave the game.
    Exit,
}

/// How a tick ended.
#[derive(Clone, Copy, Debug, PartialEq, Eq, Structural)]
pub enum Verdict {
    /// The game goes on as it is.
    Continue,
    /// The swarm was cleared and the next level has begun.
    LevelUp,
    /// The final level was cleared.
    Won,
    /// The swarm reached the bottom; the game is back in the menu.
    Lost,
}

/// The state of a whole run: the menu or the playfield, and the counters.
pub struct Game {
    pub in_menu: bool,
    pub menu: Menu,
    pub difficulty: Difficulty,
    pub player: Player,
    pub invaders: Invaders,
    pub score: Score,
    pub level: Level,
}

/// The player after one tick of `delta` milliseconds, before hits are resolved.
pub open spec fn player_after(p: PlayerView, delta: nat) -> PlayerView {
    PlayerView { shots: survivors(p.shots, delta), fire_rate: p.fire_rate.ticked(delta), ..p }
}

/// The swarm after one tick of `delta` milliseconds in a frame `w` columns
/// wide, before hits are resolved; a swarm that cannot descend any further
/// stands still.
pub open spec fn swarm_after(v: InvadersView, delta: nat, w: nat) -> InvadersView {
    if v.can_descend() {
        v.stepped(delta, w)
    } else {
        v
    }
}

/// A player made for difficulty `d` and centred in a `w` by `h` frame.
pub open spec fn fresh_player(d: Difficulty, w: nat, h: nat) -> PlayerView {
    PlayerView {
        x: w / 2,
        y: if h >= 3 {
            (h - 3) as nat
        } else {
            0
        },
        shots: Seq::empty(),
        fire_rate: TimerView::started(d.player_fire_rate as nat),
        max_shots: match d.max_shots {
            Some(m) => m as nat,
            None => DEFAULT_MAX_SHOTS as nat,
        },
    }
}

/// A swarm made for difficulty `d` and laid out for level 1 in a `w` by `h` frame.
pub open spec fn fresh_swarm(d: Difficulty, w: nat, h: nat) -> InvadersView {
    InvadersView {
        army: layout(1, w, h),
        total_count: placed(1, w, h),
        move_timer: TimerView::started(d.invader_speed as nat),
        pop_timer: TimerView::started(POP_INTERVAL_MS as nat),
        direction: 1,
        level: 1,
        popped: 0,
        shots_fired: 0,
    }
}

impl Game {
    pub open spec fn wf(&self) -> bool {
        &&& self.player@.wf()
        &&& self.invaders@.wf()
    }

    /// A fresh run on the menu, with the normal difficulty, its entities laid
    /// out in `frame`.
    pub fn new(frame: &Frame) -> (r: Self)
        ensures
            r.wf(),
            r.in_menu,
            r.difficulty == profile(DifficultyLevel::Normal),
            r.score@ == 0,
            r.level@ == 1,
            r.player@ == fresh_player(
                profile(DifficultyLevel::Normal),
                width_of(cells(*frame)),
                height_of(cells(*frame)),
            ),
            r.invaders@ == fresh_swarm(
                profile(DifficultyLevel::Normal),
                width_of(cells(*frame)),
                height_of(cells(*frame)),
            ),
    {
        let difficulty = Difficulty::new(DifficultyLevel::Normal);
        let mut player = Player::new(&difficulty);
        player.center(frame);
        let mut invaders = Invaders::new(&difficulty);
        invaders.populate(frame);
        Game {
            in_menu: true,
            menu: Menu::new(),
            difficulty,
            player,
            invaders,
            score: Score::new(),
            level: Level::new(),
        }
    }

    /// Fits the player and the swarm to a frame of a new size.
    pub fn resize(&mut self, frame: &Frame)
        requires
            old(self).wf(),
        ensures
            final(self).wf(),
            final(self).in_menu == old(self).in_menu,
            final(self).player@ == (PlayerView {
                x: fresh_player(
                    final(self).difficulty,
                    width_of(cells(*frame)),
                    height_of(cells(*frame)),
                ).x,
                y: fresh_player(
                    final(self).difficulty,
                    width_of(cells(*frame)),
                    height_of(cells(*frame)),
                ).y,
                ..old(self).player@
            }),
            final(self).invaders@ == (InvadersView {
                army: layout(
                    old(self).invaders@.level,
                    width_of(cells(*frame)),
                    height_of(cells(*frame)),
                ),
                total_count: placed(
                    old(self).invaders@.level,
                    width_of(cells(*frame)),
                    height_of(cells(*frame)),
                ),
                popped: 0,
                ..old(self).invaders@
            }),
            final(self).difficulty == old(self).difficulty,
            final(self).score@ == old(self).score@,
            final(self).level@ == old(self).level@,
    {
        self.player.center(frame);
        self.invaders.populate(frame);
    }

    /// Back to the menu with a new player and swarm for the current difficulty.
    pub fn reset(&mut self, frame: &Frame)
        ensures
            final(self).wf(),
            final(self).in_menu,
            final(self).difficulty == old(self).difficulty,
            final(self).player@ == fresh_player(
                old(self).difficulty,
                width_of(cells(*frame)),
                height_of(cells(*frame)),
            ),
            final(self).invaders@ == fresh_swarm(
                old(self).difficulty,
                width_of(cells(*frame)),
                height_of(cells(*frame)),
            ),
            final(self).score@ == old(self).score@,
            final(self).level@ == old(self).level@,
    {
        self.in_menu = true;
        self.player = Player::new(&self.difficulty);
        self.player.center(frame);
        self.invaders = Invaders::new(&self.difficulty);
        self.invaders.populate(frame);
    }

    /// Applies one key press. In the menu the arrows move through the options
    /// and the difficulties, and Fire starts a run with the chosen difficulty
    /// or, on the last option, leaves. In a run the arrows move the player,
    /// Fire shoots and Quit gives up.
    pub fn press(&mut self, key: Key, frame: &Frame) -> (r: Reaction)
        requires
            old(self).wf(),
        ensures
            final(self).wf(),
            old(self).in_menu && key == Key::Up ==> final(self).menu.selection == stepped_index(
                old(self).menu.selection as nat,
                old(self).menu.options@.len(),
                true,
            ),
            old(self).in_menu && key == Key::Down ==> final(self).menu.selection == stepped_index(
                old(self).menu.selection as nat,
                old(self).menu.options@.len(),
                false,
            ),
            old(self).in_menu && key == Key::Left ==> final(self).menu.current_difficulty
                == stepped_index(
                old(self).menu.current_difficulty as nat,
                old(self).menu.difficulty_levels@.len(),
                true,
            ),
            old(self).in_menu && key == Key::Right ==> final(self).menu.current_difficulty
                == stepped_index(
                old(self).menu.current_difficulty as nat,
                old(self).menu.difficulty_levels@.len(),
                false,
            ),
            old(self).in_menu && key == Key::Fire && old(self).menu.selection == 0 ==> {
                &&& !final(self).in_menu
                &&& r == Reaction::Nothing
                &&& final(self).difficulty == profile(
                    level_at(old(self).menu.current_difficulty as nat),
                )
                &&& final(self).player@ == fresh_player(
                    final(self).difficulty,
                    width_of(cells(*frame)),
                    height_of(cells(*frame)),
                )
                &&& final(self).invaders@ == fresh_swarm(
                    final(self).difficulty,
                    width_of(cells(*frame)),
                    height_of(cells(*frame)),
                )
            },
            old(self).in_menu && !(key == Key::Fire && old(self).menu.selection == 0) ==> {
                &&& final(self).in_menu
                &&& final(self).player@ == old(self).player@
                &&& final(self).invaders@ == old(self).invaders@
                &&& final(self).difficulty == old(self).difficulty
                &&& (key == Key::Fire) == (r == Reaction::Exit)
                &&& key != Key::Fire ==> r == Reaction::Nothing
            },
            !old(self).in_menu && key == Key::Left ==> {
                &&& r == Reaction::Nothing
                &&& final(self).player@ == (PlayerView {
                    x: column_left(old(self).player@.x, width_of(cells(*frame))),
                    ..old(self).player@
                })
                &&& final(self).invaders@ == old(self).invaders@
            },
            !old(self).in_menu && key == Key::Right ==> {
                &&& r == Reaction::Nothing
                &&& final(self).player@ == (PlayerView {
                    x: column_right(old(self).player@.x, width_of(cells(*frame))),
                    ..old(self).player@
                })
                &&& final(self).invaders@ == old(self).invaders@
            },
            !old(self).in_menu && (key == Key::Up || key == Key::Down) ==> {
                &&& r == Reaction::Nothing
                &&& final(self).player@ == old(self).player@
                &&& final(self).invaders@ == old(self).invaders@
            },
            !old(self).in_menu && key == Key::Fire && r == Reaction::Play(Cue::Pew) ==> {
                &&& final(self).player@ == (PlayerView {
                    shots: old(self).player@.shots.push(
                        muzzle(old(self).player@.x, old(self).player@.y),
                    ),
                    fire_rate: old(self).player@.fire_rate.restarted(),
                    ..old(self).player@
                })
                &&& final(self).invaders@ == (InvadersView {
                    shots_fired: if old(self).invaders@.shots_fired < u32::MAX {
                        old(self).invaders@.shots_fired + 1
                    } else {
                        old(self).invaders@.shots_fired
                    },
                    ..old(self).invaders@
                })
            },
            !old(self).in_menu && key == Key::Fire && r != Reaction::Play(Cue::Pew) ==> {
                &&& r == Reaction::Nothing
                &&& final(self).player@ == old(self).player@
                &&& final(self).invaders@ == old(self).invaders@
            },
            !old(self).in_menu && key == Key::Quit ==> {
                &&& r == Reaction::Play(Cue::Lose)
                &&& final(self).in_menu
                &&& final(self).player@ == fresh_player(
                    old(self).difficulty,
                    width_of(cells(*frame)),
                    height_of(cells(*frame)),
                )
                &&& final(self).invaders@ == fresh_swarm(
                    old(self).difficulty,
                    width_of(cells(*frame)),
                    height_of(cells(*frame)),
                )
            },
            !old(self).in_menu ==> final(self).difficulty == old(self).difficulty,
            final(self).score@ == old(self).score@,
            final(self).level@ == old(self).level@,
            r == Reaction::Exit ==> old(self).in_menu,
    {
        if self.in_menu {
            match key {
                Key::Up => self.menu.change_option(true),
                Key::Down => self.menu.change_option(false),
                Key::Left => self.menu.toggle_difficulty(true),
                Key::Right => self.menu.toggle_difficulty(false),
                Key::Fire => {
                    if self.menu.selection == 0 {
                        self.difficulty = Difficulty::new(self.menu.selected_level());
                        self.player = Player::new(&self.difficulty);
                        self.player.center(frame);
                        self.invaders = Invaders::new(&self.difficulty);
                        self.invaders.populate(frame);
                        self.in_menu = false;
                    } else {
                        return Reaction::Exit;
                    }
                },
                Key::Quit => {},
            }
            Reaction::Nothing
        } else {
            match key {
                Key::Left => {
                    self.player.move_left(frame);
                    Reaction::Nothing
                },
                Key::Right => {
                    self.player.move_right(frame);
                    Reaction::Nothing
                },
                Key::Fire => {
                    if self.player.shoot() {
                        self.invaders.record_shot();
                        Reaction::Play(Cue::Pew)
                    } else {
                        Reaction::Nothing
                    }
                },
                Key::Quit => {
                    self.reset(frame);
                    Reaction::Play(Cue::Lose)
                },
                _ => Reaction::Nothing,
            }
        }
    }

    /// Lets `delta` milliseconds pass in a run: the player and its shots, then
    /// the swarm, then the hits, which add to the score. Returns the sounds
    /// that this asks for. In the menu nothing changes.
    pub fn step(&mut self, delta: u64, frame: &Frame) -> (cues: Vec<Cue>)
        requires
            old(self).wf(),
        ensures
            final(self).wf(),
            old(self).in_menu ==> cues@.len() == 0 && final(self).player@ == old(self).player@
                && final(self).invaders@ == old(self).invaders@ && final(self).score@ == old(self).score@,
            !old(self).in_menu ==> ({
                let p = player_after(old(self).player@, delta as nat);
                let v = swarm_after(old(self).invaders@, delta as nat, width_of(cells(*frame)));
                let c = collide(p.shots, v.army, v.popped);
                &&& final(self).player@ == (PlayerView { shots: c.0, ..p })
                &&& final(self).invaders@ == (InvadersView { army: c.1, popped: c.3, ..v })
                &&& final(self).score@ == if old(self).score@ + capped(c.2) > u32::MAX {
                    u32::MAX as nat
                } else {
                    (old(self).score@ + capped(c.2)) as nat
                }
                &&& cues@.contains(Cue::Move) <==> (old(self).invaders@.can_descend()
                    && old(self).invaders@.steps(delta as nat))
                &&& cues@.contains(Cue::Explode) <==> capped(c.2) > 0
            }),
            final(self).in_menu == old(self).in_menu,
    {
        let mut cues: Vec<Cue> = Vec::new();
        if self.in_menu {
            assert(cues@.len() == 0);
            return cues;
        }
        let ghost before_player = self.player@;
        let ghost swarm_before = self.invaders@;
        let ghost score_before = self.score@;
        let ghost w = width_of(cells(*frame));
        self.player.update(delta);
        let mut moved = false;
        if self.invaders.can_descend() {
            moved = self.invaders.update(delta, frame);
        }
        assert(self.player@ == player_after(before_player, delta as nat));
        assert(self.invaders@ == swarm_after(swarm_before, delta as nat, w));
        assert(moved == (swarm_before.can_descend() && swarm_before.steps(delta as nat)));
        let ghost c = collide(self.player@.shots, self.invaders@.army, self.invaders@.popped);
        let hits = self.player.detect_hits(&mut self.invaders);
        assert(hits == capped(c.2));
        if moved {
            cues.push(Cue::Move);
        }
        if hits > 0 {
            cues.push(Cue::Explode);
            self.score.add_points(hits);
        }
        proof {
            if moved && hits > 0 {
                assert(cues@ == seq![Cue::Move, Cue::Explode]);
                assert(cues@[0] == Cue::Move);
                assert(cues@[1] == Cue::Explode);
            } else if moved {
                assert(cues@ == seq![Cue::Move]);
                assert(cues@[0] == Cue::Move);
                assert(!cues@.contains(Cue::Explode));
            } else if hits > 0 {
                assert(cues@ == seq![Cue::Explode]);
                assert(cues@[0] == Cue::Explode);
                assert(!cues@.contains(Cue::Move));
            } else {
                assert(cues@.len() == 0);
            }
            assert(capped(c.2) == hits as nat);
            if hits == 0 {
                assert(self.score@ == score_before);
                assert(score_before + capped(c.2) <= u32::MAX) by {
                    assert(score_before <= u32::MAX) by {
                        self.score.lemma_bounded();
                    }
                }
            }
        }
        cues
    }

    /// Settles a tick: a cleared swarm ends the game after the final level and
    /// otherwise brings the next level; a swarm at the bottom sends the game
    /// back to the menu.
    pub fn conclude(&mut self, frame: &Frame) -> (r: Verdict)
        requires
            old(self).wf(),
        ensures
            final(self).wf(),
            old(self).in_menu ==> r == Verdict::Continue,
            !old(self).in_menu && old(self).invaders@.army.len() == 0 ==> (r == Verdict::Won
                <==> old(self).level@ >= FINAL_LEVEL),
            !old(self).in_menu && old(self).invaders@.army.len() == 0 && old(self).level@
                < FINAL_LEVEL ==> {
                &&& r == Verdict::LevelUp
                &&& final(self).level@ == old(self).level@ + 1
                &&& final(self).invaders@.army == layout(
                    final(self).invaders@.level,
                    width_of(cells(*frame)),
                    height_of(cells(*frame)),
                )
                &&& final(self).invaders@.level == if old(self).invaders@.level < u16::MAX {
                    old(self).invaders@.level + 1
                } else {
                    old(self).invaders@.level
                }
            },
            !old(self).in_menu && old(self).invaders@.army.len() > 0 && (exists|i: int|
                0 <= i < old(self).invaders@.army.len() && (#[trigger] old(self).invaders@.army[i]).y + 1 >= height_of(cells(*frame))) ==> {
                &&& r == Verdict::Lost
                &&& final(self).in_menu
                &&& final(self).player@ == fresh_player(
                    old(self).difficulty,
                    width_of(cells(*frame)),
                    height_of(cells(*frame)),
                )
                &&& final(self).invaders@ == fresh_swarm(
                    old(self).difficulty,
                    width_of(cells(*frame)),
                    height_of(cells(*frame)),
                )
            },
            r == Verdict::Continue ==> final(self).invaders@ == old(self).invaders@
                && final(self).player@ == old(self).player@ && final(self).in_menu == old(self).in_menu,
            !old(self).in_menu && old(self).invaders@.army.len() > 0 && !(exists|i: int|
                0 <= i < old(self).invaders@.army.len() && (#[trigger] old(self).invaders@.army[i]).y + 1 >= height_of(cells(*frame))) ==> r == Verdict::Continue,
    {
        if self.in_menu {
            return Verdict::Continue;
        }
        if self.invaders.all_killed() {
            if self.level.increment_level() {
                return Verdict::Won;
            }
            self.invaders.next_level(frame);
            Verdict::LevelUp
        } else if self.invaders.reached_bottom(frame) {
            self.reset(frame);
            Verdict::Lost
        } else {
            Verdict::Continue
        }
    }
}

impl Drawable for Game {
    open spec fn drawn(&self, g: Seq<Seq<char>>) -> Seq<Seq<char>> {
        if self.in_menu {
            self.menu.drawn(g)
        } else {
            self.level.drawn(self.score.drawn(self.invaders.drawn(self.player.drawn(g))))
        }
    }

    fn draw(&self, frame: &mut Frame) {
        if self.in_menu {
            self.menu.draw(frame);
        } else {
            self.player.draw(frame);
            self.invaders.draw(frame);
            self.score.draw(frame);
            self.level.draw(frame);
        }
    }
}

} // verus!
