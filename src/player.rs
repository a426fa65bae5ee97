use vstd::prelude::*;
use crate::difficulty::Difficulty;
use crate::frame::{cells, height_of, put, set_cell, width_of, Drawable, Frame};
use crate::invaders::{capped, distinct_cells, Invader, Invaders, InvadersView};
use crate::shot::{
    advance_shots, draw_shots, lemma_survivors_len, paint_shots, survivors, views, Shot,
    ShotView,
};
use crate::timer::{Timer, TimerView};

verus! {

/// How many shots may be in flight when the difficulty sets no limit.
pub const DEFAULT_MAX_SHOTS: usize = 2;

/// What a `Player` holds.
pub struct PlayerView {
    pub x: nat,
    pub y: nat,
    pub shots: Seq<ShotView>,
    pub fire_rate: TimerView,
    pub max_shots: nat,
}

impl PlayerView {
    /// The pool holds no more shots than the configured maximum.
    pub open spec fn wf(self) -> bool {
        self.shots.len() <= self.max_shots
    }
}

/// Whether shot `s` is travelling and some member of `army` stands in its cell.
pub open spec fn struck(army: Seq<Invader>, s: ShotView) -> bool {
    !s.exploding && exists|i: int| 0 <= i < army.len() && army[i].x == s.x && army[i].y == s.y
}

/// The index of the member of `army` in the cell of `s`, where `struck` holds.
pub open spec fn target(army: Seq<Invader>, s: ShotView) -> int {
    choose|i: int| 0 <= i < army.len() && army[i].x == s.x && army[i].y == s.y
}

/// The reveal count after the member at index `i` is removed: one lower when
/// that member was among the revealed ones.
pub open spec fn count_after_removal(popped: nat, i: int) -> nat {
    if i < popped {
        (popped - 1) as nat
    } else {
        popped
    }
}

/// Shots checked in order against the swarm: a travelling shot on a member's
/// cell removes that member, scores its points and starts exploding. Gives the
/// shots, the swarm left, the points scored and the swarm's reveal count,
/// starting from `popped`.
pub open spec fn collide(shots: Seq<ShotView>, army: Seq<Invader>, popped: nat) -> (
    Seq<ShotView>,
    Seq<Invader>,
    nat,
    nat,
)
    decreases shots.len(),
{
    if shots.len() == 0 {
        (shots, army, 0, popped)
    } else {
        let prev = collide(shots.drop_last(), army, popped);
        let s = shots.last();
        if struck(prev.1, s) {
            let i = target(prev.1, s);
            (
                prev.0.push(s.exploded()),
                prev.1.remove(i),
                (prev.2 + prev.1[i].points) as nat,
                count_after_removal(prev.3, i),
            )
        } else {
            (prev.0.push(s), prev.1, prev.2, prev.3)
        }
    }
}

/// The column one step left of `x` in a frame `w` columns wide: from column 1
/// or 0 it wraps to the second-to-last column.
pub open spec fn column_left(x: nat, w: nat) -> nat {
    if x <= 1 {
        if w >= 2 {
            (w - 2) as nat
        } else {
            0
        }
    } else {
        (x - 1) as nat
    }
}

/// The column one step right of `x` in a frame `w` columns wide: from the
/// second-to-last column on it wraps to column 0.
pub open spec fn column_right(x: nat, w: nat) -> nat {
    if x + 2 >= w {
        0
    } else {
        x + 1
    }
}

/// Where a shot fired from `(x, y)` starts: the row above, or row 0 from row 0.
pub open spec fn muzzle(x: nat, y: nat) -> ShotView {
    ShotView::launched(x, if y > 0 { (y - 1) as nat } else { 0 })
}

/// The player's cannon: its cell, its shots in flight and its fire-rate timer.
pub struct Player {
    x: usize,
    y: usize,
    shots: Vec<Shot>,
    fire_rate_timer: Timer,
    max_shots: usize,
}

impl View for Player {
    type V = PlayerView;

    closed spec fn view(&self) -> PlayerView {
        PlayerView {
            x: self.x as nat,
            y: self.y as nat,
            shots: views(self.shots@),
            fire_rate: self.fire_rate_timer@,
            max_shots: self.max_shots as nat,
        }
    }
}

impl Player {
    pub fn new(difficulty: &Difficulty) -> (r: Self)
        ensures
            r@ == (PlayerView {
                x: 0,
                y: 0,
                shots: Seq::empty(),
                fire_rate: TimerView::started(difficulty.player_fire_rate as nat),
                max_shots: match difficulty.max_shots {
                    Some(m) => m as nat,
                    None => DEFAULT_MAX_SHOTS as nat,
                },
            }),
            r@.wf(),
    {
        let max_shots = match difficulty.max_shots {
            Some(m) => m,
            None => DEFAULT_MAX_SHOTS,
        };
        let r = Self {
            x: 0,
            y: 0,
            shots: Vec::new(),
            fire_rate_timer: Timer::new(difficulty.player_fire_rate),
            max_shots,
        };
        assert(r@.shots =~= Seq::empty());
        r
    }

    /// Puts the player in the middle column, three rows above the bottom of `frame`.
    pub fn center(&mut self, frame: &Frame)
        ensures
            final(self)@ == (PlayerView {
                x: width_of(cells(*frame)) / 2,
                y: if height_of(cells(*frame)) >= 3 {
                    (height_of(cells(*frame)) - 3) as nat
                } else {
                    0
                },
                ..old(self)@
            }),
    {
        let h = if frame.len() > 0 {
            frame[0].len()
        } else {
            0
        };
        self.x = frame.len() / 2;
        self.y = h.saturating_sub(3);
    }

    /// One column left; from column 1 or 0 the player wraps to the second-to-last column.
    pub fn move_left(&mut self, frame: &Frame)
        ensures
            final(self)@ == (PlayerView {
                x: column_left(old(self)@.x, width_of(cells(*frame))),
                ..old(self)@
            }),
    {
        if self.x <= 1 {
            self.x = frame.len().saturating_sub(2);
        } else {
            self.x -= 1;
        }
    }

    /// One column right; from the second-to-last column on, the player wraps to column 0.
    pub fn move_right(&mut self, frame: &Frame)
        ensures
            final(self)@ == (PlayerView {
                x: column_right(old(self)@.x, width_of(cells(*frame))),
                ..old(self)@
            }),
    {
        if self.x >= frame.len().saturating_sub(2) {
            self.x = 0;
        } else {
            self.x += 1;
        }
    }

    /// Fires a shot from the row above the player when the pool has room and
    /// the fire-rate timer has run out; returns whether it fired.
    pub fn shoot(&mut self) -> (fired: bool)
        ensures
            fired == (old(self)@.shots.len() < old(self)@.max_shots && old(self)@.fire_rate.finished),
            fired ==> final(self)@ == (PlayerView {
                shots: old(self)@.shots.push(muzzle(old(self)@.x, old(self)@.y)),
                fire_rate: old(self)@.fire_rate.restarted(),
                ..old(self)@
            }),
            !fired ==> final(self)@ == old(self)@,
            old(self)@.wf() ==> final(self)@.wf(),
    {
        if self.shots.len() < self.max_shots && self.fire_rate_timer.finished() {
            let ghost before = self.shots@;
            let s = Shot::new(self.x, self.y.saturating_sub(1));
            self.shots.push(s);
            assert(views(self.shots@) =~= views(before).push(s@));
            self.fire_rate_timer.reset();
            true
        } else {
            false
        }
    }

    /// Lets `delta` milliseconds pass for the fire-rate timer and every shot,
    /// then drops the shots that died.
    pub fn update(&mut self, delta: u64)
        ensures
            final(self)@ == (PlayerView {
                shots: survivors(old(self)@.shots, delta as nat),
                fire_rate: old(self)@.fire_rate.ticked(delta as nat),
                ..old(self)@
            }),
            old(self)@.wf() ==> final(self)@.wf(),
    {
        proof {
            lemma_survivors_len(views(self.shots@), delta as nat);
        }
        self.fire_rate_timer.tick(delta);
        let kept = advance_shots(&self.shots, delta);
        self.shots = kept;
    }

    pub fn x(&self) -> (r: usize)
        ensures
            r == self@.x,
    {
        self.x
    }

    pub fn y(&self) -> (r: usize)
        ensures
            r == self@.y,
    {
        self.y
    }

    pub fn max_shots(&self) -> (r: usize)
        ensures
            r == self@.max_shots,
    {
        self.max_shots
    }

    /// The shots in flight, in the order they were fired.
    pub fn shots(&self) -> (r: &Vec<Shot>)
        ensures
            views(r@) == self@.shots,
    {
        &self.shots
    }

    /// Checks each travelling shot, in order, against the swarm: a hit removes
    /// the member, adds its points and makes the shot explode. Returns the
    /// points scored, held at `u16::MAX`.
    pub fn detect_hits(&mut self, invaders: &mut Invaders) -> (points: u16)
        requires
            old(invaders)@.wf(),
        ensures
            final(self)@ == (PlayerView {
                shots: collide(old(self)@.shots, old(invaders)@.army, old(invaders)@.popped).0,
                ..old(self)@
            }),
            final(invaders)@ == (InvadersView {
                army: collide(old(self)@.shots, old(invaders)@.army, old(invaders)@.popped).1,
                popped: collide(old(self)@.shots, old(invaders)@.army, old(invaders)@.popped).3,
                ..old(invaders)@
            }),
            points == capped(collide(old(self)@.shots, old(invaders)@.army, old(invaders)@.popped).2),
            final(invaders)@.wf(),
            old(self)@.wf() ==> final(self)@.wf(),
    {
        let ghost before_player = self@;
        let ghost swarm0 = invaders@;
        let ghost shots0 = self@.shots;
        let mut total: u16 = 0;
        let mut i: usize = 0;
        while i < self.shots.len()
            invariant
                i <= self.shots.len() == shots0.len(),
                shots0 == before_player.shots,
                self@ == (PlayerView { shots: self@.shots, ..before_player }),
                self@.shots.take(i as int) == collide(shots0.take(i as int), swarm0.army, swarm0.popped).0,
                forall|k: int| i <= k < shots0.len() ==> self@.shots[k] == shots0[k],
                invaders@ == (InvadersView {
                    army: collide(shots0.take(i as int), swarm0.army, swarm0.popped).1,
                    popped: collide(shots0.take(i as int), swarm0.army, swarm0.popped).3,
                    ..swarm0
                }),
                invaders@.wf(),
                total == capped(collide(shots0.take(i as int), swarm0.army, swarm0.popped).2),
            decreases self.shots.len() - i,
        {
            let ghost prev = collide(shots0.take(i as int), swarm0.army, swarm0.popped);
            assert(shots0.take(i + 1).drop_last() =~= shots0.take(i as int));
            assert(shots0.take(i + 1).last() == shots0[i as int]);
            assert(self@.shots[i as int] == self.shots@[i as int]@);
            let mut s = self.shots[i];
            let ghost before = self@.shots;
            if !s.exploding {
                let h = invaders.kill_invader_at(s.x, s.y);
                proof {
                    if struck(prev.1, s@) {
                        let j = target(prev.1, s@);
                        let k = choose|k: int|
                            0 <= k < prev.1.len() && crate::invaders::occupies(prev.1[k], s.x, s.y)
                                && h == prev.1[k].points && invaders@ == (InvadersView {
                                army: prev.1.remove(k),
                                popped: count_after_removal(prev.3, k),
                                ..swarm0
                            });
                        assert(distinct_cells(prev.1));
                        assert(k == j);
                    } else {
                        assert(!(exists|k: int|
                            0 <= k < prev.1.len() && crate::invaders::occupies(
                                prev.1[k],
                                s.x,
                                s.y,
                            )));
                    }
                }
                if h > 0 {
                    total = total.saturating_add(h);
                    s.explode();
                    self.shots.set(i, s);
                    assert(self@.shots =~= before.update(i as int, s@));
                }
            }
            i += 1;
            assert(self@.shots.take(i as int) =~= collide(shots0.take(i as int), swarm0.army, swarm0.popped).0);
        }
        assert(shots0.take(i as int) =~= shots0);
        assert(self@.shots =~= self@.shots.take(i as int));
        total
    }
}

impl Default for Player {
    fn default() -> (r: Self)
        ensures
            r@ == (PlayerView {
                x: 0,
                y: 0,
                shots: Seq::empty(),
                fire_rate: TimerView::started(500),
                max_shots: 2,
            }),
            r@.wf(),
    {
        Self::new(&Difficulty::default())
    }
}

impl Drawable for Player {
    open spec fn drawn(&self, g: Seq<Seq<char>>) -> Seq<Seq<char>> {
        paint_shots(put(g, self@.x as int, self@.y as int, 'A'), self@.shots)
    }

    fn draw(&self, frame: &mut Frame) {
        set_cell(frame, self.x, self.y, 'A');
        draw_shots(&self.shots, frame);
    }
}

} // verus!
