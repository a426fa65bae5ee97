use vstd::prelude::*;
use crate::frame::{cells, put, set_cell, Drawable, Frame};
use crate::timer::{total, Timer, TimerView};

verus! {

/// Milliseconds between two steps of a travelling shot.
pub const SHOT_STEP_MS: u64 = 50;

/// Milliseconds that an explosion stays on screen.
pub const EXPLOSION_MS: u64 = 250;

/// Milliseconds between two shots of a `ShotManager`.
pub const MANAGER_FIRE_RATE_MS: u64 = 333;

/// What a `Shot` holds.
pub struct ShotView {
    pub x: nat,
    pub y: nat,
    pub exploding: bool,
    pub timer: TimerView,
}

impl ShotView {
    pub open spec fn launched(x: nat, y: nat) -> ShotView {
        ShotView { x, y, exploding: false, timer: TimerView::started(SHOT_STEP_MS as nat) }
    }

    /// The shot after `delta` milliseconds: a travelling shot whose timer runs
    /// out moves one row up (never above row 0) and restarts its timer; an
    /// exploding one only lets its timer run.
    pub open spec fn updated(self, delta: nat) -> ShotView {
        let t = self.timer.ticked(delta);
        if t.finished && !self.exploding {
            ShotView {
                y: if self.y > 0 { (self.y - 1) as nat } else { 0 },
                timer: t.restarted(),
                ..self
            }
        } else {
            ShotView { timer: t, ..self }
        }
    }

    /// The shot after one update for each length in `deltas`, in order.
    pub open spec fn updated_all(self, deltas: Seq<u64>) -> ShotView
        decreases deltas.len(),
    {
        if deltas.len() == 0 {
            self
        } else {
            self.updated_all(deltas.drop_last()).updated(deltas.last() as nat)
        }
    }

    pub open spec fn exploded(self) -> ShotView {
        ShotView {
            exploding: true,
            timer: TimerView::started(EXPLOSION_MS as nat),
            ..self
        }
    }

    pub open spec fn is_dead(self) -> bool {
        (self.exploding && self.timer.finished) || self.y == 0
    }
}

/// A started timer that is ticked by `deltas` has used up the sum of them.
pub proof fn lemma_countdown(duration: nat, deltas: Seq<u64>)
    requires
        duration > 0,
    ensures
        TimerView::started(duration).ticked_all(deltas) == (TimerView {
            duration,
            remaining: if total(deltas) < duration { (duration - total(deltas)) as nat } else { 0 },
            finished: total(deltas) >= duration,
        }),
    decreases deltas.len(),
{
    if deltas.len() > 0 {
        lemma_countdown(duration, deltas.drop_last());
    }
}

/// Once a shot explodes it stays where it is, and it is dead exactly when the
/// explosion time has run out (or when it stands on the top row).
pub proof fn lemma_explosion_settles(s: ShotView, deltas: Seq<u64>)
    ensures
        s.exploded().updated_all(deltas).x == s.x,
        s.exploded().updated_all(deltas).y == s.y,
        s.exploded().updated_all(deltas).exploding,
        s.exploded().updated_all(deltas).is_dead() <==> (s.y == 0 || total(deltas)
            >= EXPLOSION_MS),
    decreases deltas.len(),
{
    lemma_explosion_timer(s, deltas);
    lemma_countdown(EXPLOSION_MS as nat, deltas);
}

proof fn lemma_explosion_timer(s: ShotView, deltas: Seq<u64>)
    ensures
        s.exploded().updated_all(deltas) == (ShotView {
            timer: TimerView::started(EXPLOSION_MS as nat).ticked_all(deltas),
            ..s.exploded()
        }),
    decreases deltas.len(),
{
    if deltas.len() > 0 {
        lemma_explosion_timer(s, deltas.drop_last());
    }
}

/// One projectile: its cell, whether it is exploding, and its timer.
#[derive(Clone, Copy, Debug)]
pub struct Shot {
    pub x: usize,
    pub y: usize,
    pub exploding: bool,
    pub timer: Timer,
}

impl View for Shot {
    type V = ShotView;

    open spec fn view(&self) -> ShotView {
        ShotView { x: self.x as nat, y: self.y as nat, exploding: self.exploding, timer: self.timer@ }
    }
}

impl Shot {
    pub fn new(x: usize, y: usize) -> (r: Self)
        ensures
            r@ == ShotView::launched(x as nat, y as nat),
    {
        Self { x, y, exploding: false, timer: Timer::new(SHOT_STEP_MS) }
    }

    pub fn update(&mut self, delta: u64)
        ensures
            final(self)@ == old(self)@.updated(delta as nat),
    {
        self.timer.tick(delta);
        if self.timer.finished() && !self.exploding {
            if self.y > 0 {
                self.y -= 1;
            }
            self.timer.reset();
        }
    }

    pub fn explode(&mut self)
        ensures
            final(self)@ == old(self)@.exploded(),
    {
        self.exploding = true;
        self.timer = Timer::new(EXPLOSION_MS);
    }

    pub fn dead(&self) -> (r: bool)
        ensures
            r == self@.is_dead(),
    {
        (self.exploding && self.timer.finished()) || self.y == 0
    }
}

/// The views of a list of shots.
pub open spec fn views(s: Seq<Shot>) -> Seq<ShotView> {
    s.map_values(|x: Shot| x@)
}

/// The shots of `s` that are still alive after each is updated by `delta`
/// milliseconds, in their order.
pub open spec fn survivors(s: Seq<ShotView>, delta: nat) -> Seq<ShotView>
    decreases s.len(),
{
    if s.len() == 0 {
        s
    } else {
        let kept = survivors(s.drop_last(), delta);
        let u = s.last().updated(delta);
        if u.is_dead() {
            kept
        } else {
            kept.push(u)
        }
    }
}

pub proof fn lemma_survivors_len(s: Seq<ShotView>, delta: nat)
    ensures
        survivors(s, delta).len() <= s.len(),
    decreases s.len(),
{
    if s.len() > 0 {
        lemma_survivors_len(s.drop_last(), delta);
    }
}

/// Each shot updated by `delta` milliseconds, without those that died.
pub fn advance_shots(shots: &Vec<Shot>, delta: u64) -> (r: Vec<Shot>)
    ensures
        views(r@) == survivors(views(shots@), delta as nat),
{
    let mut kept: Vec<Shot> = Vec::new();
    let mut i: usize = 0;
    while i < shots.len()
        invariant
            i <= shots.len(),
            views(kept@) == survivors(views(shots@.take(i as int)), delta as nat),
        decreases shots.len() - i,
    {
        let mut s = shots[i];
        s.update(delta);
        let ghost before = kept@;
        assert(views(shots@.take(i + 1)).drop_last() =~= views(shots@.take(i as int)));
        assert(views(shots@.take(i + 1)).last() == shots@[i as int]@);
        if !s.dead() {
            kept.push(s);
            assert(views(kept@) =~= views(before).push(s@));
        }
        i += 1;
    }
    assert(shots@.take(i as int) =~= shots@);
    kept
}

/// What a `ShotManager` holds.
pub struct ShotManagerView {
    pub shots: Seq<ShotView>,
    pub fire_rate: TimerView,
}

/// A pool of shots gated by a fire-rate timer.
pub struct ShotManager {
    shots: Vec<Shot>,
    fire_rate_timer: Timer,
}

impl View for ShotManager {
    type V = ShotManagerView;

    closed spec fn view(&self) -> ShotManagerView {
        ShotManagerView { shots: views(self.shots@), fire_rate: self.fire_rate_timer@ }
    }
}

impl ShotManager {
    pub fn new() -> (r: Self)
        ensures
            r@ == (ShotManagerView {
                shots: Seq::empty(),
                fire_rate: TimerView::started(MANAGER_FIRE_RATE_MS as nat),
            }),
    {
        let r = Self { shots: Vec::new(), fire_rate_timer: Timer::new(MANAGER_FIRE_RATE_MS) };
        assert(r@.shots =~= Seq::empty());
        r
    }

    /// Launches a shot at `(x, y)` when fewer than `max_shots` are in flight and
    /// the fire-rate timer has run out, restarting that timer.
    pub fn try_fire_shot(&mut self, x: usize, y: usize, max_shots: usize)
        ensures
            old(self)@.shots.len() < max_shots && old(self)@.fire_rate.finished ==> final(self)@
                == (ShotManagerView {
                shots: old(self)@.shots.push(ShotView::launched(x as nat, y as nat)),
                fire_rate: old(self)@.fire_rate.restarted(),
            }),
            !(old(self)@.shots.len() < max_shots && old(self)@.fire_rate.finished) ==> final(self)@
                == old(self)@,
    {
        if self.shots.len() < max_shots && self.fire_rate_timer.finished() {
            let ghost before = self.shots@;
            let s = Shot::new(x, y);
            self.shots.push(s);
            assert(views(self.shots@) =~= views(before).push(s@));
            self.fire_rate_timer.reset();
        }
    }

    /// Lets `delta` milliseconds pass for the fire-rate timer and every shot,
    /// then drops the shots that died.
    pub fn update(&mut self, delta: u64)
        ensures
            final(self)@ == (ShotManagerView {
                shots: survivors(old(self)@.shots, delta as nat),
                fire_rate: old(self)@.fire_rate.ticked(delta as nat),
            }),
    {
        self.fire_rate_timer.tick(delta);
        self.shots = advance_shots(&self.shots, delta);
    }
}

/// The glyph of a shot: `*` while it explodes, `|` while it travels.
pub open spec fn shot_glyph(s: ShotView) -> char {
    if s.exploding {
        '*'
    } else {
        '|'
    }
}

/// The grid after each shot of `s`, in order, is drawn on it.
pub open spec fn paint_shots(g: Seq<Seq<char>>, s: Seq<ShotView>) -> Seq<Seq<char>>
    decreases s.len(),
{
    if s.len() == 0 {
        g
    } else {
        put(paint_shots(g, s.drop_last()), s.last().x as int, s.last().y as int, shot_glyph(s.last()))
    }
}

impl Drawable for Shot {
    open spec fn drawn(&self, g: Seq<Seq<char>>) -> Seq<Seq<char>> {
        put(g, self.x as int, self.y as int, shot_glyph(self@))
    }

    fn draw(&self, frame: &mut Frame) {
        let glyph = if self.exploding {
            '*'
        } else {
            '|'
        };
        assert(glyph == shot_glyph(self@));
        set_cell(frame, self.x, self.y, glyph);
        assert(cells(*frame) == put(cells(*old(frame)), self.x as int, self.y as int, glyph));
        assert(cells(*frame) == self.drawn(cells(*old(frame))));
    }
}

/// Draws each shot of `shots` on `frame`, in order.
pub fn draw_shots(shots: &Vec<Shot>, frame: &mut Frame)
    ensures
        cells(*final(frame)) == paint_shots(cells(*old(frame)), views(shots@)),
{
    let ghost g0 = cells(*frame);
    let mut i: usize = 0;
    while i < shots.len()
        invariant
            i <= shots.len(),
            cells(*frame) == paint_shots(g0, views(shots@.take(i as int))),
        decreases shots.len() - i,
    {
        assert(views(shots@.take(i + 1)).drop_last() =~= views(shots@.take(i as int)));
        assert(views(shots@.take(i + 1)).last() == shots@[i as int]@);
        shots[i].draw(frame);
        i += 1;
    }
    assert(shots@.take(i as int) =~= shots@);
}

impl Drawable for ShotManager {
    open spec fn drawn(&self, g: Seq<Seq<char>>) -> Seq<Seq<char>> {
        paint_shots(g, self@.shots)
    }

    fn draw(&self, frame: &mut Frame) {
        draw_shots(&self.shots, frame);
    }
}

} // verus!
