use vstd::prelude::*;
use vstd::arithmetic::div_mod::{lemma_fundamental_div_mod, lemma_mod_bound};
use crate::difficulty::Difficulty;
use crate::frame::{cells, height_of, put, set_cell, width_of, Drawable, Frame};
use crate::timer::{Timer, TimerView};

verus! {

/// Milliseconds between two members of a new swarm becoming visible.
pub const POP_INTERVAL_MS: u64 = 200;

/// Columns between two members of a row.
pub const X_SPACING: usize = 3;

/// Rows between two rows of the swarm.
pub const Y_SPACING: usize = 2;

/// The shortest step interval that speeding up can reach, in milliseconds.
pub const MIN_MOVE_MS: u64 = 100;

/// How much each descent takes off the step interval, per level reached.
pub const SPEED_UP_PER_LEVEL_MS: u64 = 50;

/// How much each descent takes off the step interval, per shot fired this level.
pub const SPEED_UP_PER_SHOT_MS: u64 = 10;

/// One member of the swarm.
#[derive(Clone, Copy, Debug)]
pub struct Invader {
    pub x: usize,
    pub y: usize,
    pub points: u16,
    pub is_visible: bool,
}

/// The population of level `n`: 3, 5, and from there the sum of the two before.
pub open spec fn swarm_size(n: nat) -> nat
    decreases n,
{
    if n <= 1 {
        3
    } else if n == 2 {
        5
    } else {
        swarm_size((n - 1) as nat) + swarm_size((n - 2) as nat)
    }
}

pub open spec fn capped(v: nat) -> nat {
    if v > u16::MAX {
        u16::MAX as nat
    } else {
        v
    }
}

/// Members that fit side by side in a row of a frame `w` columns wide.
pub open spec fn per_row(w: nat) -> nat {
    if w >= 4 {
        ((w - 4) as nat) / (X_SPACING as nat)
    } else {
        0
    }
}

/// Rows of the swarm that fit in the upper half of a frame `h` rows high:
/// row `r` stands at `2 + 2 r`, which must stay below `h / 2`.
pub open spec fn row_count(h: nat) -> nat {
    if h / 2 >= 1 {
        ((h / 2 - 1) as nat) / 2
    } else {
        0
    }
}

/// How many members a population of level `level` places in a `w` by `h` frame.
pub open spec fn placed(level: nat, w: nat, h: nat) -> nat {
    let n = capped(swarm_size(level));
    let room = per_row(w) * row_count(h);
    if n < room {
        n
    } else {
        room
    }
}

/// The `i`-th member of a fresh swarm, for rows of `p` members.
pub open spec fn slot(i: nat, p: nat) -> Invader {
    Invader {
        x: (2 + X_SPACING * (i % p)) as usize,
        y: (2 + Y_SPACING * (i / p)) as usize,
        points: 1,
        is_visible: false,
    }
}

/// The members of a fresh swarm of level `level` in a `w` by `h` frame, in
/// reveal order: row by row, left to right.
pub open spec fn layout(level: nat, w: nat, h: nat) -> Seq<Invader> {
    Seq::new(placed(level, w, h), |i: int| slot(i as nat, per_row(w)))
}

/// No two members share a cell.
pub open spec fn distinct_cells(s: Seq<Invader>) -> bool {
    forall|i: int, j: int|
        0 <= i < s.len() && 0 <= j < s.len() && i != j ==> !(s[i].x == s[j].x && s[i].y == s[j].y)
}

/// Leftmost column of the members, 0 for none.
pub open spec fn leftmost(s: Seq<Invader>) -> nat
    decreases s.len(),
{
    if s.len() == 0 {
        0
    } else if s.len() == 1 {
        s[0].x as nat
    } else {
        let m = leftmost(s.drop_last());
        if s.last().x < m {
            s.last().x as nat
        } else {
            m
        }
    }
}

/// Rightmost column of the members, 0 for none.
pub open spec fn rightmost(s: Seq<Invader>) -> nat
    decreases s.len(),
{
    if s.len() == 0 {
        0
    } else if s.len() == 1 {
        s[0].x as nat
    } else {
        let m = rightmost(s.drop_last());
        if s.last().x > m {
            s.last().x as nat
        } else {
            m
        }
    }
}

/// Every member one row lower.
pub open spec fn lowered(s: Seq<Invader>) -> Seq<Invader> {
    Seq::new(s.len(), |i: int| Invader { y: (s[i].y + 1) as usize, ..s[i] })
}

/// Every member moved `d` columns sideways.
pub open spec fn shifted(s: Seq<Invader>, d: int) -> Seq<Invader> {
    Seq::new(s.len(), |i: int| Invader { x: (s[i].x + d) as usize, ..s[i] })
}

/// The step interval after a descent: `level * 50 + shots * 10` milliseconds
/// shorter, but never below the floor.
pub open spec fn sped_up(prior: nat, level: nat, shots: nat) -> nat {
    let cut = level * SPEED_UP_PER_LEVEL_MS + shots * SPEED_UP_PER_SHOT_MS;
    if prior >= cut + MIN_MOVE_MS {
        (prior - cut) as nat
    } else {
        MIN_MOVE_MS as nat
    }
}

/// The grid after each visible member of `s`, in order, is drawn with `c`.
pub open spec fn paint_members(g: Seq<Seq<char>>, s: Seq<Invader>, c: char) -> Seq<Seq<char>>
    decreases s.len(),
{
    if s.len() == 0 {
        g
    } else {
        let before = paint_members(g, s.drop_last(), c);
        if s.last().is_visible {
            put(before, s.last().x as int, s.last().y as int, c)
        } else {
            before
        }
    }
}

/// The glyph of the swarm: `x` while more than half of the current step
/// interval is left, `+` after that.
pub open spec fn march_glyph(t: TimerView) -> char {
    if t.duration > 0 && 2 * t.remaining > t.duration {
        'x'
    } else {
        '+'
    }
}

/// Whether a member stands at `(x, y)`.
pub open spec fn occupies(m: Invader, x: usize, y: usize) -> bool {
    m.x == x && m.y == y
}

/// What an `Invaders` holds.
pub struct InvadersView {
    pub army: Seq<Invader>,
    pub total_count: nat,
    pub move_timer: TimerView,
    pub pop_timer: TimerView,
    pub direction: int,
    pub level: nat,
    pub popped: nat,
    pub shots_fired: nat,
}

impl InvadersView {
    pub open spec fn wf(self) -> bool {
        &&& self.direction == 1 || self.direction == -1
        &&& self.level >= 1
        &&& self.army.len() <= self.total_count
        &&& self.popped <= self.army.len()
        &&& forall|i: int|
            0 <= i < self.army.len() ==> ((#[trigger] self.army[i]).is_visible <==> i
                < self.popped)
        &&& distinct_cells(self.army)
        &&& forall|i: int| 0 <= i < self.army.len() ==> (#[trigger] self.army[i]).x >= 1
        &&& forall|i: int| 0 <= i < self.army.len() ==> (#[trigger] self.army[i]).points >= 1
    }

    /// No member is on the last row that a `usize` can hold, so all can descend.
    pub open spec fn can_descend(self) -> bool {
        forall|i: int| 0 <= i < self.army.len() ==> (#[trigger] self.army[i]).y < usize::MAX
    }

    /// The state after the pop-in timer has run `delta` milliseconds: when it
    /// fires it restarts and the next hidden member (if any) becomes visible.
    pub open spec fn revealed(self, delta: nat) -> InvadersView {
        let t = self.pop_timer.ticked(delta);
        if !t.finished {
            InvadersView { pop_timer: t, ..self }
        } else if self.popped < self.army.len() {
            InvadersView {
                pop_timer: t.restarted(),
                army: self.army.update(
                    self.popped as int,
                    Invader { is_visible: true, ..self.army[self.popped as int] },
                ),
                popped: self.popped + 1,
                ..self
            }
        } else {
            InvadersView { pop_timer: t.restarted(), ..self }
        }
    }

    /// Whether the next step is a descent, in a frame `w` columns wide.
    pub open spec fn at_edge(self, w: nat) -> bool {
        if self.direction == -1 {
            self.army.len() > 0 && leftmost(self.army) == 1
        } else {
            rightmost(self.army) + 2 >= w
        }
    }

    /// Whether the movement timer fires after `delta` milliseconds.
    pub open spec fn steps(self, delta: nat) -> bool {
        self.move_timer.ticked(delta).finished
    }

    /// The state after the movement timer has run `delta` milliseconds: when it
    /// fires, the swarm either turns and descends (at an edge, speeding up) or
    /// moves one column in its direction.
    pub open spec fn marched(self, delta: nat, w: nat) -> InvadersView {
        let t = self.move_timer.ticked(delta);
        if !t.finished {
            InvadersView { move_timer: t, ..self }
        } else if self.at_edge(w) {
            InvadersView {
                move_timer: TimerView {
                    duration: sped_up(t.duration, self.level, self.shots_fired),
                    ..t.restarted()
                },
                direction: -self.direction,
                army: lowered(self.army),
                ..self
            }
        } else {
            InvadersView {
                move_timer: t.restarted(),
                army: shifted(self.army, self.direction),
                ..self
            }
        }
    }

    /// One update of `delta` milliseconds in a frame `w` columns wide.
    pub open spec fn stepped(self, delta: nat, w: nat) -> InvadersView {
        self.revealed(delta).marched(delta, w)
    }
}

/// The enemy formation and its timers.
pub struct Invaders {
    pub army: Vec<Invader>,
    pub total_count: usize,
    move_timer: Timer,
    pop_timer: Timer,
    direction: i32,
    level: u16,
    invaders_popped: usize,
    pub shots_fired: u32,
}

impl View for Invaders {
    type V = InvadersView;

    closed spec fn view(&self) -> InvadersView {
        InvadersView {
            army: self.army@,
            total_count: self.total_count as nat,
            move_timer: self.move_timer@,
            pop_timer: self.pop_timer@,
            direction: self.direction as int,
            level: self.level as nat,
            popped: self.invaders_popped as nat,
            shots_fired: self.shots_fired as nat,
        }
    }
}

proof fn lemma_slot_in_frame(i: nat, level: nat, w: nat, h: nat)
    requires
        i < placed(level, w, h),
    ensures
        per_row(w) > 0,
        1 <= slot(i, per_row(w)).x < w,
        slot(i, per_row(w)).y < h / 2,
        slot(i, per_row(w)).x == 2 + X_SPACING * (i % per_row(w)),
        slot(i, per_row(w)).y == 2 + Y_SPACING * (i / per_row(w)),
{
    let p = per_row(w);
    let r = row_count(h);
    if p == 0 {
        assert(p * r == 0);
    }
    assert(p > 0);
    lemma_mod_bound(i as int, p as int);
    assert(3 * p <= w - 4);
    let q = i / p;
    lemma_fundamental_div_mod(i as int, p as int);
    if q >= r {
        assert(i >= p * r) by (nonlinear_arith)
            requires
                i == p * q + i % p,
                q >= r,
                i % p >= 0,
                p > 0,
        ;
    }
    assert(q < r);
}

/// A fresh swarm has no two members in one cell, and every member lies within
/// the frame's columns and in its upper half.
pub proof fn lemma_layout_distinct(level: nat, w: nat, h: nat)
    ensures
        distinct_cells(layout(level, w, h)),
        forall|i: int|
            0 <= i < layout(level, w, h).len() ==> 1 <= (#[trigger] layout(level, w, h)[i]).x < w
                && layout(level, w, h)[i].y < h / 2 && layout(level, w, h)[i].points == 1
                && !layout(level, w, h)[i].is_visible,
{
    let s = layout(level, w, h);
    let p = per_row(w);
    assert forall|i: int| 0 <= i < s.len() implies 1 <= (#[trigger] s[i]).x < w && s[i].y < h / 2
        && s[i].points == 1 && !s[i].is_visible by {
        lemma_slot_in_frame(i as nat, level, w, h);
    }
    assert forall|i: int, j: int|
        0 <= i < s.len() && 0 <= j < s.len() && i != j implies !(s[i].x == s[j].x && s[i].y
        == s[j].y) by {
        lemma_slot_in_frame(i as nat, level, w, h);
        lemma_slot_in_frame(j as nat, level, w, h);
        if s[i].x == s[j].x && s[i].y == s[j].y {
            lemma_fundamental_div_mod(i, p as int);
            lemma_fundamental_div_mod(j, p as int);
            assert(i % (p as int) == j % (p as int));
            assert(i / (p as int) == j / (p as int));
        }
    }
}

/// Every member lies between the leftmost and the rightmost column, and the
/// leftmost column is one that a member stands in.
proof fn lemma_extremes(s: Seq<Invader>)
    ensures
        forall|i: int| 0 <= i < s.len() ==> leftmost(s) <= (#[trigger] s[i]).x <= rightmost(s),
        s.len() > 0 ==> exists|i: int| 0 <= i < s.len() && (#[trigger] s[i]).x == leftmost(s),
    decreases s.len(),
{
    if s.len() > 1 {
        let t = s.drop_last();
        lemma_extremes(t);
        assert forall|i: int| 0 <= i < s.len() implies leftmost(s) <= (#[trigger] s[i]).x
            <= rightmost(s) by {
            if i < s.len() - 1 {
                assert(s[i] == t[i]);
            }
        }
        if s.last().x >= leftmost(t) {
            let k = choose|k: int| 0 <= k < t.len() && (#[trigger] t[k]).x == leftmost(t);
            assert(s[k] == t[k]);
        } else {
            assert(s[s.len() - 1].x == leftmost(s));
        }
    } else if s.len() == 1 {
        assert(s[0].x == leftmost(s));
    }
}

fn leftmost_x(army: &Vec<Invader>) -> (r: usize)
    ensures
        r == leftmost(army@),
{
    if army.len() == 0 {
        return 0;
    }
    let mut m = army[0].x;
    let mut i: usize = 1;
    assert(army@.take(1)[0] == army@[0]);
    while i < army.len()
        invariant
            1 <= i <= army.len(),
            m == leftmost(army@.take(i as int)),
        decreases army.len() - i,
    {
        assert(army@.take(i + 1).drop_last() =~= army@.take(i as int));
        if army[i].x < m {
            m = army[i].x;
        }
        i += 1;
    }
    assert(army@.take(i as int) =~= army@);
    m
}

fn rightmost_x(army: &Vec<Invader>) -> (r: usize)
    ensures
        r == rightmost(army@),
{
    if army.len() == 0 {
        return 0;
    }
    let mut m = army[0].x;
    let mut i: usize = 1;
    assert(army@.take(1)[0] == army@[0]);
    while i < army.len()
        invariant
            1 <= i <= army.len(),
            m == rightmost(army@.take(i as int)),
        decreases army.len() - i,
    {
        assert(army@.take(i + 1).drop_last() =~= army@.take(i as int));
        if army[i].x > m {
            m = army[i].x;
        }
        i += 1;
    }
    assert(army@.take(i as int) =~= army@);
    m
}

fn lower_all(army: &mut Vec<Invader>)
    requires
        forall|i: int| 0 <= i < old(army)@.len() ==> (#[trigger] old(army)@[i]).y < usize::MAX,
    ensures
        final(army)@ == lowered(old(army)@),
{
    let ghost start = army@;
    let mut i: usize = 0;
    while i < army.len()
        invariant
            i <= army.len() == start.len(),
            forall|k: int| 0 <= k < start.len() ==> (#[trigger] start[k]).y < usize::MAX,
            forall|k: int| 0 <= k < i ==> army@[k] == lowered(start)[k],
            forall|k: int| i <= k < start.len() ==> army@[k] == start[k],
        decreases army.len() - i,
    {
        let mut m = army[i];
        assert(m == start[i as int]);
        m.y = m.y + 1;
        army.set(i, m);
        i += 1;
    }
    assert(army@ =~= lowered(start));
}

fn shift_all(army: &mut Vec<Invader>, d: i32)
    requires
        d == 1 || d == -1,
        forall|i: int|
            0 <= i < old(army)@.len() ==> 1 <= (#[trigger] old(army)@[i]).x + d < usize::MAX,
    ensures
        final(army)@ == shifted(old(army)@, d as int),
{
    let ghost start = army@;
    let mut i: usize = 0;
    while i < army.len()
        invariant
            d == 1 || d == -1,
            i <= army.len() == start.len(),
            forall|k: int| 0 <= k < start.len() ==> 1 <= (#[trigger] start[k]).x + d < usize::MAX,
            forall|k: int| 0 <= k < i ==> army@[k] == shifted(start, d as int)[k],
            forall|k: int| i <= k < start.len() ==> army@[k] == start[k],
        decreases army.len() - i,
    {
        let mut m = army[i];
        assert(m == start[i as int]);
        if d == 1 {
            m.x = m.x + 1;
        } else {
            m.x = m.x - 1;
        }
        army.set(i, m);
        i += 1;
    }
    assert(army@ =~= shifted(start, d as int));
}

impl Invaders {
    pub fn new(difficulty: &Difficulty) -> (r: Self)
        ensures
            r@ == (InvadersView {
                army: Seq::empty(),
                total_count: 0,
                move_timer: TimerView::started(difficulty.invader_speed as nat),
                pop_timer: TimerView::started(POP_INTERVAL_MS as nat),
                direction: 1,
                level: 1,
                popped: 0,
                shots_fired: 0,
            }),
            r@.wf(),
    {
        Self {
            army: Vec::new(),
            total_count: 0,
            move_timer: Timer::new(difficulty.invader_speed),
            pop_timer: Timer::new(POP_INTERVAL_MS),
            direction: 1,
            level: 1,
            invaders_popped: 0,
            shots_fired: 0,
        }
    }

    /// The population of level `n`, held at `u16::MAX` where it would not fit.
    pub fn series(n: u16) -> (r: u16)
        requires
            n >= 1,
        ensures
            r == capped(swarm_size(n as nat)),
    {
        if n == 1 {
            return 3;
        }
        if n == 2 {
            return 5;
        }
        let mut a: u16 = 3;
        let mut b: u16 = 5;
        let mut i: u32 = 3;
        while i <= n as u32
            invariant
                3 <= i <= n + 1,
                a == capped(swarm_size((i - 2) as nat)),
                b == capped(swarm_size((i - 1) as nat)),
            decreases n + 1 - i,
        {
            let next = a.saturating_add(b);
            assert(swarm_size(i as nat) == swarm_size((i - 1) as nat) + swarm_size(
                (i - 2) as nat,
            ));
            a = b;
            b = next;
            i += 1;
        }
        b
    }

    /// Lays out a fresh, hidden swarm for the current level in `frame`.
    pub fn populate(&mut self, frame: &Frame)
        requires
            old(self)@.wf(),
        ensures
            final(self)@ == (InvadersView {
                army: layout(
                    old(self)@.level,
                    width_of(cells(*frame)),
                    height_of(cells(*frame)),
                ),
                total_count: placed(
                    old(self)@.level,
                    width_of(cells(*frame)),
                    height_of(cells(*frame)),
                ),
                popped: 0,
                ..old(self)@
            }),
            final(self)@.wf(),
    {
        let w = frame.len();
        let h = if w > 0 {
            frame[0].len()
        } else {
            0
        };
        assert(w == width_of(cells(*frame)));
        assert(h == height_of(cells(*frame)));
        let n = Invaders::series(self.level) as usize;
        let p = w.saturating_sub(4) / X_SPACING;
        let rows = if h / 2 >= 1 {
            (h / 2 - 1) / 2
        } else {
            0
        };
        let count = match p.checked_mul(rows) {
            Some(room) => if n < room {
                n
            } else {
                room
            },
            None => n,
        };
        assert(count == placed(self.level as nat, w as nat, h as nat));
        let ghost target = layout(self.level as nat, w as nat, h as nat);
        let mut army: Vec<Invader> = Vec::new();
        let mut i: usize = 0;
        while i < count
            invariant
                i <= count,
                count == placed(self.level as nat, w as nat, h as nat),
                p == per_row(w as nat),
                target == layout(self.level as nat, w as nat, h as nat),
                army@ == target.take(i as int),
            decreases count - i,
        {
            proof {
                lemma_slot_in_frame(i as nat, self.level as nat, w as nat, h as nat);
            }
            let col = i % p;
            let row = i / p;
            army.push(
                Invader {
                    x: 2 + X_SPACING * col,
                    y: 2 + Y_SPACING * row,
                    points: 1,
                    is_visible: false,
                },
            );
            i += 1;
            assert(army@ =~= target.take(i as int));
        }
        assert(army@ =~= target);
        self.army = army;
        self.invaders_popped = 0;
        self.total_count = count;
        proof {
            lemma_layout_distinct(self.level as nat, w as nat, h as nat);
        }
    }

    /// The step interval that the next descent installs.
    fn calculate_speed(&self) -> (r: u64)
        ensures
            r == sped_up(self@.move_timer.duration, self@.level, self@.shots_fired),
    {
        let prior = self.move_timer.duration();
        let cut = self.level as u64 * SPEED_UP_PER_LEVEL_MS + self.shots_fired as u64
            * SPEED_UP_PER_SHOT_MS;
        if prior >= cut + MIN_MOVE_MS {
            prior - cut
        } else {
            MIN_MOVE_MS
        }
    }

    /// Advances the pop-in and the movement timers by `delta` milliseconds and
    /// carries out what fires; returns whether the swarm took a step.
    pub fn update(&mut self, delta: u64, frame: &Frame) -> (moved: bool)
        requires
            old(self)@.wf(),
            old(self)@.can_descend(),
        ensures
            final(self)@ == old(self)@.stepped(delta as nat, width_of(cells(*frame))),
            moved == old(self)@.steps(delta as nat),
            final(self)@.wf(),
    {
        let ghost w = width_of(cells(*frame));
        let ghost v0 = self@;
        self.pop_timer.tick(delta);
        if self.pop_timer.finished() {
            self.pop_timer.reset();
            if self.invaders_popped < self.army.len() {
                let mut m = self.army[self.invaders_popped];
                m.is_visible = true;
                self.army.set(self.invaders_popped, m);
                self.invaders_popped += 1;
            }
        }
        let ghost v1 = self@;
        assert(v1 == v0.revealed(delta as nat));
        assert(v1.wf()) by {
            assert forall|i: int| 0 <= i < v1.army.len() implies v1.army[i].x == v0.army[i].x
                && v1.army[i].y == v0.army[i].y && v1.army[i].points == v0.army[i].points by {}
        }
        self.move_timer.tick(delta);
        if self.move_timer.finished() {
            self.move_timer.reset();
            proof {
                lemma_extremes(self.army@);
            }
            let descend = if self.direction == -1 {
                self.army.len() > 0 && leftmost_x(&self.army) == 1
            } else {
                rightmost_x(&self.army) >= frame.len().saturating_sub(2)
            };
            assert(descend == v1.at_edge(w));
            if descend {
                self.direction = -self.direction;
                let d = self.calculate_speed();
                self.move_timer.set_duration(d);
                lower_all(&mut self.army);
            } else {
                proof {
                    if self.direction == -1 && self.army.len() > 0 {
                        let k = choose|k: int|
                            0 <= k < v1.army.len() && (#[trigger] v1.army[k]).x == leftmost(
                                v1.army,
                            );
                        assert(v1.army[k].x >= 1);
                    }
                }
                shift_all(&mut self.army, self.direction);
            }
            assert(self@ =~= v1.marched(delta as nat, w));
            return true;
        }
        assert(self@ =~= v1.marched(delta as nat, w));
        false
    }

    /// Counts one more shot fired during this level.
    pub fn record_shot(&mut self)
        ensures
            final(self)@ == (InvadersView {
                shots_fired: if old(self)@.shots_fired < u32::MAX {
                    old(self)@.shots_fired + 1
                } else {
                    old(self)@.shots_fired
                },
                ..old(self)@
            }),
    {
        self.shots_fired = self.shots_fired.saturating_add(1);
    }

    pub fn all_killed(&self) -> (r: bool)
        ensures
            r == (self@.army.len() == 0),
    {
        self.army.is_empty()
    }

    /// Whether some member stands on the last row of `frame`.
    pub fn reached_bottom(&self, frame: &Frame) -> (r: bool)
        ensures
            r == exists|i: int|
                0 <= i < self@.army.len() && (#[trigger] self@.army[i]).y + 1 >= height_of(
                    cells(*frame),
                ),
    {
        let h = if frame.len() > 0 {
            frame[0].len()
        } else {
            0
        };
        assert(h == height_of(cells(*frame)));
        let mut i: usize = 0;
        while i < self.army.len()
            invariant
                i <= self.army.len(),
                h == height_of(cells(*frame)),
                forall|k: int| 0 <= k < i ==> (#[trigger] self.army@[k]).y + 1 < h,
            decreases self.army.len() - i,
        {
            if self.army[i].y >= h.saturating_sub(1) {
                assert(self@.army[i as int].y + 1 >= h);
                return true;
            }
            i += 1;
        }
        false
    }

    /// Removes the member at `(x, y)`, if there is one, and returns its points;
    /// a removed member that was already revealed leaves the reveal count one
    /// lower. Returns 0 and changes nothing otherwise.
    pub fn kill_invader_at(&mut self, x: usize, y: usize) -> (r: u16)
        requires
            old(self)@.wf(),
        ensures
            final(self)@.wf(),
            (exists|i: int| 0 <= i < old(self)@.army.len() && occupies(old(self)@.army[i], x, y))
                ==> exists|i: int|
                0 <= i < old(self)@.army.len() && occupies(old(self)@.army[i], x, y) && r
                    == old(self)@.army[i].points && final(self)@ == (InvadersView {
                    army: old(self)@.army.remove(i),
                    popped: if i < old(self)@.popped {
                        (old(self)@.popped - 1) as nat
                    } else {
                        old(self)@.popped
                    },
                    ..old(self)@
                }),
            !(exists|i: int| 0 <= i < old(self)@.army.len() && occupies(old(self)@.army[i], x, y))
                ==> r == 0 && final(self)@ == old(self)@,
    {
        let mut i: usize = 0;
        while i < self.army.len()
            invariant
                i <= self.army.len(),
                self@ == old(self)@,
                self@.wf(),
                forall|k: int| 0 <= k < i ==> !occupies(#[trigger] self.army@[k], x, y),
            decreases self.army.len() - i,
        {
            if self.army[i].x == x && self.army[i].y == y {
                let ghost v0 = self@;
                let points = self.army[i].points;
                self.army.remove(i);
                if i < self.invaders_popped {
                    self.invaders_popped -= 1;
                }
                proof {
                    let s = v0.army.remove(i as int);
                    assert forall|a: int, b: int|
                        0 <= a < s.len() && 0 <= b < s.len() && a != b implies !(s[a].x == s[b].x
                        && s[a].y == s[b].y) by {
                        let a0 = if a < i { a } else { a + 1 };
                        let b0 = if b < i { b } else { b + 1 };
                        assert(s[a] == v0.army[a0]);
                        assert(s[b] == v0.army[b0]);
                    }
                    let p = if i < v0.popped {
                        (v0.popped - 1) as nat
                    } else {
                        v0.popped
                    };
                    assert forall|a: int| 0 <= a < s.len() implies (#[trigger] s[a]).x >= 1
                        && s[a].points >= 1 && (s[a].is_visible <==> a < p) by {
                        let a0 = if a < i { a } else { a + 1 };
                        assert(s[a] == v0.army[a0]);
                    }
                    assert(self@ =~= InvadersView { army: s, popped: p, ..v0 });
                }
                return points;
            }
            i += 1;
        }
        0
    }

    /// Whether every member can still move one row down.
    pub fn can_descend(&self) -> (r: bool)
        ensures
            r == self@.can_descend(),
    {
        let mut i: usize = 0;
        while i < self.army.len()
            invariant
                i <= self.army.len(),
                forall|k: int| 0 <= k < i ==> (#[trigger] self.army@[k]).y < usize::MAX,
            decreases self.army.len() - i,
        {
            if self.army[i].y == usize::MAX {
                assert(!self@.can_descend()) by {
                    assert(self@.army[i as int].y >= usize::MAX);
                }
                return false;
            }
            i += 1;
        }
        true
    }

    pub fn level(&self) -> (r: u16)
        ensures
            r == self@.level,
    {
        self.level
    }

    /// The swarm's direction: 1 to the right, -1 to the left.
    pub fn direction(&self) -> (r: i32)
        ensures
            r == self@.direction,
    {
        self.direction
    }

    /// The current step interval in milliseconds.
    pub fn move_duration(&self) -> (r: u64)
        ensures
            r == self@.move_timer.duration,
    {
        self.move_timer.duration()
    }

    /// How many members of the current swarm have been made visible.
    pub fn revealed_count(&self) -> (r: usize)
        ensures
            r == self@.popped,
    {
        self.invaders_popped
    }

    /// Moves on to the next level and lays out its swarm in `frame`.
    pub fn next_level(&mut self, frame: &Frame)
        requires
            old(self)@.wf(),
        ensures
            final(self)@.wf(),
            final(self)@.level == if old(self)@.level < u16::MAX {
                old(self)@.level + 1
            } else {
                old(self)@.level
            },
            final(self)@ == (InvadersView {
                army: layout(
                    final(self)@.level,
                    width_of(cells(*frame)),
                    height_of(cells(*frame)),
                ),
                total_count: placed(
                    final(self)@.level,
                    width_of(cells(*frame)),
                    height_of(cells(*frame)),
                ),
                popped: 0,
                shots_fired: 0,
                level: final(self)@.level,
                ..old(self)@
            }),
    {
        self.level = self.level.saturating_add(1);
        self.shots_fired = 0;
        self.populate(frame);
    }
}

impl Default for Invaders {
    fn default() -> (r: Self)
        ensures
            r@ == (InvadersView {
                army: Seq::empty(),
                total_count: 0,
                move_timer: TimerView::started(600),
                pop_timer: TimerView::started(POP_INTERVAL_MS as nat),
                direction: 1,
                level: 1,
                popped: 0,
                shots_fired: 0,
            }),
            r@.wf(),
    {
        Self::new(&Difficulty::default())
    }
}

impl Drawable for Invaders {
    open spec fn drawn(&self, g: Seq<Seq<char>>) -> Seq<Seq<char>> {
        paint_members(g, self@.army, march_glyph(self@.move_timer))
    }

    fn draw(&self, frame: &mut Frame) {
        let remaining = self.move_timer.remaining();
        let duration = self.move_timer.duration();
        let glyph = if duration > 0 && remaining as u128 * 2 > duration as u128 {
            'x'
        } else {
            '+'
        };
        let ghost g0 = cells(*frame);
        let mut i: usize = 0;
        while i < self.army.len()
            invariant
                i <= self.army.len(),
                glyph == march_glyph(self@.move_timer),
                cells(*frame) == paint_members(g0, self.army@.take(i as int), glyph),
            decreases self.army.len() - i,
        {
            assert(self.army@.take(i + 1).drop_last() =~= self.army@.take(i as int));
            let m = self.army[i];
            if m.is_visible {
                set_cell(frame, m.x, m.y, glyph);
            }
            i += 1;
        }
        assert(self.army@.take(i as int) =~= self.army@);
    }
}


/// The population series starts at 3 and 5, and each later term is the sum of
/// the two before it.
pub proof fn lemma_population_series(n: nat)
    requires
        n >= 3,
    ensures
        swarm_size(1) == 3,
        swarm_size(2) == 5,
        swarm_size(n) == swarm_size((n - 1) as nat) + swarm_size((n - 2) as nat),
{
}

/// The direction is always +1 or -1 after an update, and it changes in exactly
/// the updates in which the swarm steps while at an edge, that is, descends.
pub proof fn lemma_direction_alternates(v: InvadersView, delta: nat, w: nat)
    requires
        v.wf(),
    ensures
        v.stepped(delta, w).direction == 1 || v.stepped(delta, w).direction == -1,
        (v.stepped(delta, w).direction != v.direction) <==> (v.steps(delta) && v.revealed(
            delta,
        ).at_edge(w)),
        v.stepped(delta, w).direction != v.direction ==> v.stepped(delta, w).direction
            == -v.direction,
{
}

/// In an update that makes the swarm descend, every member moves down one row
/// and keeps its column.
pub proof fn lemma_descent_lowers_rows(v: InvadersView, delta: nat, w: nat)
    requires
        v.wf(),
        v.steps(delta),
        v.revealed(delta).at_edge(w),
        v.can_descend(),
    ensures
        v.stepped(delta, w).army.len() == v.army.len(),
        forall|i: int|
            0 <= i < v.army.len() ==> (#[trigger] v.stepped(delta, w).army[i]).y == v.army[i].y + 1
                && v.stepped(delta, w).army[i].x == v.army[i].x,
{
    let r = v.revealed(delta);
    assert forall|i: int| 0 <= i < v.army.len() implies r.army[i].x == v.army[i].x
        && r.army[i].y == v.army[i].y by {}
}

/// A descent never leaves the step interval below the floor, and shortens it
/// unless the result is the floor itself.
pub proof fn lemma_descent_speeds_up(v: InvadersView, delta: nat, w: nat)
    requires
        v.wf(),
        v.steps(delta),
        v.revealed(delta).at_edge(w),
    ensures
        v.stepped(delta, w).move_timer.duration >= MIN_MOVE_MS,
        v.stepped(delta, w).move_timer.duration < v.move_timer.duration || v.stepped(
            delta,
            w,
        ).move_timer.duration == MIN_MOVE_MS,
{
}

/// When the pop-in timer fires and some member is still hidden, exactly one
/// member becomes visible: the first hidden one in population order.
pub proof fn lemma_reveal_first_hidden(v: InvadersView, delta: nat)
    requires
        v.wf(),
    ensures
        v.revealed(delta).army.len() == v.army.len(),
        v.revealed(delta).wf(),
        forall|i: int|
            0 <= i < v.army.len() ==> (#[trigger] v.revealed(delta).army[i]).x == v.army[i].x
                && v.revealed(delta).army[i].y == v.army[i].y && v.revealed(delta).army[i].points
                == v.army[i].points,
        (v.pop_timer.ticked(delta).finished && exists|k: int|
            0 <= k < v.army.len() && !(#[trigger] v.army[k]).is_visible) ==> {
            &&& !v.army[v.popped as int].is_visible
            &&& forall|i: int| 0 <= i < v.popped ==> (#[trigger] v.army[i]).is_visible
            &&& v.revealed(delta).army == v.army.update(
                v.popped as int,
                Invader { is_visible: true, ..v.army[v.popped as int] },
            )
        },
        !(v.pop_timer.ticked(delta).finished && exists|k: int|
            0 <= k < v.army.len() && !(#[trigger] v.army[k]).is_visible) ==> v.revealed(
            delta,
        ).army == v.army,
{
    let r = v.revealed(delta);
    assert forall|i: int| 0 <= i < r.army.len() implies ((#[trigger] r.army[i]).is_visible
        <==> i < r.popped) by {}
    if v.pop_timer.ticked(delta).finished && v.popped == v.army.len() {
        assert(!exists|k: int| 0 <= k < v.army.len() && !(#[trigger] v.army[k]).is_visible);
    }
}

} // verus!
