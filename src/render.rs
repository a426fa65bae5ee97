use vstd::prelude::*;
use crate::frame::{cells, height_of, width_of, Frame};

verus! {

/// One instruction for the terminal.
#[derive(Clone, Copy, Debug, PartialEq, Eq, Structural)]
pub enum RenderOp {
    /// Fill the whole terminal with the background colour and blank it.
    Clear,
    /// Draw a border glyph at a terminal cell.
    Border { col: u16, row: u16, glyph: char },
    /// Draw a frame glyph at a terminal cell.
    Cell { col: u16, row: u16, glyph: char },
}

/// Where the frame lands on the terminal: its top-left border corner and the
/// columns and rows of it that fit.
pub struct RenderArea {
    pub x_offset: nat,
    pub y_offset: nat,
    pub width: nat,
    pub height: nat,
}

pub open spec fn sat_sub(a: nat, b: nat) -> nat {
    if a >= b {
        (a - b) as nat
    } else {
        0
    }
}

pub open spec fn min_nat(a: nat, b: nat) -> nat {
    if a <= b {
        a
    } else {
        b
    }
}

/// The frame `g`, inside a one-cell border, centred on a terminal of size `term`
/// and cut to what fits.
pub open spec fn area(g: Seq<Seq<char>>, term: (u16, u16)) -> RenderArea {
    RenderArea {
        x_offset: sat_sub(term.0 as nat, width_of(g) + 2) / 2,
        y_offset: sat_sub(term.1 as nat, height_of(g) + 2) / 2,
        width: min_nat(width_of(g), sat_sub(term.0 as nat, 2)),
        height: min_nat(height_of(g), sat_sub(term.1 as nat, 2)),
    }
}

/// The border of `a`: the top row, the bottom row, then the two sides row by row.
pub open spec fn border(a: RenderArea) -> Seq<RenderOp> {
    let right = a.x_offset + a.width + 1;
    let bottom = a.y_offset + a.height + 1;
    Seq::new(
        a.width + 2,
        |c: int|
            RenderOp::Border {
                col: (a.x_offset + c) as u16,
                row: a.y_offset as u16,
                glyph: if c == 0 {
                    '┏'
                } else if c == a.width + 1 {
                    '┓'
                } else {
                    '━'
                },
            },
    ) + Seq::new(
        a.width + 2,
        |c: int|
            RenderOp::Border {
                col: (a.x_offset + c) as u16,
                row: bottom as u16,
                glyph: if c == 0 {
                    '┗'
                } else if c == a.width + 1 {
                    '┛'
                } else {
                    '━'
                },
            },
    ) + Seq::new(
        2 * a.height,
        |k: int|
            RenderOp::Border {
                col: if k % 2 == 0 {
                    a.x_offset as u16
                } else {
                    right as u16
                },
                row: (a.y_offset + k / 2 + 1) as u16,
                glyph: '┃',
            },
    )
}

/// What comes before the frame's cells: on a full redraw, a clear and (where
/// anything of the frame fits) the border; otherwise nothing.
pub open spec fn lead(a: RenderArea, full: bool) -> Seq<RenderOp> {
    if !full {
        Seq::empty()
    } else if a.width > 0 && a.height > 0 {
        seq![RenderOp::Clear] + border(a)
    } else {
        seq![RenderOp::Clear]
    }
}

/// Whether cell `(x, y)` of `curr` is drawn: it fits on the terminal, and a full
/// redraw is on or `last` has no such cell or another glyph there.
pub open spec fn shown(
    last: Seq<Seq<char>>,
    curr: Seq<Seq<char>>,
    full: bool,
    a: RenderArea,
    x: int,
    y: int,
) -> bool {
    &&& 0 <= x < a.width
    &&& 0 <= y < a.height
    &&& y < curr[x].len()
    &&& (full || !(x < last.len() && y < last[x].len()) || last[x][y] != curr[x][y])
}

/// The instruction that draws cell `(x, y)` of `curr`.
pub open spec fn cell_op(curr: Seq<Seq<char>>, a: RenderArea, x: int, y: int) -> RenderOp {
    RenderOp::Cell {
        col: (a.x_offset + x + 1) as u16,
        row: (a.y_offset + y + 1) as u16,
        glyph: curr[x][y],
    }
}

/// Cell `p` comes before cell `q` column by column, row by row.
pub open spec fn precedes(p: (int, int), q: (int, int)) -> bool {
    p.0 < q.0 || (p.0 == q.0 && p.1 < q.1)
}

/// The terminal cell that an instruction draws, `(-1, -1)` for a clear.
pub open spec fn op_pos(op: RenderOp) -> (int, int) {
    match op {
        RenderOp::Clear => (-1, -1),
        RenderOp::Border { col, row, .. } => (col as int, row as int),
        RenderOp::Cell { col, row, .. } => (col as int, row as int),
    }
}

/// `ops` draws exactly the cells of `curr` that are shown, each once, column by
/// column and row by row.
pub open spec fn draws_cells(
    last: Seq<Seq<char>>,
    curr: Seq<Seq<char>>,
    full: bool,
    a: RenderArea,
    ops: Seq<RenderOp>,
) -> bool {
    &&& forall|k: int|
        0 <= k < ops.len() ==> exists|x: int, y: int|
            shown(last, curr, full, a, x, y) && #[trigger] ops[k] == #[trigger] cell_op(
                curr,
                a,
                x,
                y,
            )
    &&& forall|i: int, j: int|
        0 <= i < j < ops.len() ==> precedes(op_pos(ops[i]), op_pos(ops[j]))
    &&& forall|x: int, y: int|
        #[trigger] shown(last, curr, full, a, x, y) ==> ops.contains(cell_op(curr, a, x, y))
}

/// After cells before `bound` have been handled: `tail` draws the shown cells
/// at `pos`, in order, and every shown cell before `bound` is among them.
pub open spec fn progress(
    last: Seq<Seq<char>>,
    curr: Seq<Seq<char>>,
    full: bool,
    a: RenderArea,
    tail: Seq<RenderOp>,
    pos: Seq<(int, int)>,
    bound: (int, int),
) -> bool {
    &&& pos.len() == tail.len()
    &&& forall|k: int|
        0 <= k < pos.len() ==> shown(last, curr, full, a, pos[k].0, pos[k].1) && tail[k]
            == cell_op(curr, a, pos[k].0, pos[k].1) && precedes(#[trigger] pos[k], bound)
    &&& forall|i: int, j: int| 0 <= i < j < pos.len() ==> precedes(pos[i], pos[j])
    &&& forall|x: int, y: int|
        #[trigger] shown(last, curr, full, a, x, y) && precedes((x, y), bound) ==> exists|k: int|
            0 <= k < pos.len() && pos[k] == (x, y)
}

pub open spec fn area_of(xo: usize, yo: usize, rw: usize, rh: usize) -> RenderArea {
    RenderArea { x_offset: xo as nat, y_offset: yo as nat, width: rw as nat, height: rh as nat }
}

fn push_border(ops: &mut Vec<RenderOp>, xo: usize, yo: usize, rw: usize, rh: usize)
    requires
        rw > 0,
        rh > 0,
        xo + rw + 1 <= u16::MAX,
        yo + rh + 1 <= u16::MAX,
    ensures
        final(ops)@ == old(ops)@ + border(area_of(xo, yo, rw, rh)),
{
    let ghost a = area_of(xo, yo, rw, rh);
    let ghost b = border(a);
    let ghost o = ops@;
    let top = yo as u16;
    let bottom = (yo + rh + 1) as u16;
    let left = xo as u16;
    let right = (xo + rw + 1) as u16;
    let mut c: usize = 0;
    while c < rw + 2
        invariant
            c <= rw + 2,
            rw > 0 && rh > 0,
            xo + rw + 1 <= u16::MAX,
            b == border(a),
            a == area_of(xo, yo, rw, rh),
            top == yo,
            ops@ == o + b.subrange(0, c as int),
        decreases rw + 2 - c,
    {
        let glyph = if c == 0 {
            '┏'
        } else if c == rw + 1 {
            '┓'
        } else {
            '━'
        };
        ops.push(RenderOp::Border { col: (xo + c) as u16, row: top, glyph });
        c += 1;
        assert(ops@ =~= o + b.subrange(0, c as int));
    }
    let mut c: usize = 0;
    while c < rw + 2
        invariant
            c <= rw + 2,
            rw > 0 && rh > 0,
            xo + rw + 1 <= u16::MAX,
            yo + rh + 1 <= u16::MAX,
            b == border(a),
            a == area_of(xo, yo, rw, rh),
            bottom == yo + rh + 1,
            ops@ == o + b.subrange(0, rw + 2 + c),
        decreases rw + 2 - c,
    {
        let glyph = if c == 0 {
            '┗'
        } else if c == rw + 1 {
            '┛'
        } else {
            '━'
        };
        ops.push(RenderOp::Border { col: (xo + c) as u16, row: bottom, glyph });
        c += 1;
        assert(ops@ =~= o + b.subrange(0, rw + 2 + c));
    }
    let mut r: usize = 0;
    while r < rh
        invariant
            r <= rh,
            rw > 0 && rh > 0,
            yo + rh + 1 <= u16::MAX,
            b == border(a),
            a == area_of(xo, yo, rw, rh),
            left == xo && right == xo + rw + 1,
            ops@ == o + b.subrange(0, 2 * (rw + 2) + 2 * r),
        decreases rh - r,
    {
        let row = (yo + r + 1) as u16;
        ops.push(RenderOp::Border { col: left, row, glyph: '┃' });
        ops.push(RenderOp::Border { col: right, row, glyph: '┃' });
        r += 1;
        proof {
            let base = 2 * (rw + 2) as int;
            let k = 2 * (r - 1) as int;
            assert(k % 2 == 0 && k / 2 == r - 1) by (nonlinear_arith)
                requires
                    k == 2 * (r - 1),
                    r >= 1,
            ;
            assert((k + 1) % 2 == 1 && (k + 1) / 2 == r - 1) by (nonlinear_arith)
                requires
                    k == 2 * (r - 1),
                    r >= 1,
            ;
            assert(b[base + k] == RenderOp::Border { col: left, row, glyph: '┃' });
            assert(b[base + k + 1] == RenderOp::Border { col: right, row, glyph: '┃' });
        }
        assert(ops@ =~= o + b.subrange(0, 2 * (rw + 2) + 2 * r));
    }
    assert(b.subrange(0, 2 * (rw + 2) + 2 * rh) =~= b);
}

/// Appends the draw instructions for the shown cells of column `x`.
fn push_column(
    ops: &mut Vec<RenderOp>,
    pos: Ghost<Seq<(int, int)>>,
    last_frame: &Frame,
    curr_frame: &Frame,
    full: bool,
    xo: usize,
    yo: usize,
    rw: usize,
    rh: usize,
    n: usize,
    x: usize,
) -> (new_pos: Ghost<Seq<(int, int)>>)
    requires
        x < area_of(xo, yo, rw, rh).width <= curr_frame@.len(),
        area_of(xo, yo, rw, rh).x_offset + area_of(xo, yo, rw, rh).width + 1 <= u16::MAX,
        area_of(xo, yo, rw, rh).height > 0 ==> area_of(xo, yo, rw, rh).y_offset + area_of(xo, yo, rw, rh).height + 1 <= u16::MAX,
        n <= old(ops)@.len(),
        progress(
            cells(*last_frame),
            cells(*curr_frame),
            full,
            area_of(xo, yo, rw, rh),
            old(ops)@.subrange(n as int, old(ops)@.len() as int),
            pos@,
            (x as int, 0),
        ),
    ensures
        final(ops)@.subrange(0, n as int) == old(ops)@.subrange(0, n as int),
        n <= final(ops)@.len(),
        progress(
            cells(*last_frame),
            cells(*curr_frame),
            full,
            area_of(xo, yo, rw, rh),
            final(ops)@.subrange(n as int, final(ops)@.len() as int),
            new_pos@,
            (x + 1, 0),
        ),
{
    let ghost last = cells(*last_frame);
    let ghost curr = cells(*curr_frame);
    let ghost head = ops@.subrange(0, n as int);
    let ghost mut p = pos@;
    let ghost a = area_of(xo, yo, rw, rh);
    let col = &curr_frame[x];
    assert(col@ == curr[x as int]);
    let mut y: usize = 0;
    while y < rh
        invariant
            y <= rh == a.height,
            xo == a.x_offset,
            yo == a.y_offset,
            x < a.width <= curr_frame@.len(),
            xo + a.width + 1 <= u16::MAX,
            rh > 0 ==> yo + rh + 1 <= u16::MAX,
            col@ == curr[x as int],
            curr == cells(*curr_frame),
            last == cells(*last_frame),
            n <= ops@.len(),
            ops@.subrange(0, n as int) == head,
            progress(last, curr, full, a, ops@.subrange(n as int, ops@.len() as int), p, (x as int, y as int)),
        decreases rh - y,
    {
        let ghost prev = p;
        let ghost prev_tail = ops@.subrange(n as int, ops@.len() as int);
        if y < col.len() {
            let g = col[y];
            let changed = if full {
                true
            } else if x < last_frame.len() && y < last_frame[x].len() {
                last_frame[x][y] != g
            } else {
                true
            };
            proof {
                if x < last_frame@.len() {
                    assert(last_frame@[x as int]@ == last[x as int]);
                }
            }
            assert(changed == shown(last, curr, full, a, x as int, y as int));
            if changed {
                let op = RenderOp::Cell { col: (xo + x + 1) as u16, row: (yo + y + 1) as u16, glyph: g };
                assert(op == cell_op(curr, a, x as int, y as int));
                let ghost before = ops@;
                ops.push(op);
                proof {
                    assert(ops@.subrange(0, n as int) =~= before.subrange(0, n as int));
                    assert(ops@.subrange(n as int, ops@.len() as int) =~= prev_tail.push(op));
                    p = p.push((x as int, y as int));
                }
            }
        }
        y += 1;
        proof {
            let t = ops@.subrange(n as int, ops@.len() as int);
            assert(prev.len() <= p.len());
            assert(forall|k: int| 0 <= k < prev.len() ==> p[k] == prev[k] && t[k] == prev_tail[k]);
            assert forall|x1: int, y1: int|
                #[trigger] shown(last, curr, full, a, x1, y1) && precedes(
                    (x1, y1),
                    (x as int, y as int),
                ) implies exists|k: int| 0 <= k < p.len() && p[k] == (x1, y1) by {
                if x1 == x && y1 == y - 1 {
                    assert(p[p.len() - 1] == (x1, y1));
                } else {
                    assert(precedes((x1, y1), (x as int, (y - 1) as int)));
                    let k = choose|k: int| 0 <= k < prev.len() && prev[k] == (x1, y1);
                    assert(p[k] == (x1, y1));
                }
            }
            assert forall|k: int| 0 <= k < p.len() implies shown(last, curr, full, a, p[k].0, p[k].1)
                && t[k] == cell_op(curr, a, p[k].0, p[k].1) && precedes(
                #[trigger] p[k],
                (x as int, y as int),
            ) by {
                if k < prev.len() {
                    assert(p[k] == prev[k]);
                    assert(precedes(prev[k], (x as int, (y - 1) as int)));
                }
            }
        }
    }
    proof {
        let t = ops@.subrange(n as int, ops@.len() as int);
        assert forall|x1: int, y1: int|
            #[trigger] shown(last, curr, full, a, x1, y1) && precedes((x1, y1), ((x + 1) as int, 0))
                implies exists|k: int| 0 <= k < p.len() && p[k] == (x1, y1) by {
            assert(precedes((x1, y1), (x as int, rh as int)));
        }
        assert forall|k: int| 0 <= k < p.len() implies shown(last, curr, full, a, p[k].0, p[k].1)
            && t[k] == cell_op(curr, a, p[k].0, p[k].1) && precedes(
            #[trigger] p[k],
            ((x + 1) as int, 0),
        ) by {
            assert(precedes(p[k], (x as int, rh as int)));
        }
    }
    Ghost(p)
}

/// Once every column has been handled, the instructions draw exactly the shown cells.
proof fn lemma_progress_complete(
    last: Seq<Seq<char>>,
    curr: Seq<Seq<char>>,
    full: bool,
    a: RenderArea,
    tail: Seq<RenderOp>,
    p: Seq<(int, int)>,
)
    requires
        progress(last, curr, full, a, tail, p, (a.width as int, 0)),
        a.x_offset + a.width + 1 <= u16::MAX,
        a.height > 0 ==> a.y_offset + a.height + 1 <= u16::MAX,
    ensures
        draws_cells(last, curr, full, a, tail),
{
    assert forall|k: int| 0 <= k < tail.len() implies exists|x1: int, y1: int|
        shown(last, curr, full, a, x1, y1) && #[trigger] tail[k] == #[trigger] cell_op(
            curr,
            a,
            x1,
            y1,
        ) by {
        assert(shown(last, curr, full, a, p[k].0, p[k].1));
    }
    assert forall|i: int, j: int| 0 <= i < j < tail.len() implies precedes(
        op_pos(tail[i]),
        op_pos(tail[j]),
    ) by {
        assert(precedes(p[i], p[j]));
        assert(shown(last, curr, full, a, p[i].0, p[i].1));
        assert(shown(last, curr, full, a, p[j].0, p[j].1));
    }
    assert forall|x1: int, y1: int| #[trigger] shown(last, curr, full, a, x1, y1) implies tail.contains(
        cell_op(curr, a, x1, y1),
    ) by {
        assert(precedes((x1, y1), (a.width as int, 0)));
        let k = choose|k: int| 0 <= k < p.len() && p[k] == (x1, y1);
        assert(tail[k] == cell_op(curr, a, x1, y1));
    }
}

/// The instructions that bring a terminal showing `last` to showing `curr`.
/// A change of the terminal's size (`term` against `*last_size`) or `force`
/// makes it a full redraw: clear, border, and every cell; otherwise only the
/// cells whose glyph changed are drawn. Cells come column by column.
pub fn render(
    last_frame: &Frame,
    curr_frame: &Frame,
    force: bool,
    last_size: &mut (u16, u16),
    term: (u16, u16),
) -> (ops: Vec<RenderOp>)
    ensures
        ({
            let full = force || term != *old(last_size);
            let a = area(cells(*curr_frame), term);
            let n = lead(a, full).len() as int;
            let last = cells(*last_frame);
            let curr = cells(*curr_frame);
            &&& *final(last_size) == if full {
                term
            } else {
                *old(last_size)
            }
            &&& n <= ops@.len()
            &&& ops@.subrange(0, n) == lead(a, full)
            &&& draws_cells(last, curr, full, a, ops@.subrange(n, ops@.len() as int))
        }),
{
    let full = force || term.0 != last_size.0 || term.1 != last_size.1;
    if full {
        *last_size = term;
    }
    let ghost last = cells(*last_frame);
    let ghost curr = cells(*curr_frame);
    let ghost a = area(curr, term);
    let (tw, th) = term;
    let w = curr_frame.len();
    let h = if w > 0 {
        curr_frame[0].len()
    } else {
        0
    };
    assert(w == width_of(curr) && h == height_of(curr));
    let rw = if w < (tw as usize).saturating_sub(2) {
        w
    } else {
        (tw as usize).saturating_sub(2)
    };
    let rh = if h < (th as usize).saturating_sub(2) {
        h
    } else {
        (th as usize).saturating_sub(2)
    };
    let xo = (tw as usize).saturating_sub(w).saturating_sub(2) / 2;
    let yo = (th as usize).saturating_sub(h).saturating_sub(2) / 2;
    assert(a == area_of(xo, yo, rw, rh));
    assert(rw > 0 ==> xo + rw + 1 < tw);
    assert(rh > 0 ==> yo + rh + 1 < th);
    let mut ops: Vec<RenderOp> = Vec::new();
    if full {
        ops.push(RenderOp::Clear);
        if rw > 0 && rh > 0 {
            push_border(&mut ops, xo, yo, rw, rh);
        }
    }
    let n = ops.len();
    assert(ops@ =~= lead(a, full));
    let mut pos: Ghost<Seq<(int, int)>> = Ghost(Seq::empty());
    assert(ops@.subrange(n as int, ops@.len() as int) =~= Seq::<RenderOp>::empty());
    let mut x: usize = 0;
    while x < rw
        invariant
            x <= rw,
            a == area_of(xo, yo, rw, rh),
            a == area(curr, term),
            curr == cells(*curr_frame),
            last == cells(*last_frame),
            rw <= w == curr_frame@.len(),
            rw > 0 ==> xo + rw + 1 < tw,
            rh > 0 ==> yo + rh + 1 < th,
            n == lead(a, full).len(),
            n <= ops@.len(),
            ops@.subrange(0, n as int) == lead(a, full),
            progress(last, curr, full, a, ops@.subrange(n as int, ops@.len() as int), pos@, (x as int, 0)),
        decreases rw - x,
    {
        pos = push_column(&mut ops, pos, last_frame, curr_frame, full, xo, yo, rw, rh, n, x);
        x += 1;
    }
    proof {
        lemma_progress_complete(last, curr, full, a, ops@.subrange(n as int, ops@.len() as int), pos@);
    }
    ops
}

/// Rendering a frame over an identical one, without a resize or a forced
/// redraw, emits no instruction at all.
pub proof fn lemma_render_unchanged_is_silent(g: Seq<Seq<char>>, term: (u16, u16), ops: Seq<RenderOp>)
    requires
        ops.subrange(0, lead(area(g, term), false).len() as int) == lead(area(g, term), false),
        draws_cells(
            g,
            g,
            false,
            area(g, term),
            ops.subrange(lead(area(g, term), false).len() as int, ops.len() as int),
        ),
    ensures
        ops.len() == 0,
{
    let a = area(g, term);
    assert(ops.subrange(0, ops.len() as int) =~= ops);
    if ops.len() > 0 {
        assert(ops[0] == ops.subrange(0, ops.len() as int)[0]);
        let (x, y) = choose|x: int, y: int|
            shown(g, g, false, a, x, y) && #[trigger] ops.subrange(0, ops.len() as int)[0]
                == #[trigger] cell_op(g, a, x, y);
        assert(!shown(g, g, false, a, x, y));
    }
}

} // verus!
