use vstd::prelude::*;

verus! {

/// One rendered instant: `frame[x][y]` is the glyph in column `x`, row `y`.
pub type Frame = Vec<Vec<char>>;

/// Columns left out of the terminal's width for the border and padding.
pub const SIDE_MARGIN: u16 = 50;

/// Rows left out of the terminal's height for the border and padding.
pub const TOP_MARGIN: u16 = 10;

/// The glyphs of a frame, column by column.
pub open spec fn cells(f: Frame) -> Seq<Seq<char>> {
    f@.map_values(|col: Vec<char>| col@)
}

pub open spec fn width_of(g: Seq<Seq<char>>) -> nat {
    g.len()
}

pub open spec fn height_of(g: Seq<Seq<char>>) -> nat {
    if g.len() > 0 {
        g[0].len()
    } else {
        0
    }
}

/// A grid of the given size holding only blanks.
pub open spec fn blank(w: nat, h: nat) -> Seq<Seq<char>> {
    Seq::new(w, |x: int| Seq::new(h, |y: int| ' '))
}

/// The grid with `c` written at `(x, y)`, or unchanged where that cell is outside it.
pub open spec fn put(g: Seq<Seq<char>>, x: int, y: int, c: char) -> Seq<Seq<char>> {
    if 0 <= x < g.len() && 0 <= y < g[x].len() {
        g.update(x, g[x].update(y, c))
    } else {
        g
    }
}

/// The terminal's size less the margins, each saturating at zero.
pub open spec fn playfield(term_width: u16, term_height: u16) -> (nat, nat) {
    (
        if term_width > SIDE_MARGIN { (term_width - SIDE_MARGIN) as nat } else { 0 },
        if term_height > TOP_MARGIN { (term_height - TOP_MARGIN) as nat } else { 0 },
    )
}

/// A blank frame sized to a terminal of `term_width` by `term_height` cells.
pub fn new_frame(term_width: u16, term_height: u16) -> (f: Frame)
    ensures
        cells(f) == blank(playfield(term_width, term_height).0, playfield(
            term_width,
            term_height,
        ).1),
{
    let w = term_width.saturating_sub(SIDE_MARGIN) as usize;
    let h = term_height.saturating_sub(TOP_MARGIN) as usize;
    let mut f: Frame = Vec::new();
    let mut x: usize = 0;
    while x < w
        invariant
            x <= w,
            w == playfield(term_width, term_height).0,
            h == playfield(term_width, term_height).1,
            cells(f) == blank(x as nat, h as nat),
        decreases w - x,
    {
        let mut col: Vec<char> = Vec::new();
        let mut y: usize = 0;
        while y < h
            invariant
                y <= h,
                col@ == Seq::new(y as nat, |i: int| ' '),
            decreases h - y,
        {
            col.push(' ');
            y += 1;
            assert(col@ =~= Seq::new(y as nat, |i: int| ' '));
        }
        assert(col@ =~= Seq::new(h as nat, |i: int| ' '));
        let ghost before = cells(f);
        let ghost fv = f@;
        f.push(col);
        assert(f@ == fv.push(col));
        assert(before.len() == fv.len());
        assert(fv.len() == x);
        x += 1;
        assert forall|i: int| 0 <= i < x implies #[trigger] cells(f)[i] == blank(
            x as nat,
            h as nat,
        )[i] by {
            assert(cells(f)[i] == f@[i]@);
            if i < x - 1 {
                assert(f@[i] == fv[i]);
                assert(before[i] == fv[i]@);
            }
        }
        assert(cells(f) =~= blank(x as nat, h as nat));
    }
    f
}

/// Writes `c` at `(x, y)` where that cell lies inside the frame, and does
/// nothing otherwise.
pub fn set_cell(frame: &mut Frame, x: usize, y: usize, c: char)
    ensures
        cells(*final(frame)) == put(cells(*old(frame)), x as int, y as int, c),
{
    if x < frame.len() && y < frame[x].len() {
        frame[x][y] = c;
        assert(cells(*frame) =~= put(cells(*old(frame)), x as int, y as int, c));
    }
}

/// Something that can draw itself onto a frame.
pub trait Drawable {
    /// The grid after this item has drawn itself on `g`.
    spec fn drawn(&self, g: Seq<Seq<char>>) -> Seq<Seq<char>>;

    fn draw(&self, frame: &mut Frame)
        ensures
            cells(*final(frame)) == self.drawn(cells(*old(frame))),
    ;
}

} // verus!
