use vstd::prelude::*;
use crate::frame::{cells, put, set_cell, Frame};

verus! {

/// The grid with `text` written from `(x, y)` to the right, one glyph per
/// column; glyphs that fall outside are dropped.
pub open spec fn put_text(g: Seq<Seq<char>>, x: int, y: int, text: Seq<char>) -> Seq<Seq<char>>
    decreases text.len(),
{
    if text.len() == 0 {
        g
    } else {
        put(put_text(g, x, y, text.drop_last()), x + text.len() - 1, y, text.last())
    }
}

/// Writes `text` into `frame` from `(x, y)` to the right, dropping what falls outside.
pub fn write_text(frame: &mut Frame, x: usize, y: usize, text: &str)
    ensures
        cells(*final(frame)) == put_text(cells(*old(frame)), x as int, y as int, text@),
{
    let ghost g0 = cells(*frame);
    let room = usize::MAX - x;
    let mut i: usize = 0;
    for c in it: text.chars()
        invariant
            room == usize::MAX - x,
            i == if it.index() < room { it.index() as int } else { room as int },
            it.seq() == text@,
            cells(*frame) == put_text(g0, x as int, y as int, text@.take(it.index() as int)),
    {
        let ghost k = it.index() as int;
        assert(text@.take(k + 1).drop_last() =~= text@.take(k));
        assert(c == text@[k]);
        if i < room {
            set_cell(frame, x + i, y, c);
            i += 1;
        } else {
            // a frame has fewer than `usize::MAX` columns, so this glyph falls outside
            let w = frame.len();
            assert(x + k >= w);
        }
    }
    assert(text@.take(text@.len() as int) =~= text@);
}

/// Writing `a` and then `b` right after it is writing `a + b`.
pub proof fn lemma_put_text_append(
    g: Seq<Seq<char>>,
    x: int,
    y: int,
    a: Seq<char>,
    b: Seq<char>,
)
    ensures
        put_text(put_text(g, x, y, a), x + a.len(), y, b) == put_text(g, x, y, a + b),
    decreases b.len(),
{
    if b.len() == 0 {
        assert(a + b =~= a);
    } else {
        lemma_put_text_append(g, x, y, a, b.drop_last());
        assert((a + b).drop_last() =~= a + b.drop_last());
    }
}

/// Writes the glyphs of `text` into `frame` from `(x, y)` to the right,
/// dropping what falls outside.
pub fn write_chars(frame: &mut Frame, x: usize, y: usize, text: &Vec<char>)
    ensures
        cells(*final(frame)) == put_text(cells(*old(frame)), x as int, y as int, text@),
{
    let ghost g0 = cells(*frame);
    let mut i: usize = 0;
    while i < text.len()
        invariant
            i <= text.len(),
            cells(*frame) == put_text(g0, x as int, y as int, text@.take(i as int)),
        decreases text.len() - i,
    {
        assert(text@.take(i + 1).drop_last() =~= text@.take(i as int));
        if x <= usize::MAX - i {
            set_cell(frame, x + i, y, text[i]);
        } else {
            let w = frame.len();
            assert(x + i >= w);
        }
        i += 1;
    }
    assert(text@.take(i as int) =~= text@);
}


/// The decimal digit of `d`, for `d < 10`.
pub open spec fn digit(d: nat) -> char {
    (d + 48) as char
}

/// The decimal digits of `n`, left-padded with zeros to at least `width` digits.
pub open spec fn padded(n: nat, width: nat) -> Seq<char>
    decreases n + width,
{
    if n < 10 && width <= 1 {
        seq![digit(n)]
    } else {
        padded(n / 10, if width > 0 { (width - 1) as nat } else { 0 }).push(digit(n % 10))
    }
}

/// The decimal digits of `n`, left-padded with zeros to at least `width` digits.
pub fn decimal(n: u32, width: usize) -> (r: Vec<char>)
    ensures
        r@ == padded(n as nat, width as nat),
{
    let mut v: Vec<char> = Vec::new();
    let mut m = n;
    let mut k = width;
    loop
        invariant_except_break
            padded(n as nat, width as nat) == padded(m as nat, k as nat) + v@,
        ensures
            padded(n as nat, width as nat) == v@,
        decreases m + k,
    {
        let d = (m % 10) as u8;
        let c = (d + 48) as char;
        assert(c == digit((m % 10) as nat));
        let ghost before = v@;
        let ghost (m0, k0) = (m as nat, k as nat);
        v.insert(0, c);
        m = m / 10;
        k = k.saturating_sub(1);
        if m == 0 && k == 0 {
            assert(v@ =~= seq![c] + before);
            assert(padded(m0, k0) == seq![c]);
            assert(padded(n as nat, width as nat) =~= v@);
            break;
        }
        assert(padded(m0, k0) == padded(m as nat, k as nat).push(c));
        assert(padded(n as nat, width as nat) =~= padded(m as nat, k as nat) + v@);
    }
    v
}

} // verus!
