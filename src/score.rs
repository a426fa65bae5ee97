use vstd::prelude::*;
use crate::frame::{cells, Drawable, Frame};
use crate::text::{decimal, lemma_put_text_append, padded, put_text, write_chars, write_text};

verus! {

/// Points gathered in a run.
pub struct Score {
    count: u32,
}

impl View for Score {
    type V = nat;

    closed spec fn view(&self) -> nat {
        self.count as nat
    }
}

impl Score {
    pub fn new() -> (r: Self)
        ensures
            r@ == 0,
    {
        Score { count: 0 }
    }

    /// Adds `amount` points, holding the total at `u32::MAX`.
    pub fn add_points(&mut self, amount: u16)
        ensures
            final(self)@ == if old(self)@ + amount > u32::MAX {
                u32::MAX as nat
            } else {
                (old(self)@ + amount) as nat
            },
    {
        self.count = self.count.saturating_add(amount as u32);
    }

    pub proof fn lemma_bounded(&self)
        ensures
            self@ <= u32::MAX,
    {
    }

    pub fn count(&self) -> (r: u32)
        ensures
            r == self@,
    {
        self.count
    }
}

impl Drawable for Score {
    open spec fn drawn(&self, g: Seq<Seq<char>>) -> Seq<Seq<char>> {
        put_text(g, 0, 0, "SCORE: "@ + padded(self@, 4))
    }

    fn draw(&self, frame: &mut Frame) {
        proof {
            reveal_strlit("SCORE: ");
        }
        write_text(frame, 0, 0, "SCORE: ");
        let digits = decimal(self.count, 4);
        write_chars(frame, 7, 0, &digits);
        proof {
            lemma_put_text_append(cells(*old(frame)), 0, 0, "SCORE: "@, digits@);
        }
    }
}

} // verus!
