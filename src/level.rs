use vstd::prelude::*;
use crate::frame::{cells, Drawable, Frame};
use crate::text::{decimal, lemma_put_text_append, padded, put_text, write_chars, write_text};

verus! {

/// The level whose clearing wins the game.
pub const FINAL_LEVEL: u16 = 10;

/// Column where the level counter is written on the top row.
pub const LEVEL_COLUMN: usize = 20;

/// The level being played, from 1 up to `FINAL_LEVEL`.
pub struct Level {
    level: u16,
}

impl View for Level {
    type V = nat;

    closed spec fn view(&self) -> nat {
        self.level as nat
    }
}

impl Level {
    pub fn new() -> (r: Self)
        ensures
            r@ == 1,
    {
        Level { level: 1 }
    }

    /// Marks the current level as cleared: returns whether that was the final
    /// level, and otherwise moves on to the next one.
    pub fn increment_level(&mut self) -> (won: bool)
        ensures
            won == (old(self)@ >= FINAL_LEVEL),
            final(self)@ == if won {
                old(self)@
            } else {
                old(self)@ + 1
            },
    {
        if self.level >= FINAL_LEVEL {
            true
        } else {
            self.level += 1;
            false
        }
    }

    pub fn level(&self) -> (r: u16)
        ensures
            r == self@,
    {
        self.level
    }
}

impl Drawable for Level {
    open spec fn drawn(&self, g: Seq<Seq<char>>) -> Seq<Seq<char>> {
        put_text(g, LEVEL_COLUMN as int, 0, "LEVEL: "@ + padded(self@, 2))
    }

    fn draw(&self, frame: &mut Frame) {
        proof {
            reveal_strlit("LEVEL: ");
        }
        write_text(frame, LEVEL_COLUMN, 0, "LEVEL: ");
        let digits = decimal(self.level as u32, 2);
        write_chars(frame, LEVEL_COLUMN + 7, 0, &digits);
        proof {
            lemma_put_text_append(cells(*old(frame)), LEVEL_COLUMN as int, 0, "LEVEL: "@, digits@);
        }
    }
}

} // verus!
