use vstd::prelude::*;
use crate::difficulty::DifficultyLevel;
use crate::frame::{cells, put, set_cell, Drawable, Frame};
use crate::text::{put_text, write_text};

verus! {

/// The start menu: its options with the highlighted one, and the difficulty
/// levels with the chosen one.
pub struct Menu {
    pub options: Vec<String>,
    pub selection: usize,
    pub difficulty_levels: Vec<String>,
    pub current_difficulty: usize,
}

/// The texts of a list of strings.
pub open spec fn texts(v: Seq<String>) -> Seq<Seq<char>> {
    v.map_values(|s: String| s@)
}

/// One step up (towards index 0) or down a list of `len` entries, staying put
/// at either end.
pub open spec fn stepped_index(i: nat, len: nat, upwards: bool) -> nat {
    if upwards && i > 0 {
        (i - 1) as nat
    } else if !upwards && i + 1 < len {
        i + 1
    } else {
        i
    }
}

/// The difficulty that entry `i` of the menu's list stands for.
pub open spec fn level_at(i: nat) -> DifficultyLevel {
    if i == 0 {
        DifficultyLevel::Easy
    } else if i == 2 {
        DifficultyLevel::Hard
    } else if i == 3 {
        DifficultyLevel::Hardcore
    } else {
        DifficultyLevel::Normal
    }
}

/// Columns taken by the title's widest line.
pub const TITLE_WIDTH: usize = 67;

/// Row of the first menu option; the difficulty line sits just below it.
pub const MENU_ROW: usize = 7;

/// The lines of the title banner, top to bottom.
pub open spec fn title_lines() -> Seq<Seq<char>> {
    seq![
        "  ______                               __                          "@,
        " /\\__  _\\                             /\\ \\                         "@,
        " \\/_/\\ \\/     ___   __  __     __     \\_\\ \\     __   _ __   ____   "@,
        "    \\ \\ \\   /' _ `\\/\\ \\/\\ \\  /'__`\\   /'_` \\  /'__`\\/\\`'__\\/',__\\  "@,
        "     \\_\\ \\__/\\ \\/\\ \\ \\ \\_/ |/\\ \\L\\.\\_/\\ \\L\\ \\/\\  __/\\ \\ \\//\\__, `\\ "@,
        "     /\\_____\\ \\_\\ \\_\\ \\___/ \\ \\__/.\\_\\ \\___,_\\ \\____\\ \\_\\/\\____/ "@,
        "     \\/_____/\\/_/\\/_/\\/__/   \\/__/\\/_/\\/__,_ /\\/____/ \\/_/ \\/___/  "@,
        "                                                                  "@
    ]
}

/// The grid with `lines[k]` written from `(x, k)`, for each `k` in order.
pub open spec fn paint_lines(g: Seq<Seq<char>>, x: int, lines: Seq<Seq<char>>) -> Seq<Seq<char>>
    decreases lines.len(),
{
    if lines.len() == 0 {
        g
    } else {
        put_text(paint_lines(g, x, lines.drop_last()), x, lines.len() - 1, lines.last())
    }
}

/// The grid with the options written from column 1 on every second row from
/// `MENU_ROW`, each after the marker `>` when it is the highlighted one.
pub open spec fn paint_options(g: Seq<Seq<char>>, options: Seq<Seq<char>>, selection: nat) -> Seq<
    Seq<char>,
>
    decreases options.len(),
{
    if options.len() == 0 {
        g
    } else {
        let k = options.len() - 1;
        let row = MENU_ROW + 2 * k;
        let before = paint_options(g, options.drop_last(), selection);
        if row > usize::MAX {
            before
        } else {
        let marked = if k == selection {
            put(before, 0, row, '>')
        } else {
            before
        };
        put_text(marked, 1, row, options.last())
        }
    }
}

fn draw_title(frame: &mut Frame)
    ensures
        cells(*final(frame)) == paint_lines(
            cells(*old(frame)),
            (if cells(*old(frame)).len() >= TITLE_WIDTH {
                (cells(*old(frame)).len() - TITLE_WIDTH) / 2
            } else {
                0
            }) as int,
            title_lines(),
        ),
{
    let title: Vec<&str> = vec![
            "  ______                               __                          ",
            " /\\__  _\\                             /\\ \\                         ",
            " \\/_/\\ \\/     ___   __  __     __     \\_\\ \\     __   _ __   ____   ",
            "    \\ \\ \\   /' _ `\\/\\ \\/\\ \\  /'__`\\   /'_` \\  /'__`\\/\\`'__\\/',__\\  ",
            "     \\_\\ \\__/\\ \\/\\ \\ \\ \\_/ |/\\ \\L\\.\\_/\\ \\L\\ \\/\\  __/\\ \\ \\//\\__, `\\ ",
            "     /\\_____\\ \\_\\ \\_\\ \\___/ \\ \\__/.\\_\\ \\___,_\\ \\____\\ \\_\\/\\____/ ",
            "     \\/_____/\\/_/\\/_/\\/__/   \\/__/\\/_/\\/__,_ /\\/____/ \\/_/ \\/___/  ",
            "                                                                  "
        ];
    let x = frame.len().saturating_sub(TITLE_WIDTH) / 2;
    let ghost g0 = cells(*frame);
    let ghost lines = title@.map_values(|l: &str| l@);
    assert(lines =~= title_lines());
    let mut k: usize = 0;
    while k < title.len()
        invariant
            k <= title.len(),
            lines == title@.map_values(|l: &str| l@),
            cells(*frame) == paint_lines(g0, x as int, lines.take(k as int)),
        decreases title.len() - k,
    {
        assert(lines.take(k + 1).drop_last() =~= lines.take(k as int));
        write_text(frame, x, k, title[k]);
        k += 1;
    }
    assert(lines.take(k as int) =~= lines);
}

impl Menu {
    pub fn new() -> (r: Self)
        ensures
            texts(r.options@) == seq!["New game"@, "Exit"@],
            r.selection == 0,
            texts(r.difficulty_levels@) == seq!["Easy"@, "Normal"@, "Hard"@, "Hardcore"@],
            r.current_difficulty == 1,
    {
        let options = vec!["New game".to_owned(), "Exit".to_owned()];
        let difficulty_levels = vec![
            "Easy".to_owned(),
            "Normal".to_owned(),
            "Hard".to_owned(),
            "Hardcore".to_owned(),
        ];
        let r = Self { options, selection: 0, difficulty_levels, current_difficulty: 1 };
        assert(texts(r.options@) =~= seq!["New game"@, "Exit"@]);
        assert(texts(r.difficulty_levels@) =~= seq!["Easy"@, "Normal"@, "Hard"@, "Hardcore"@]);
        r
    }

    /// Moves the highlight one option up or down, staying at the ends.
    pub fn change_option(&mut self, upwards: bool)
        ensures
            final(self).selection == stepped_index(
                old(self).selection as nat,
                old(self).options@.len(),
                upwards,
            ),
            final(self).options == old(self).options,
            final(self).difficulty_levels == old(self).difficulty_levels,
            final(self).current_difficulty == old(self).current_difficulty,
    {
        if upwards && self.selection > 0 {
            self.selection -= 1;
        } else if !upwards && self.options.len() > 0 && self.selection < self.options.len() - 1 {
            self.selection += 1;
        }
    }

    /// Moves the chosen difficulty one level up or down the list, staying at the ends.
    pub fn toggle_difficulty(&mut self, upwards: bool)
        ensures
            final(self).current_difficulty == stepped_index(
                old(self).current_difficulty as nat,
                old(self).difficulty_levels@.len(),
                upwards,
            ),
            final(self).options == old(self).options,
            final(self).difficulty_levels == old(self).difficulty_levels,
            final(self).selection == old(self).selection,
    {
        if upwards && self.current_difficulty > 0 {
            self.current_difficulty -= 1;
        } else if !upwards && self.difficulty_levels.len() > 0 && self.current_difficulty
            < self.difficulty_levels.len() - 1 {
            self.current_difficulty += 1;
        }
    }

    pub fn get_selected_difficulty(&self) -> (r: &str)
        requires
            self.current_difficulty < self.difficulty_levels@.len(),
        ensures
            r@ == self.difficulty_levels@[self.current_difficulty as int]@,
    {
        self.difficulty_levels[self.current_difficulty].as_str()
    }

    /// The difficulty that the chosen entry names: the list's entries in order
    /// stand for easy, normal, hard and hardcore; any other index for normal.
    pub fn selected_level(&self) -> (r: DifficultyLevel)
        ensures
            r == level_at(self.current_difficulty as nat),
    {
        match self.current_difficulty {
            0 => DifficultyLevel::Easy,
            2 => DifficultyLevel::Hard,
            3 => DifficultyLevel::Hardcore,
            _ => DifficultyLevel::Normal,
        }
    }
}

impl Default for Menu {
    fn default() -> (r: Self)
        ensures
            texts(r.options@) == seq!["New game"@, "Exit"@],
            r.selection == 0,
            texts(r.difficulty_levels@) == seq!["Easy"@, "Normal"@, "Hard"@, "Hardcore"@],
            r.current_difficulty == 1,
    {
        Self::new()
    }
}

impl Drawable for Menu {
    open spec fn drawn(&self, g: Seq<Seq<char>>) -> Seq<Seq<char>> {
        let x = if g.len() >= TITLE_WIDTH {
            (g.len() - TITLE_WIDTH) / 2
        } else {
            0
        };
        let titled = paint_lines(g, x as int, title_lines());
        let labelled = put_text(titled, 0, MENU_ROW + 1, " Difficulty:"@);
        let named = if self.current_difficulty < self.difficulty_levels@.len() {
            put_text(
                labelled,
                13,
                MENU_ROW + 1,
                self.difficulty_levels@[self.current_difficulty as int]@,
            )
        } else {
            labelled
        };
        paint_options(named, texts(self.options@), self.selection as nat)
    }

    fn draw(&self, frame: &mut Frame) {
        draw_title(frame);
        write_text(frame, 0, MENU_ROW + 1, " Difficulty:");
        if self.current_difficulty < self.difficulty_levels.len() {
            write_text(frame, 13, MENU_ROW + 1, self.get_selected_difficulty());
        }
        let ghost g0 = cells(*frame);
        let ghost opts = texts(self.options@);
        let mut index: usize = 0;
        while index < self.options.len()
            invariant
                index <= self.options.len(),
                opts == texts(self.options@),
                cells(*frame) == paint_options(g0, opts.take(index as int), self.selection as nat),
            decreases self.options.len() - index,
        {
            assert(opts.take(index + 1).drop_last() =~= opts.take(index as int));
            if index <= (usize::MAX - MENU_ROW) / 2 {
                let row = MENU_ROW + 2 * index;
                if index == self.selection {
                    set_cell(frame, 0, row, '>');
                }
                write_text(frame, 1, row, self.options[index].as_str());
            }
            index += 1;
        }
        assert(opts.take(index as int) =~= opts);
    }
}

} // verus!
