use invaders::frame::{new_frame, set_cell, Frame};
use invaders::render::{render, RenderOp};

fn frame_of(w: usize, h: usize) -> Frame {
    vec![vec![' '; h]; w]
}

fn cell_ops(ops: &[RenderOp]) -> Vec<(u16, u16, char)> {
    ops.iter()
        .filter_map(|op| match op {
            RenderOp::Cell { col, row, glyph } => Some((*col, *row, *glyph)),
            _ => None,
        })
        .collect()
}

#[test]
fn first_render_clears_draws_border_and_every_cell() {
    let frame = frame_of(3, 2);
    let mut size = (0u16, 0u16);
    let ops = render(&frame, &frame, true, &mut size, (9, 6));
    assert_eq!(size, (9, 6));
    assert_eq!(ops[0], RenderOp::Clear);
    // offsets: (9 - 5) / 2 = 2 and (6 - 4) / 2 = 1
    assert_eq!(ops[1], RenderOp::Border { col: 2, row: 1, glyph: '┏' });
    assert_eq!(ops[5], RenderOp::Border { col: 6, row: 1, glyph: '┓' });
    assert_eq!(ops[6], RenderOp::Border { col: 2, row: 4, glyph: '┗' });
    assert_eq!(ops[10], RenderOp::Border { col: 6, row: 4, glyph: '┛' });
    assert_eq!(ops[11], RenderOp::Border { col: 2, row: 2, glyph: '┃' });
    assert_eq!(ops[12], RenderOp::Border { col: 6, row: 2, glyph: '┃' });
    let borders = ops.iter().filter(|o| matches!(o, RenderOp::Border { .. })).count();
    assert_eq!(borders, 5 + 5 + 4);
    assert_eq!(
        cell_ops(&ops),
        vec![(3, 2, ' '), (3, 3, ' '), (4, 2, ' '), (4, 3, ' '), (5, 2, ' '), (5, 3, ' ')]
    );
}

#[test]
fn second_render_of_identical_frame_emits_nothing() {
    let mut frame = frame_of(30, 14);
    set_cell(&mut frame, 4, 5, 'x');
    let mut size = (80u16, 24u16);
    let first = render(&frame, &frame, true, &mut size, (80, 24));
    assert!(!first.is_empty());
    let again = render(&frame, &frame, false, &mut size, (80, 24));
    assert!(again.is_empty());
}

#[test]
fn only_changed_cells_are_drawn() {
    let last = frame_of(30, 14);
    let mut curr = last.clone();
    set_cell(&mut curr, 3, 4, 'A');
    set_cell(&mut curr, 1, 9, '|');
    let mut size = (80u16, 24u16);
    let ops = render(&last, &curr, false, &mut size, (80, 24));
    // offsets: (80 - 32) / 2 = 24, (24 - 16) / 2 = 4
    assert_eq!(
        ops,
        vec![
            RenderOp::Cell { col: 26, row: 14, glyph: '|' },
            RenderOp::Cell { col: 28, row: 9, glyph: 'A' },
        ]
    );
    assert_eq!(size, (80, 24));
}

#[test]
fn resize_forces_full_redraw_once() {
    let frame = new_frame(80, 24);
    let mut size = (80u16, 24u16);
    let ops = render(&frame, &frame, false, &mut size, (100, 30));
    assert_eq!(size, (100, 30));
    assert_eq!(ops[0], RenderOp::Clear);
    assert_eq!(cell_ops(&ops).len(), 30 * 14);
    let ops = render(&frame, &frame, false, &mut size, (100, 30));
    assert!(ops.is_empty());
}

#[test]
fn frame_larger_than_terminal_is_cut() {
    let frame = frame_of(10, 10);
    let mut size = (0u16, 0u16);
    let ops = render(&frame, &frame, true, &mut size, (6, 5));
    // 4 columns and 3 rows fit, at offset 0
    assert_eq!(cell_ops(&ops).len(), 12);
    assert!(ops.contains(&RenderOp::Border { col: 5, row: 4, glyph: '┛' }));
    let tiny = render(&frame, &frame, true, &mut size, (2, 2));
    assert_eq!(tiny, vec![RenderOp::Clear]);
}

#[test]
fn cells_missing_from_last_frame_count_as_changed() {
    let last = frame_of(2, 2);
    let curr = frame_of(3, 2);
    let mut size = (20u16, 20u16);
    let ops = render(&last, &curr, false, &mut size, (20, 20));
    assert_eq!(cell_ops(&ops).len(), 2);
}
