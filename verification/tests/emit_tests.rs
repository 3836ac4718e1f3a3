use simple_chat::color::Color;
use simple_chat::emit::{apply_patches, TermOp};
use simple_chat::terminal_buffer::{Cell, Patch, TerminalBuffer};

fn white_on_black(ch: char) -> Cell {
    Cell { ch, fg: Color::White, bg: Color::Black }
}

#[test]
fn adjacent_patches_skip_the_cursor_move() {
    let patches = vec![
        Patch { cell: white_on_black('h'), x: 0, y: 0 },
        Patch { cell: white_on_black('i'), x: 1, y: 0 },
    ];
    let ops = apply_patches(&patches);
    assert_eq!(
        ops,
        vec![
            TermOp::SetFg(Color::White),
            TermOp::SetBg(Color::Black),
            TermOp::MoveTo(0, 0),
            TermOp::Print('h'),
            TermOp::Print('i'),
        ]
    );
}

#[test]
fn first_patch_off_the_origin_still_gets_a_move() {
    // there is no previously emitted patch at batch start, so positioning
    // is never skipped for the first patch, wherever it sits
    let patches = vec![Patch { cell: white_on_black('x'), x: 1, y: 0 }];
    let ops = apply_patches(&patches);
    assert_eq!(
        ops,
        vec![
            TermOp::SetFg(Color::White),
            TermOp::SetBg(Color::Black),
            TermOp::MoveTo(1, 0),
            TermOp::Print('x'),
        ]
    );
}

#[test]
fn non_adjacent_patches_each_get_a_move() {
    let patches = vec![
        Patch { cell: white_on_black('a'), x: 0, y: 0 },
        Patch { cell: white_on_black('b'), x: 0, y: 1 },
    ];
    let ops = apply_patches(&patches);
    assert_eq!(
        ops,
        vec![
            TermOp::SetFg(Color::White),
            TermOp::SetBg(Color::Black),
            TermOp::MoveTo(0, 0),
            TermOp::Print('a'),
            TermOp::MoveTo(0, 1),
            TermOp::Print('b'),
        ]
    );
}

#[test]
fn same_row_gap_still_gets_a_move() {
    let patches = vec![
        Patch { cell: white_on_black('a'), x: 0, y: 0 },
        Patch { cell: white_on_black('b'), x: 2, y: 0 },
    ];
    let ops = apply_patches(&patches);
    assert_eq!(
        ops,
        vec![
            TermOp::SetFg(Color::White),
            TermOp::SetBg(Color::Black),
            TermOp::MoveTo(0, 0),
            TermOp::Print('a'),
            TermOp::MoveTo(2, 0),
            TermOp::Print('b'),
        ]
    );
}

#[test]
fn style_sets_are_emitted_only_on_change() {
    let patches = vec![
        Patch { cell: Cell { ch: 'a', fg: Color::Red, bg: Color::Black }, x: 0, y: 0 },
        Patch { cell: Cell { ch: 'b', fg: Color::Red, bg: Color::Black }, x: 1, y: 0 },
        Patch { cell: Cell { ch: 'c', fg: Color::White, bg: Color::Blue }, x: 2, y: 0 },
    ];
    let ops = apply_patches(&patches);
    assert_eq!(
        ops,
        vec![
            TermOp::SetFg(Color::White),
            TermOp::SetBg(Color::Black),
            TermOp::MoveTo(0, 0),
            TermOp::SetFg(Color::Red),
            TermOp::Print('a'),
            TermOp::Print('b'),
            TermOp::SetFg(Color::White),
            TermOp::SetBg(Color::Blue),
            TermOp::Print('c'),
        ]
    );
}

#[test]
fn empty_patch_set_emits_only_the_style_reset() {
    let ops = apply_patches(&[]);
    assert_eq!(ops, vec![TermOp::SetFg(Color::White), TermOp::SetBg(Color::Black)]);
}

#[test]
fn flush_streams_every_cell_with_coalesced_style() {
    let mut b = TerminalBuffer::new(2, 1);
    b.put_cell('a', 0, 0, Color::Red, Color::Black);
    b.put_cell('b', 1, 0, Color::Red, Color::Black);
    let ops = b.flush();
    assert_eq!(
        ops,
        vec![
            TermOp::ClearAll,
            TermOp::SetFg(Color::White),
            TermOp::SetBg(Color::Black),
            TermOp::MoveTo(0, 0),
            TermOp::SetFg(Color::Red),
            TermOp::Print('a'),
            TermOp::Print('b'),
        ]
    );
}

#[test]
fn flush_of_blank_grid_prints_spaces_without_style_sets() {
    let b = TerminalBuffer::new(3, 1);
    let ops = b.flush();
    assert_eq!(
        ops,
        vec![
            TermOp::ClearAll,
            TermOp::SetFg(Color::White),
            TermOp::SetBg(Color::Black),
            TermOp::MoveTo(0, 0),
            TermOp::Print(' '),
            TermOp::Print(' '),
            TermOp::Print(' '),
        ]
    );
}
