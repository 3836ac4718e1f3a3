use simple_chat::color::Color;
use simple_chat::emit::TermOp;
use simple_chat::prompt::Prompt;
use simple_chat::terminal_buffer::TerminalBuffer;

#[test]
fn insert_backspace_and_moves_scenario() {
    let mut p = Prompt::default();
    p.insert('a');
    p.insert('b');
    p.insert('c');
    assert_eq!(p.data, vec!['a', 'b', 'c']);
    assert_eq!(p.cursor, 3);
    p.backspace();
    assert_eq!(p.data, vec!['a', 'b']);
    assert_eq!(p.cursor, 2);
    p.cursor_move_left();
    p.cursor_move_left();
    assert_eq!(p.cursor, 0);
    p.cursor_move_left();
    assert_eq!(p.cursor, 0);
}

#[test]
fn clear_resets_regardless_of_prior_state() {
    let mut p = Prompt::default();
    p.insert('x');
    p.insert('y');
    p.cursor_move_left();
    p.clear();
    assert_eq!(p.data.len(), 0);
    assert_eq!(p.cursor, 0);
}

#[test]
fn backspace_at_start_is_a_no_op() {
    let mut p = Prompt::default();
    p.insert('a');
    p.cursor_move_left();
    p.backspace();
    assert_eq!(p.data, vec!['a']);
    assert_eq!(p.cursor, 0);
}

#[test]
fn backspace_removes_before_the_cursor_mid_line() {
    let mut p = Prompt::default();
    p.insert('a');
    p.insert('b');
    p.insert('c');
    p.cursor_move_left();
    p.backspace();
    assert_eq!(p.data, vec!['a', 'c']);
    assert_eq!(p.cursor, 1);
}

#[test]
fn insert_goes_at_the_cursor() {
    let mut p = Prompt::default();
    p.insert('a');
    p.insert('c');
    p.cursor_move_left();
    p.insert('b');
    assert_eq!(p.data, vec!['a', 'b', 'c']);
    assert_eq!(p.cursor, 2);
}

#[test]
fn cursor_move_right_clamps_at_the_end() {
    let mut p = Prompt::default();
    p.insert('a');
    p.cursor_move_right();
    p.cursor_move_right();
    assert_eq!(p.cursor, 1);
}

#[test]
fn cursor_stays_within_data_after_any_sequence() {
    let mut p = Prompt::default();
    let check = |p: &Prompt| assert!(p.cursor <= p.data.len());
    p.backspace();
    check(&p);
    p.cursor_move_right();
    check(&p);
    p.insert('a');
    check(&p);
    p.insert('b');
    check(&p);
    p.cursor_move_left();
    check(&p);
    p.backspace();
    check(&p);
    p.cursor_move_right();
    check(&p);
    p.cursor_move_right();
    check(&p);
    p.backspace();
    check(&p);
    p.clear();
    check(&p);
}

#[test]
fn get_returns_the_line_as_a_string() {
    let mut p = Prompt::default();
    p.insert('h');
    p.insert('i');
    assert_eq!(p.get(), "hi".to_string());
    p.clear();
    assert_eq!(p.get(), String::new());
}

#[test]
fn render_pads_after_the_text_not_over_it() {
    let mut p = Prompt::default();
    p.insert('a');
    p.insert('b');
    let mut b = TerminalBuffer::new(6, 1);
    b.put_cell('z', 4, 0, Color::Red, Color::Black);
    p.render(&mut b, 1, 0, 4);
    let row: String = b.cells.iter().map(|c| c.ch).collect();
    // the text starts at column 1 and only column 3 is padded; columns
    // outside x..w keep what was there
    assert_eq!(row, " ab z ");
    assert_eq!(b.cells[3].fg, Color::White);
    assert_eq!(b.cells[3].bg, Color::Black);
}

#[test]
fn render_erases_leftovers_of_a_longer_line() {
    let mut b = TerminalBuffer::new(6, 1);
    b.put_cells(&['o', 'l', 'd', 'e', 'r'], 0, 0, Color::White, Color::Black);
    let mut p = Prompt::default();
    p.insert('h');
    p.insert('i');
    p.render(&mut b, 0, 0, 6);
    let row: String = b.cells.iter().map(|c| c.ch).collect();
    assert_eq!(row, "hi    ");
}

#[test]
fn sync_cursor_op_positions_at_the_cursor() {
    let mut p = Prompt::default();
    p.insert('a');
    p.insert('b');
    assert_eq!(p.sync_cursor_op(0, 5, 10), TermOp::MoveTo(2, 5));
}

#[test]
fn sync_cursor_op_clamps_to_the_width() {
    let mut p = Prompt::default();
    for _ in 0..8 {
        p.insert('x');
    }
    assert_eq!(p.sync_cursor_op(0, 5, 4), TermOp::MoveTo(4, 5));
}
