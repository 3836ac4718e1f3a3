use simple_chat::client::{
    connect_result, connection_closed, handle_key, message_received, message_sent, render_frame,
    send_failed, status_bar, submit, Action, Client, KeyInput,
};
use simple_chat::color::Color;
use simple_chat::prompt::Prompt;
use simple_chat::terminal_buffer::TerminalBuffer;

fn chars(s: &str) -> Vec<char> {
    s.chars().collect()
}

fn type_line(prompt: &mut Prompt, line: &str) {
    for c in line.chars() {
        prompt.insert(c);
    }
}

#[test]
fn help_with_argument_prints_that_commands_line() {
    let mut client = Client::default();
    let mut prompt = Prompt::default();
    type_line(&mut prompt, "/help connect");
    let act = submit(&mut client, &mut prompt);
    assert!(matches!(act, Action::Nothing));
    assert_eq!(client.chat.items.len(), 1);
    assert_eq!(client.chat.items[0].color, Color::Blue);
    assert_eq!(client.chat.items[0].message, chars("/connect <ip> - Connect to a server by <ip>"));
    assert_eq!(prompt.data.len(), 0);
    assert_eq!(prompt.cursor, 0);
}

#[test]
fn help_without_argument_prints_every_command() {
    let mut client = Client::default();
    let mut prompt = Prompt::default();
    type_line(&mut prompt, "/help");
    submit(&mut client, &mut prompt);
    assert_eq!(client.chat.items.len(), 4);
    for entry in &client.chat.items {
        assert_eq!(entry.color, Color::Blue);
    }
    assert_eq!(client.chat.items[0].message, chars("/connect <ip> - Connect to a server by <ip>"));
    assert_eq!(client.chat.items[3].message, chars("/help [command] - Print help"));
}

#[test]
fn message_while_offline_adds_one_info_line_and_keeps_the_prompt() {
    let mut client = Client::default();
    let mut prompt = Prompt::default();
    type_line(&mut prompt, "hello");
    let act = submit(&mut client, &mut prompt);
    assert!(matches!(act, Action::Nothing));
    assert_eq!(client.chat.items.len(), 1);
    assert_eq!(client.chat.items[0].color, Color::Blue);
    assert_eq!(
        client.chat.items[0].message,
        chars("You are offline. Use /connect <ip> to connect to a server.")
    );
    assert_eq!(prompt.data, chars("hello"));
}

#[test]
fn unknown_command_adds_one_error_line_and_clears_the_prompt() {
    let mut client = Client::default();
    let mut prompt = Prompt::default();
    type_line(&mut prompt, "/nope now");
    let act = submit(&mut client, &mut prompt);
    assert!(matches!(act, Action::Nothing));
    assert_eq!(client.chat.items.len(), 1);
    assert_eq!(client.chat.items[0].color, Color::Red);
    assert_eq!(client.chat.items[0].message, chars("Unknown command `/nope`"));
    assert_eq!(prompt.data.len(), 0);
}

#[test]
fn connect_command_asks_the_shell_to_connect() {
    let mut client = Client::default();
    let mut prompt = Prompt::default();
    type_line(&mut prompt, "/connect 127.0.0.1");
    let act = submit(&mut client, &mut prompt);
    match act {
        Action::Connect(ip) => assert_eq!(ip, chars("127.0.0.1")),
        _ => panic!("expected a connect action"),
    }
    assert!(!client.connected);
    assert_eq!(client.chat.items.len(), 0);
    assert_eq!(prompt.data.len(), 0);
}

#[test]
fn connect_result_success_marks_the_client_connected() {
    let mut client = Client::default();
    connect_result(&mut client, &chars("127.0.0.1"), None);
    assert!(client.connected);
    assert_eq!(client.chat.items.len(), 0);
}

#[test]
fn connect_result_failure_reports_the_error() {
    let mut client = Client::default();
    connect_result(&mut client, &chars("127.0.0.1"), Some("refused"));
    assert!(!client.connected);
    assert_eq!(client.chat.items.len(), 1);
    assert_eq!(client.chat.items[0].color, Color::Red);
    assert_eq!(client.chat.items[0].message, chars("Could not connect to 127.0.0.1: refused"));
}

#[test]
fn connect_while_connected_reports_an_error() {
    let mut client = Client::default();
    connect_result(&mut client, &chars("127.0.0.1"), None);
    let mut prompt = Prompt::default();
    type_line(&mut prompt, "/connect 10.0.0.1");
    let act = submit(&mut client, &mut prompt);
    assert!(matches!(act, Action::Nothing));
    assert_eq!(client.chat.items.len(), 1);
    assert_eq!(client.chat.items[0].color, Color::Red);
    assert_eq!(
        client.chat.items[0].message,
        chars("You are already connected to a server. Disconnect with /disconnect first.")
    );
}

#[test]
fn message_while_connected_becomes_a_send_action() {
    let mut client = Client::default();
    connect_result(&mut client, &chars("127.0.0.1"), None);
    let mut prompt = Prompt::default();
    type_line(&mut prompt, "hello");
    let act = submit(&mut client, &mut prompt);
    let text = match act {
        Action::Send(t) => t,
        _ => panic!("expected a send action"),
    };
    assert_eq!(text, chars("hello"));
    // nothing is logged and the prompt is kept until the send is confirmed
    assert_eq!(client.chat.items.len(), 0);
    assert_eq!(prompt.data, chars("hello"));
    message_sent(&mut client, &mut prompt, &text);
    assert_eq!(client.chat.items.len(), 1);
    assert_eq!(client.chat.items[0].color, Color::White);
    assert_eq!(client.chat.items[0].message, chars("hello"));
    assert_eq!(prompt.data.len(), 0);
}

#[test]
fn send_failure_reports_the_error() {
    let mut client = Client::default();
    send_failed(&mut client, "broken pipe");
    assert_eq!(client.chat.items.len(), 1);
    assert_eq!(client.chat.items[0].color, Color::Red);
    assert_eq!(client.chat.items[0].message, chars("Could not send message: broken pipe"));
}

#[test]
fn disconnect_command_drops_the_connection() {
    let mut client = Client::default();
    connect_result(&mut client, &chars("127.0.0.1"), None);
    let mut prompt = Prompt::default();
    type_line(&mut prompt, "/disconnect");
    submit(&mut client, &mut prompt);
    assert!(!client.connected);
    assert_eq!(client.chat.items.len(), 1);
    assert_eq!(client.chat.items[0].color, Color::Blue);
    assert_eq!(client.chat.items[0].message, chars("Disconnected."));
}

#[test]
fn disconnect_while_offline_reports_it() {
    let mut client = Client::default();
    let mut prompt = Prompt::default();
    type_line(&mut prompt, "/disconnect");
    submit(&mut client, &mut prompt);
    assert!(!client.connected);
    assert_eq!(client.chat.items.len(), 1);
    assert_eq!(
        client.chat.items[0].message,
        chars("You are already offline. To connect use /connect <ip>")
    );
}

#[test]
fn quit_command_and_ctrl_c_both_quit() {
    let mut client = Client::default();
    let mut prompt = Prompt::default();
    type_line(&mut prompt, "/quit");
    submit(&mut client, &mut prompt);
    assert!(client.quit);

    let mut client2 = Client::default();
    let mut prompt2 = Prompt::default();
    let act = handle_key(&mut client2, &mut prompt2, KeyInput::Ctrl('c'));
    assert!(matches!(act, Action::Nothing));
    assert!(client2.quit);
}

#[test]
fn keys_edit_the_prompt() {
    let mut client = Client::default();
    let mut prompt = Prompt::default();
    handle_key(&mut client, &mut prompt, KeyInput::Char('a'));
    handle_key(&mut client, &mut prompt, KeyInput::Char('c'));
    handle_key(&mut client, &mut prompt, KeyInput::Left);
    handle_key(&mut client, &mut prompt, KeyInput::Char('b'));
    assert_eq!(prompt.data, chars("abc"));
    handle_key(&mut client, &mut prompt, KeyInput::Backspace);
    assert_eq!(prompt.data, chars("ac"));
    handle_key(&mut client, &mut prompt, KeyInput::Right);
    assert_eq!(prompt.cursor, 2);
    handle_key(&mut client, &mut prompt, KeyInput::Esc);
    assert_eq!(prompt.data.len(), 0);
    assert_eq!(prompt.cursor, 0);
}

#[test]
fn ctrl_h_and_ctrl_l_move_the_cursor() {
    let mut client = Client::default();
    let mut prompt = Prompt::default();
    type_line(&mut prompt, "ab");
    handle_key(&mut client, &mut prompt, KeyInput::Ctrl('h'));
    assert_eq!(prompt.cursor, 1);
    handle_key(&mut client, &mut prompt, KeyInput::Ctrl('l'));
    assert_eq!(prompt.cursor, 2);
    handle_key(&mut client, &mut prompt, KeyInput::Ctrl('z'));
    assert_eq!(prompt.data, chars("ab"));
    assert_eq!(prompt.cursor, 2);
}

#[test]
fn received_messages_join_the_chat() {
    let mut client = Client::default();
    message_received(&mut client, chars("hi from the peer"));
    assert_eq!(client.chat.items.len(), 1);
    assert_eq!(client.chat.items[0].color, Color::White);
    assert_eq!(client.chat.items[0].message, chars("hi from the peer"));
}

#[test]
fn help_with_blank_argument_prints_every_command() {
    let mut client = Client::default();
    let mut prompt = Prompt::default();
    type_line(&mut prompt, "/help   ");
    submit(&mut client, &mut prompt);
    assert_eq!(client.chat.items.len(), 4);
}

#[test]
fn help_with_unknown_name_reports_it() {
    let mut client = Client::default();
    let mut prompt = Prompt::default();
    type_line(&mut prompt, "/help frobnicate");
    submit(&mut client, &mut prompt);
    assert_eq!(client.chat.items.len(), 1);
    assert_eq!(client.chat.items[0].color, Color::Red);
    assert_eq!(client.chat.items[0].message, chars("Unknown command `/frobnicate`"));
}

#[test]
fn chat_rows_below_the_grid_are_dropped() {
    let mut client = Client::default();
    for i in 0..6 {
        message_received(&mut client, chars(&format!("line{i}")));
    }
    let prompt = Prompt::default();
    let mut buffer = TerminalBuffer::new(8, 4);
    render_frame(&client, &prompt, &mut buffer);
    // rows past the bottom edge are dropped; the bar and the prompt then
    // overdraw rows 2 and 3, leaving row 1 as the only visible chat line
    let row1: String = buffer.cells[8..16].iter().map(|c| c.ch).collect();
    assert_eq!(row1, "line0   ");
    let row2: String = buffer.cells[16..24].iter().map(|c| c.ch).collect();
    assert_eq!(row2, "Online  ");
}

#[test]
fn status_bar_truncates_and_pads() {
    let mut b = TerminalBuffer::new(4, 1);
    status_bar(&mut b, "simple-chat", 0, 0, 4);
    let row: String = b.cells.iter().map(|c| c.ch).collect();
    assert_eq!(row, "simp");
    for c in &b.cells {
        assert_eq!(c.fg, Color::Black);
        assert_eq!(c.bg, Color::White);
    }
}

#[test]
fn status_bar_off_the_left_edge_pads_after_the_label() {
    let mut b = TerminalBuffer::new(6, 1);
    status_bar(&mut b, "ab", 1, 0, 4);
    let row: String = b.cells.iter().map(|c| c.ch).collect();
    assert_eq!(row, " ab   ");
    // only column 3 was padded; columns past the bar keep the default
    assert_eq!(b.cells[3].bg, Color::White);
    assert_eq!(b.cells[4].bg, Color::Black);
}

#[test]
fn a_closed_pipe_leaves_the_client_offline() {
    let mut client = Client::default();
    connect_result(&mut client, &chars("127.0.0.1"), None);
    assert!(client.connected);
    connection_closed(&mut client);
    assert!(!client.connected);
    assert_eq!(client.chat.items.len(), 0);
}

#[test]
fn render_frame_lays_out_the_widgets() {
    let mut client = Client::default();
    message_received(&mut client, chars("hey"));
    let mut prompt = Prompt::default();
    type_line(&mut prompt, "hi");
    let mut buffer = TerminalBuffer::new(8, 4);
    render_frame(&client, &prompt, &mut buffer);
    let row = |y: usize| -> String {
        buffer.cells[y * 8..(y + 1) * 8].iter().map(|c| c.ch).collect()
    };
    assert_eq!(row(0), "simple-c");
    assert_eq!(row(1), "hey     ");
    assert_eq!(row(2), "Online  ");
    assert_eq!(row(3), "hi      ");
    assert_eq!(buffer.cells[0].bg, Color::White);
    assert_eq!(buffer.cells[8].fg, Color::White);
    assert_eq!(buffer.cells[8].bg, Color::Black);
}
