use vstd::prelude::*;
use vstd::slice::{slice_subrange, slice_to_vec};

use crate::chat::{chat_render_spec, ChatLog};
use crate::color::Color;
use crate::prompt::Prompt;
use crate::router::{
    command_description, command_description_spec, command_signature, command_signature_spec,
    find_command, find_command_spec, parse_prompt, parse_spec, trim_slice, trim_spec, CommandId,
};
use crate::terminal_buffer::{blank_grid, pad_spec, put_run_spec, Cell, TerminalBuffer};
use crate::text::{append_chars, append_str, str_chars};

verus! {

/// The client state the command router and the frame loop decide over:
/// whether a connection is up, the chat history, and whether the session
/// is quitting.  The connection itself is a raw byte pipe owned by the
/// unverified shell; here it is represented by `connected` alone.
pub struct Client {
    pub connected: bool,
    pub chat: ChatLog,
    pub quit: bool,
}

impl Default for Client {
    /// A disconnected client with an empty history.
    fn default() -> (r: Self)
        ensures
            r.connected == false,
            r.quit == false,
            r.chat@ == Seq::<(Seq<char>, Color)>::empty(),
    {
        Client { connected: false, chat: ChatLog::default(), quit: false }
    }
}

/// What the shell must do after a key was handled: nothing, open a
/// connection to the given address, or send the given bytes over the open
/// connection.  The outcome comes back through `connect_result`,
/// `message_sent` or `send_failed`.
pub enum Action {
    Nothing,
    Connect(Vec<char>),
    Send(Vec<char>),
}

/// One keyboard event, as the library sees it: a printable character, a
/// control chord, or one of the editing keys.
pub enum KeyInput {
    Char(char),
    Ctrl(char),
    Enter,
    Backspace,
    Left,
    Right,
    Esc,
}

/// Chat line: trying to connect while a connection is already up.
pub open spec fn msg_already_connected() -> Seq<char> {
    "You are already connected to a server. Disconnect with /disconnect first."@
}

/// Chat line: the connection was dropped on request.
pub open spec fn msg_disconnected() -> Seq<char> {
    "Disconnected."@
}

/// Chat line: trying to disconnect while already offline.
pub open spec fn msg_already_offline() -> Seq<char> {
    "You are already offline. To connect use /connect <ip>"@
}

/// Chat line: a plain message was submitted while offline.
pub open spec fn msg_offline_hint() -> Seq<char> {
    "You are offline. Use /connect <ip> to connect to a server."@
}

/// Chat line: the prompt named a command that is not in the table.
pub open spec fn msg_unknown_command(name: Seq<char>) -> Seq<char> {
    "Unknown command `/"@ + name + "`"@
}

/// Chat line: the help text of one command.
pub open spec fn msg_help_line(c: CommandId) -> Seq<char> {
    command_signature_spec(c) + " - "@ + command_description_spec(c)
}

/// Chat line: a connection attempt failed with the given error text.
pub open spec fn msg_connect_failed(ip: Seq<char>, err: Seq<char>) -> Seq<char> {
    "Could not connect to "@ + ip + ": "@ + err
}

/// Chat line: sending over the open connection failed.
pub open spec fn msg_send_failed(err: Seq<char>) -> Seq<char> {
    "Could not send message: "@ + err
}

/// The two clients agree on every field.
pub open spec fn client_same(c0: Client, c1: Client) -> bool {
    c1.connected == c0.connected && c1.quit == c0.quit && c1.chat@ == c0.chat@
}

/// The two prompts hold the same line and cursor.
pub open spec fn prompt_same(p0: Prompt, p1: Prompt) -> bool {
    p1.data@ == p0.data@ && p1.cursor == p0.cursor
}

/// The prompt is empty with the cursor at the start.
pub open spec fn prompt_cleared(p: Prompt) -> bool {
    p.data@.len() == 0 && p.cursor == 0
}

/// The help line of one command, `signature - description`.
fn help_line(c: CommandId) -> (r: Vec<char>)
    ensures
        r@ == msg_help_line(c),
{
    let mut r = str_chars(command_signature(c));
    append_str(&mut r, " - ");
    append_str(&mut r, command_description(c));
    r
}

/// The unknown-command error line for a name.
fn unknown_command_msg(name: &[char]) -> (r: Vec<char>)
    ensures
        r@ == msg_unknown_command(name@),
{
    let mut r = str_chars("Unknown command `/");
    append_chars(&mut r, name);
    append_str(&mut r, "`");
    r
}

/// Handles `/connect <ip>`: when offline, asks the shell to open the
/// connection; when already connected, reports the error in the chat.  The
/// connection state itself changes only when the shell reports back
/// through `connect_result`.
pub fn connect_command(client: &mut Client, argument: &[char]) -> (act: Action)
    ensures
        final(client).quit == old(client).quit,
        final(client).connected == old(client).connected,
        old(client).connected ==> final(client).chat@ == old(client).chat@.push(
            (msg_already_connected(), Color::Red),
        ) && act is Nothing,
        !old(client).connected ==> final(client).chat@ == old(client).chat@ && (act matches
            Action::Connect(ip) && ip@ == argument@),
{
    if client.connected {
        client.chat.insert(
            str_chars("You are already connected to a server. Disconnect with /disconnect first."),
            Color::Red,
        );
        Action::Nothing
    } else {
        Action::Connect(slice_to_vec(argument))
    }
}

/// Handles `/disconnect`: drops the connection when one is up, otherwise
/// reports that the client is already offline.
pub fn disconnect_command(client: &mut Client, _argument: &[char])
    ensures
        final(client).quit == old(client).quit,
        final(client).connected == false,
        old(client).connected ==> final(client).chat@ == old(client).chat@.push(
            (msg_disconnected(), Color::Blue),
        ),
        !old(client).connected ==> final(client).chat@ == old(client).chat@.push(
            (msg_already_offline(), Color::Blue),
        ),
{
    if client.connected {
        client.connected = false;
        client.chat.insert(str_chars("Disconnected."), Color::Blue);
    } else {
        client.chat.insert(
            str_chars("You are already offline. To connect use /connect <ip>"),
            Color::Blue,
        );
    }
}

/// Handles `/quit`: marks the session as quitting; the frame loop exits
/// after the current tick.
pub fn quit_command(client: &mut Client, _argument: &[char])
    ensures
        final(client).quit == true,
        final(client).connected == old(client).connected,
        final(client).chat@ == old(client).chat@,
{
    client.quit = true;
}

/// What `/help` appends to the chat: with an empty argument, one info line
/// per registered command; with a known name, that command's line; with an
/// unknown name, an error line.
pub open spec fn help_chat_effect(name: Seq<char>, log0: Seq<(Seq<char>, Color)>, log1: Seq<(Seq<char>, Color)>) -> bool {
    if name.len() == 0 {
        log1 == log0.push((msg_help_line(CommandId::Connect), Color::Blue)).push(
            (msg_help_line(CommandId::Disconnect), Color::Blue),
        ).push((msg_help_line(CommandId::Quit), Color::Blue)).push(
            (msg_help_line(CommandId::Help), Color::Blue),
        )
    } else {
        match find_command_spec(name) {
            Some(c) => log1 == log0.push((msg_help_line(c), Color::Blue)),
            None => log1 == log0.push((msg_unknown_command(name), Color::Red)),
        }
    }
}

/// Handles `/help [command]`: the argument is trimmed of surrounding
/// whitespace, then resolved against the command table.
pub fn help_command(client: &mut Client, argument: &[char])
    ensures
        final(client).quit == old(client).quit,
        final(client).connected == old(client).connected,
        help_chat_effect(trim_spec(argument@), old(client).chat@, final(client).chat@),
{
    let name = trim_slice(argument);
    if name.is_empty() {
        client.chat.insert(help_line(CommandId::Connect), Color::Blue);
        client.chat.insert(help_line(CommandId::Disconnect), Color::Blue);
        client.chat.insert(help_line(CommandId::Quit), Color::Blue);
        client.chat.insert(help_line(CommandId::Help), Color::Blue);
    } else {
        match find_command(name) {
            Some(c) => {
                client.chat.insert(help_line(c), Color::Blue);
            },
            None => {
                client.chat.insert(unknown_command_msg(name), Color::Red);
            },
        }
    }
}

/// The state change a dispatched command makes on the client.
pub open spec fn command_effect(id: CommandId, arg: Seq<char>, c0: Client, c1: Client) -> bool {
    match id {
        CommandId::Connect => c1.quit == c0.quit && c1.connected == c0.connected && (if c0.connected {
            c1.chat@ == c0.chat@.push((msg_already_connected(), Color::Red))
        } else {
            c1.chat@ == c0.chat@
        }),
        CommandId::Disconnect => c1.quit == c0.quit && c1.connected == false && c1.chat@
            == c0.chat@.push(
            ((if c0.connected {
                msg_disconnected()
            } else {
                msg_already_offline()
            }), Color::Blue),
        ),
        CommandId::Quit => c1.quit == true && c1.connected == c0.connected && c1.chat@ == c0.chat@,
        CommandId::Help => c1.quit == c0.quit && c1.connected == c0.connected && help_chat_effect(
            trim_spec(arg),
            c0.chat@,
            c1.chat@,
        ),
    }
}

/// The action a dispatched command asks of the shell: only `/connect`
/// while offline asks for anything.
pub open spec fn command_action(id: CommandId, arg: Seq<char>, c0: Client, act: Action) -> bool {
    match id {
        CommandId::Connect => if c0.connected {
            act is Nothing
        } else {
            act matches Action::Connect(ip) && ip@ == arg
        },
        _ => act is Nothing,
    }
}

/// What submitting the prompt line does.  A slash line is routed through
/// the command table: a known command runs and the prompt is cleared; an
/// unknown one gets an error line and the prompt is cleared.  A plain line
/// while connected is handed to the shell to send, and the prompt is kept
/// until the send is confirmed; a plain line while offline gets an info
/// line explaining how to connect, and the prompt is kept, since the
/// message was not accepted.
pub open spec fn submit_spec(c0: Client, p0: Prompt, c1: Client, p1: Prompt, act: Action) -> bool {
    match parse_spec(p0.data@) {
        Some(parts) => match find_command_spec(parts.0) {
            Some(id) => command_effect(id, parts.1, c0, c1) && command_action(id, parts.1, c0, act)
                && prompt_cleared(p1),
            None => c1.quit == c0.quit && c1.connected == c0.connected && c1.chat@ == c0.chat@.push(
                (msg_unknown_command(parts.0), Color::Red),
            ) && prompt_cleared(p1) && act is Nothing,
        },
        None => if c0.connected {
            client_same(c0, c1) && prompt_same(p0, p1) && (act matches Action::Send(t) && t@
                == p0.data@)
        } else {
            c1.quit == c0.quit && c1.connected == c0.connected && c1.chat@ == c0.chat@.push(
                (msg_offline_hint(), Color::Blue),
            ) && prompt_same(p0, p1) && act is Nothing
        },
    }
}

/// Submits the current prompt line: routes it as a command or as an
/// outgoing message, as `submit_spec` states.
pub fn submit(client: &mut Client, prompt: &mut Prompt) -> (act: Action)
    requires
        old(prompt).wf(),
    ensures
        final(prompt).wf(),
        submit_spec(*old(client), *old(prompt), *final(client), *final(prompt), act),
{
    let parsed = match parse_prompt(prompt.data.as_slice()) {
        Some((name, arg)) => Some((slice_to_vec(name), slice_to_vec(arg))),
        None => None,
    };
    match parsed {
        Some((name, arg)) => {
            match find_command(name.as_slice()) {
                Some(id) => {
                    let act = match id {
                        CommandId::Connect => connect_command(client, arg.as_slice()),
                        CommandId::Disconnect => {
                            disconnect_command(client, arg.as_slice());
                            Action::Nothing
                        },
                        CommandId::Quit => {
                            quit_command(client, arg.as_slice());
                            Action::Nothing
                        },
                        CommandId::Help => {
                            help_command(client, arg.as_slice());
                            Action::Nothing
                        },
                    };
                    prompt.clear();
                    act
                },
                None => {
                    client.chat.insert(unknown_command_msg(name.as_slice()), Color::Red);
                    prompt.clear();
                    Action::Nothing
                },
            }
        },
        None => {
            if client.connected {
                Action::Send(slice_to_vec(prompt.data.as_slice()))
            } else {
                client.chat.insert(
                    str_chars("You are offline. Use /connect <ip> to connect to a server."),
                    Color::Blue,
                );
                Action::Nothing
            }
        },
    }
}

/// What one keyboard event does: printable characters go into the prompt;
/// Ctrl-C quits, Ctrl-H/Ctrl-L mirror the Left/Right arrows; Enter submits
/// the line; Backspace, Left, Right edit the prompt; Esc clears it.
pub open spec fn handle_key_spec(
    key: KeyInput,
    c0: Client,
    p0: Prompt,
    c1: Client,
    p1: Prompt,
    act: Action,
) -> bool {
    match key {
        KeyInput::Char(ch) => client_same(c0, c1) && p1.data@ == p0.data@.insert(
            p0.cursor as int,
            ch,
        ) && p1.cursor == p0.cursor + 1 && act is Nothing,
        KeyInput::Ctrl(ch) => act is Nothing && (if ch == 'c' {
            c1.quit == true && c1.connected == c0.connected && c1.chat@ == c0.chat@ && prompt_same(
                p0,
                p1,
            )
        } else if ch == 'h' {
            client_same(c0, c1) && p1.data@ == p0.data@ && p1.cursor == (if p0.cursor > 0 {
                p0.cursor - 1
            } else {
                0int
            })
        } else if ch == 'l' {
            client_same(c0, c1) && p1.data@ == p0.data@ && p1.cursor == (if p0.cursor
                == p0.data@.len() {
                p0.cursor as int
            } else {
                p0.cursor + 1
            })
        } else {
            client_same(c0, c1) && prompt_same(p0, p1)
        }),
        KeyInput::Enter => submit_spec(c0, p0, c1, p1, act),
        KeyInput::Backspace => client_same(c0, c1) && act is Nothing && (if p0.cursor > 0 {
            p1.data@ == p0.data@.remove(p0.cursor - 1) && p1.cursor == p0.cursor - 1
        } else {
            prompt_same(p0, p1)
        }),
        KeyInput::Left => client_same(c0, c1) && act is Nothing && p1.data@ == p0.data@
            && p1.cursor == (if p0.cursor > 0 {
            p0.cursor - 1
        } else {
            0int
        }),
        KeyInput::Right => client_same(c0, c1) && act is Nothing && p1.data@ == p0.data@
            && p1.cursor == (if p0.cursor == p0.data@.len() {
            p0.cursor as int
        } else {
            p0.cursor + 1
        }),
        KeyInput::Esc => client_same(c0, c1) && act is Nothing && prompt_cleared(p1),
    }
}

/// Dispatches one keyboard event through the prompt and the command
/// router.
pub fn handle_key(client: &mut Client, prompt: &mut Prompt, key: KeyInput) -> (act: Action)
    requires
        old(prompt).wf(),
        key matches KeyInput::Char(_) ==> old(prompt).data@.len() < usize::MAX,
    ensures
        final(prompt).wf(),
        handle_key_spec(key, *old(client), *old(prompt), *final(client), *final(prompt), act),
{
    match key {
        KeyInput::Char(ch) => {
            prompt.insert(ch);
            Action::Nothing
        },
        KeyInput::Ctrl(ch) => {
            if ch == 'c' {
                quit_command(client, &[]);
            } else if ch == 'h' {
                prompt.cursor_move_left();
            } else if ch == 'l' {
                prompt.cursor_move_right();
            }
            Action::Nothing
        },
        KeyInput::Enter => submit(client, prompt),
        KeyInput::Backspace => {
            prompt.backspace();
            Action::Nothing
        },
        KeyInput::Left => {
            prompt.cursor_move_left();
            Action::Nothing
        },
        KeyInput::Right => {
            prompt.cursor_move_right();
            Action::Nothing
        },
        KeyInput::Esc => {
            prompt.clear();
            Action::Nothing
        },
    }
}

/// Records the shell's answer to a `Connect` action: on success the client
/// is connected; on failure the error is reported in the chat and the
/// state is unchanged.
pub fn connect_result(client: &mut Client, ip: &[char], error: Option<&str>)
    ensures
        final(client).quit == old(client).quit,
        error is None ==> final(client).connected == true
            && final(client).chat@ == old(client).chat@,
        error matches Some(e) ==> final(client).connected == old(client).connected
            && final(client).chat@ == old(client).chat@.push(
            (msg_connect_failed(ip@, e@), Color::Red),
        ),
{
    match error {
        None => {
            client.connected = true;
        },
        Some(e) => {
            let mut m = str_chars("Could not connect to ");
            append_chars(&mut m, ip);
            append_str(&mut m, ": ");
            append_str(&mut m, e);
            client.chat.insert(m, Color::Red);
        },
    }
}

/// Records that a `Send` action succeeded: the message joins the chat as a
/// plain line and the prompt is cleared, the line having been accepted.
pub fn message_sent(client: &mut Client, prompt: &mut Prompt, text: &[char])
    ensures
        final(client).quit == old(client).quit,
        final(client).connected == old(client).connected,
        final(client).chat@ == old(client).chat@.push((text@, Color::White)),
        prompt_cleared(*final(prompt)),
        final(prompt).wf(),
{
    client.chat.insert(slice_to_vec(text), Color::White);
    prompt.clear();
}

/// Records that a `Send` action failed: the error is reported in the chat;
/// the prompt is left as it is, so the line is not lost.
pub fn send_failed(client: &mut Client, error: &str)
    ensures
        final(client).quit == old(client).quit,
        final(client).connected == old(client).connected,
        final(client).chat@ == old(client).chat@.push((msg_send_failed(error@), Color::Red)),
{
    let mut m = str_chars("Could not send message: ");
    append_str(&mut m, error);
    client.chat.insert(m, Color::Red);
}

/// Records that the peer closed the connection: the client is offline
/// again; nothing is logged, since the peer said nothing.
pub fn connection_closed(client: &mut Client)
    ensures
        final(client).quit == old(client).quit,
        final(client).connected == false,
        final(client).chat@ == old(client).chat@,
{
    client.connected = false;
}

/// Records one yield of the non-blocking receive poll: the bytes the peer
/// sent, already decoded to characters, join the chat as one opaque plain
/// line.
pub fn message_received(client: &mut Client, text: Vec<char>)
    ensures
        final(client).quit == old(client).quit,
        final(client).connected == old(client).connected,
        final(client).chat@ == old(client).chat@.push((text@, Color::White)),
{
    client.chat.insert(text, Color::White);
}

/// Rendering a status bar: the label, truncated to the bar width, in
/// black-on-white, the rest of the row after the label padded with
/// black-on-white spaces.
pub open spec fn status_bar_spec(
    g: Seq<Cell>,
    w: int,
    h: int,
    label: Seq<char>,
    x: int,
    y: int,
    bar_w: int,
) -> Seq<Cell> {
    let n = if label.len() < bar_w {
        label.len() as int
    } else {
        bar_w
    };
    pad_spec(
        put_run_spec(g, w, h, label.take(n), x, y, Color::Black, Color::White),
        w,
        h,
        x + label.len(),
        bar_w,
        y,
        Color::Black,
        Color::White,
    )
}

/// Writes a status bar at `(x, y)`, `bar_w` columns wide.
pub fn status_bar(buffer: &mut TerminalBuffer, label: &str, x: usize, y: usize, bar_w: usize)
    requires
        old(buffer).wf(),
    ensures
        final(buffer).wf(),
        final(buffer).width == old(buffer).width,
        final(buffer).height == old(buffer).height,
        final(buffer).cells@ == status_bar_spec(
            old(buffer).cells@,
            old(buffer).width as int,
            old(buffer).height as int,
            label@,
            x as int,
            y as int,
            bar_w as int,
        ),
{
    let chars = str_chars(label);
    let n = if chars.len() < bar_w {
        chars.len()
    } else {
        bar_w
    };
    let run = slice_subrange(chars.as_slice(), 0, n);
    proof {
        assert(run@ =~= label@.take(n as int));
    }
    buffer.put_cells(run, x, y, Color::Black, Color::White);
    let after = if chars.len() >= bar_w || x >= bar_w - chars.len() {
        bar_w
    } else {
        x + chars.len()
    };
    let ghost g1 = buffer.cells@;
    let ghost bw = buffer.width as int;
    let ghost bh = buffer.height as int;
    buffer.pad_row(after, bar_w, y, Color::Black, Color::White);
    proof {
        if after as int != x as int + label@.len() {
            assert(x as int + label@.len() >= bar_w as int);
            assert(pad_spec(
                g1,
                bw,
                bh,
                x as int + label@.len(),
                bar_w as int,
                y as int,
                Color::Black,
                Color::White,
            ) == g1);
            assert(pad_spec(
                g1,
                bw,
                bh,
                bar_w as int,
                bar_w as int,
                y as int,
                Color::Black,
                Color::White,
            ) == g1);
        }
    }
}

/// One frame's grid: a blank grid, the title bar on the top row, the chat
/// history from row 1, the status bar on the second-to-last row, and the
/// prompt line on the last row.
pub open spec fn frame_spec(
    items: Seq<(Seq<char>, Color)>,
    pdata: Seq<char>,
    w: int,
    h: int,
    n: nat,
) -> Seq<Cell> {
    let g1 = status_bar_spec(blank_grid(n), w, h, "simple-chat"@, 0, 0, w);
    let g2 = chat_render_spec(g1, w, h, items, 0, 1);
    let g3 = if h >= 2 {
        status_bar_spec(g2, w, h, "Online"@, 0, h - 2, w)
    } else {
        g2
    };
    if h >= 1 {
        pad_spec(
            put_run_spec(g3, w, h, pdata, 0, h - 1, Color::White, Color::Black),
            w,
            h,
            pdata.len() as int,
            w,
            h - 1,
            Color::White,
            Color::Black,
        )
    } else {
        g3
    }
}

/// Renders one frame into the current grid: clears it, then draws the
/// title bar, the chat history, the status bar and the prompt, in that
/// order.
pub fn render_frame(client: &Client, prompt: &Prompt, buffer: &mut TerminalBuffer)
    requires
        old(buffer).wf(),
    ensures
        final(buffer).wf(),
        final(buffer).width == old(buffer).width,
        final(buffer).height == old(buffer).height,
        final(buffer).cells@ == frame_spec(
            client.chat@,
            prompt.data@,
            old(buffer).width as int,
            old(buffer).height as int,
            old(buffer).cells@.len() as nat,
        ),
{
    let w = buffer.width;
    let h = buffer.height;
    buffer.clear();
    status_bar(buffer, "simple-chat", 0, 0, w);
    client.chat.render(buffer, 0, 1);
    if h >= 2 {
        status_bar(buffer, "Online", 0, h - 2, w);
    }
    if h >= 1 {
        prompt.render(buffer, 0, h - 1, w);
    }
}

} // verus!
