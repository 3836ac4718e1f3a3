use vstd::prelude::*;
use vstd::slice::slice_subrange;

use crate::text::chars_eq_str;

verus! {

/// The commands registered in the command table, consulted by exact match
/// on the name.
#[derive(Clone, Copy, PartialEq, Eq, Structural, Debug)]
pub enum CommandId {
    Connect,
    Disconnect,
    Quit,
    Help,
}

/// The name a command is dispatched under (without the leading slash).
pub open spec fn command_name_spec(c: CommandId) -> Seq<char> {
    match c {
        CommandId::Connect => "connect"@,
        CommandId::Disconnect => "disconnect"@,
        CommandId::Quit => "quit"@,
        CommandId::Help => "help"@,
    }
}

/// The usage line shown for a command.
pub open spec fn command_signature_spec(c: CommandId) -> Seq<char> {
    match c {
        CommandId::Connect => "/connect <ip>"@,
        CommandId::Disconnect => "/disconnect"@,
        CommandId::Quit => "/quit"@,
        CommandId::Help => "/help [command]"@,
    }
}

/// The help text shown for a command.
pub open spec fn command_description_spec(c: CommandId) -> Seq<char> {
    match c {
        CommandId::Connect => "Connect to a server by <ip>"@,
        CommandId::Disconnect => "Disconnect from the server which one you are currently connected to"@,
        CommandId::Quit => "Close the chat"@,
        CommandId::Help => "Print help"@,
    }
}

/// The command registered under `name`, if any.
pub open spec fn find_command_spec(name: Seq<char>) -> Option<CommandId> {
    if name == "connect"@ {
        Some(CommandId::Connect)
    } else if name == "disconnect"@ {
        Some(CommandId::Disconnect)
    } else if name == "quit"@ {
        Some(CommandId::Quit)
    } else if name == "help"@ {
        Some(CommandId::Help)
    } else {
        None
    }
}

/// The usage line of a command.
pub fn command_signature(c: CommandId) -> (r: &'static str)
    ensures
        r@ == command_signature_spec(c),
{
    match c {
        CommandId::Connect => "/connect <ip>",
        CommandId::Disconnect => "/disconnect",
        CommandId::Quit => "/quit",
        CommandId::Help => "/help [command]",
    }
}

/// The help text of a command.
pub fn command_description(c: CommandId) -> (r: &'static str)
    ensures
        r@ == command_description_spec(c),
{
    match c {
        CommandId::Connect => "Connect to a server by <ip>",
        CommandId::Disconnect => "Disconnect from the server which one you are currently connected to",
        CommandId::Quit => "Close the chat",
        CommandId::Help => "Print help",
    }
}

/// Looks a name up in the command table by exact match.
pub fn find_command(name: &[char]) -> (r: Option<CommandId>)
    ensures
        r == find_command_spec(name@),
{
    if chars_eq_str(name, "connect") {
        Some(CommandId::Connect)
    } else if chars_eq_str(name, "disconnect") {
        Some(CommandId::Disconnect)
    } else if chars_eq_str(name, "quit") {
        Some(CommandId::Quit)
    } else if chars_eq_str(name, "help") {
        Some(CommandId::Help)
    } else {
        None
    }
}

/// The index of the first space in `s` at or after `i`, or `s.len()` when
/// there is none.
pub open spec fn find_space(s: Seq<char>, i: int) -> int
    decreases s.len() - i when 0 <= i <= s.len()
{
    if i >= s.len() {
        s.len() as int
    } else if s[i] == ' ' {
        i
    } else {
        find_space(s, i + 1)
    }
}

/// An index with no space before it (from `i` on) and a space (or the end)
/// at it is what `find_space` returns.
proof fn lemma_find_space_from(s: Seq<char>, i: int, k: int)
    requires
        0 <= i <= k <= s.len(),
        forall|j: int| i <= j < k ==> s[j] != ' ',
        k < s.len() ==> s[k] == ' ',
    ensures
        find_space(s, i) == k,
    decreases k - i,
{
    if i < k {
        lemma_find_space_from(s, i + 1, k);
    }
}

/// The parse contract of the command router: a line starting with `/` is
/// split, after the slash, at the first space into a command name and an
/// argument; the argument is empty when there is no space.  A line not
/// starting with `/` is not a command.
pub open spec fn parse_spec(line: Seq<char>) -> Option<(Seq<char>, Seq<char>)> {
    if line.len() > 0 && line[0] == '/' {
        let rest = line.subrange(1, line.len() as int);
        let k = find_space(rest, 0);
        if k == rest.len() {
            Some((rest, Seq::empty()))
        } else {
            Some((rest.subrange(0, k), rest.subrange(k + 1, rest.len() as int)))
        }
    } else {
        None
    }
}

/// Splits a slash-prefixed line into command name and argument; yields
/// nothing for a line that does not start with `/`.
pub fn parse_prompt<'a>(prompt: &'a [char]) -> (r: Option<(&'a [char], &'a [char])>)
    ensures
        match r {
            Some(p) => parse_spec(prompt@) == Some((p.0@, p.1@)),
            None => parse_spec(prompt@) is None,
        },
{
    let n = prompt.len();
    if n == 0 {
        return None;
    }
    if prompt[0] != '/' {
        return None;
    }
    let rest = slice_subrange(prompt, 1, n);
    let m = rest.len();
    let mut k: usize = 0;
    while k < m && rest[k] != ' '
        invariant
            k <= m,
            m == rest@.len(),
            forall|j: int| 0 <= j < k ==> rest@[j] != ' ',
        decreases m - k,
    {
        k = k + 1;
    }
    proof {
        lemma_find_space_from(rest@, 0, k as int);
    }
    if k == m {
        let empty = slice_subrange(rest, m, m);
        proof {
            assert(empty@ =~= Seq::<char>::empty());
        }
        Some((rest, empty))
    } else {
        let name = slice_subrange(rest, 0, k);
        let arg = slice_subrange(rest, k + 1, m);
        Some((name, arg))
    }
}

/// Whether a character counts as trimmable whitespace around a command
/// argument.
pub open spec fn is_space_char(c: char) -> bool {
    c == ' ' || c == '\t' || c == '\n' || c == '\r'
}

/// `s` with its leading whitespace removed.
pub open spec fn trim_left_spec(s: Seq<char>) -> Seq<char>
    decreases s.len(),
{
    if s.len() > 0 && is_space_char(s[0]) {
        trim_left_spec(s.drop_first())
    } else {
        s
    }
}

/// `s` with its trailing whitespace removed.
pub open spec fn trim_right_spec(s: Seq<char>) -> Seq<char>
    decreases s.len(),
{
    if s.len() > 0 && is_space_char(s.last()) {
        trim_right_spec(s.drop_last())
    } else {
        s
    }
}

/// `s` with whitespace removed from both ends.
pub open spec fn trim_spec(s: Seq<char>) -> Seq<char> {
    trim_right_spec(trim_left_spec(s))
}

/// Dropping a counted run of leading whitespace is what `trim_left_spec`
/// does.
proof fn lemma_trim_left(s: Seq<char>, a: int)
    requires
        0 <= a <= s.len(),
        forall|j: int| 0 <= j < a ==> is_space_char(s[j]),
        a < s.len() ==> !is_space_char(s[a]),
    ensures
        trim_left_spec(s) == s.skip(a),
    decreases a,
{
    if a == 0 {
        assert(s.skip(0) =~= s);
    } else {
        assert(is_space_char(s[0]));
        lemma_trim_left(s.drop_first(), a - 1);
        assert(s.drop_first().skip(a - 1) =~= s.skip(a));
    }
}

/// Keeping everything before a counted run of trailing whitespace is what
/// `trim_right_spec` does.
proof fn lemma_trim_right(s: Seq<char>, b: int)
    requires
        0 <= b <= s.len(),
        forall|j: int| b <= j < s.len() ==> is_space_char(s[j]),
        b > 0 ==> !is_space_char(s[b - 1]),
    ensures
        trim_right_spec(s) == s.take(b),
    decreases s.len(),
{
    if b == s.len() {
        if s.len() > 0 {
            assert(!is_space_char(s.last()));
        }
        assert(s.take(b) =~= s);
    } else {
        assert(is_space_char(s.last()));
        lemma_trim_right(s.drop_last(), b);
        assert(s.drop_last().take(b) =~= s.take(b));
    }
}

/// Whether a character counts as trimmable whitespace.
pub fn is_space(c: char) -> (r: bool)
    ensures
        r == is_space_char(c),
{
    c == ' ' || c == '\t' || c == '\n' || c == '\r'
}

/// The slice with whitespace removed from both ends.
pub fn trim_slice<'a>(s: &'a [char]) -> (r: &'a [char])
    ensures
        r@ == trim_spec(s@),
{
    let n = s.len();
    let mut a: usize = 0;
    while a < n && is_space(s[a])
        invariant
            a <= n,
            n == s@.len(),
            forall|j: int| 0 <= j < a ==> is_space_char(s@[j]),
        decreases n - a,
    {
        a = a + 1;
    }
    let mut b: usize = n;
    while b > a && is_space(s[b - 1])
        invariant
            a <= b <= n,
            n == s@.len(),
            forall|j: int| b <= j < n ==> is_space_char(s@[j]),
        decreases b,
    {
        b = b - 1;
    }
    proof {
        lemma_trim_left(s@, a as int);
        lemma_trim_right(s@.skip(a as int), b as int - a as int);
        assert(s@.skip(a as int).take(b as int - a as int) =~= s@.subrange(a as int, b as int));
    }
    slice_subrange(s, a, b)
}

} // verus!
