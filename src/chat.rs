use vstd::prelude::*;

use crate::text::{
    blank_at, first_blank, lowercase_of, parse_i32, parse_int, push_char, same_text, split_word,
    to_lowercase, trim, trimmed, two_words,
};

verus! {

pub const SYSTEM_COLOR: u32 = 0xFFFF00;

pub const USER_COLOR: u32 = 0x00FF00;

pub const ERROR_COLOR: u32 = 0xFF4444;

pub const ECHO_COLOR: u32 = 0xAAAAAA;

/// A line of the chat history.
#[derive(Clone)]
pub struct ChatMessage {
    pub text: String,
    pub color: u32,
}

/// A line as text and color.
pub type Entry = (Seq<char>, u32);

pub open spec fn entry(m: ChatMessage) -> Entry {
    (m.text@, m.color)
}

impl ChatMessage {
    pub fn new(text: String, color: u32) -> (r: ChatMessage)
        ensures
            entry(r) == (text@, color),
    {
        ChatMessage { text, color }
    }

    pub fn system(text: &str) -> (r: ChatMessage)
        ensures
            entry(r) == (text@, SYSTEM_COLOR),
    {
        ChatMessage::new(String::from_str(text), SYSTEM_COLOR)
    }

    pub fn user(text: &str) -> (r: ChatMessage)
        ensures
            entry(r) == (text@, USER_COLOR),
    {
        ChatMessage::new(String::from_str(text), USER_COLOR)
    }

    pub fn error(text: &str) -> (r: ChatMessage)
        ensures
            entry(r) == (text@, ERROR_COLOR),
    {
        ChatMessage::new(String::from_str(text), ERROR_COLOR)
    }
}

/// What a line typed into the chat asks the session to do.
#[derive(Clone, Copy, PartialEq, Eq, Debug, Structural)]
pub enum ChatCommand {
    Quit,
    ShowPosition,
    Teleport(i32, i32),
    ToggleEffects,
}

/// The chat line editor and its history.
pub struct ChatWindow {
    /// Whether typing goes to the chat.
    pub active: bool,
    /// The line being typed.
    pub input: String,
    /// Where the next character goes, counted in characters.
    pub cursor: usize,
    /// History, newest last.
    pub messages: Vec<ChatMessage>,
    /// How many lines the history keeps.
    pub max_messages: usize,
    /// How many of the newest lines are shown.
    pub visible_lines: usize,
}

pub open spec fn log_of(msgs: Seq<ChatMessage>) -> Seq<Entry> {
    msgs.map_values(|m: ChatMessage| entry(m))
}

/// `log` after `e` is added: the oldest line goes once the log is longer
/// than `max`.
pub open spec fn logged(log: Seq<Entry>, max: usize, e: Entry) -> Seq<Entry> {
    let l = log.push(e);
    if l.len() > max {
        l.drop_first()
    } else {
        l
    }
}

pub open spec fn welcome_text() -> Seq<char> {
    "Welcome to Exospace! Press Enter to chat, / for commands."@
}

/// `log` after the help lines are added.
pub open spec fn with_help(log: Seq<Entry>, max: usize) -> Seq<Entry> {
    let l1 = logged(log, max, ("Commands:"@, SYSTEM_COLOR));
    let l2 = logged(l1, max, ("  /help - Show this help"@, SYSTEM_COLOR));
    let l3 = logged(l2, max, ("  /pos - Show current position"@, SYSTEM_COLOR));
    let l4 = logged(l3, max, ("  /goto X Y - Teleport to position"@, SYSTEM_COLOR));
    let l5 = logged(l4, max, ("  /fx - Toggle effects"@, SYSTEM_COLOR));
    logged(l5, max, ("  /quit - Exit game"@, SYSTEM_COLOR))
}

/// The coordinates that `/goto` arguments name, if they name two.
pub open spec fn goto_target(args: Option<Seq<char>>) -> Option<(i32, i32)> {
    match args {
        Some(a) => match two_words(a) {
            Some((w1, w2)) => match (parse_i32(w1), parse_i32(w2)) {
                (Some(x), Some(y)) => Some((x, y)),
                _ => None,
            },
            None => None,
        },
        None => None,
    }
}

/// The outcome of command `cmd` (already lowercased) with arguments `args`:
/// the command for the session, and the history after it.
pub open spec fn command_outcome(log: Seq<Entry>, max: usize, cmd: Seq<char>, args: Option<Seq<char>>) -> (
    Option<ChatCommand>,
    Seq<Entry>,
) {
    if cmd == "help"@ || cmd == "?"@ {
        (None, with_help(log, max))
    } else if cmd == "quit"@ || cmd == "exit"@ || cmd == "q"@ {
        (Some(ChatCommand::Quit), log)
    } else if cmd == "pos"@ || cmd == "position"@ || cmd == "where"@ {
        (Some(ChatCommand::ShowPosition), log)
    } else if cmd == "goto"@ || cmd == "tp"@ || cmd == "teleport"@ {
        match goto_target(args) {
            Some((x, y)) => (Some(ChatCommand::Teleport(x, y)), log),
            None => (None, logged(log, max, ("Usage: /goto X Y"@, ERROR_COLOR))),
        }
    } else if cmd == "fx"@ || cmd == "effects"@ {
        (Some(ChatCommand::ToggleEffects), log)
    } else {
        (None, logged(log, max, ("Unknown command: /"@ + cmd, ERROR_COLOR)))
    }
}

/// The outcome of a typed line: blank lines do nothing; a line that starts
/// with `/` is a command, whose name (up to the first space) is lowercased by
/// `lower` and whose arguments are what follows that space; anything else is
/// echoed.
pub open spec fn input_outcome(
    log: Seq<Entry>,
    max: usize,
    text: Seq<char>,
    lower: spec_fn(Seq<char>) -> Seq<char>,
) -> (Option<ChatCommand>, Seq<Entry>) {
    let t = trim(text);
    if t.len() == 0 {
        (None, log)
    } else if t[0] == '/' {
        let rest = t.drop_first();
        let k = blank_at(rest);
        let args = if k < rest.len() {
            Some(rest.subrange(k + 1, rest.len() as int))
        } else {
            None
        };
        command_outcome(log, max, lower(rest.subrange(0, k)), args)
    } else {
        (None, logged(log, max, ("You: "@ + t, ECHO_COLOR)))
    }
}

impl Default for ChatWindow {
    fn default() -> (r: ChatWindow)
        ensures
            !r.active,
            r.input@.len() == 0,
            r.cursor == 0,
            r.messages@.len() == 0,
            r.max_messages == 100,
            r.visible_lines == 3,
    {
        ChatWindow {
            active: false,
            input: String::new(),
            cursor: 0,
            messages: Vec::new(),
            max_messages: 100,
            visible_lines: 3,
        }
    }
}

impl ChatWindow {
    /// The cursor lies within the line.
    pub open spec fn wf(&self) -> bool {
        self.cursor <= self.input@.len()
    }

    /// An empty, closed chat whose history holds the welcome line.
    pub fn new() -> (r: ChatWindow)
        ensures
            !r.active,
            r.input@.len() == 0,
            r.cursor == 0,
            log_of(r.messages@) == seq![(welcome_text(), SYSTEM_COLOR)],
            r.max_messages == 100,
            r.visible_lines == 3,
    {
        let mut chat = ChatWindow::default();
        chat.add_message(
            ChatMessage::system("Welcome to Exospace! Press Enter to chat, / for commands."),
        );
        assert(log_of(chat.messages@) =~= seq![(welcome_text(), SYSTEM_COLOR)]);
        chat
    }

    /// Opens or closes the chat; closing discards the line.
    pub fn toggle(&mut self)
        ensures
            final(self).active == !old(self).active,
            final(self).active ==> final(self).input == old(self).input && final(self).cursor
                == old(self).cursor,
            !final(self).active ==> final(self).input@.len() == 0 && final(self).cursor == 0,
            final(self).messages == old(self).messages,
            final(self).max_messages == old(self).max_messages,
            final(self).visible_lines == old(self).visible_lines,
    {
        self.active = !self.active;
        if !self.active {
            self.input = String::new();
            self.cursor = 0;
        }
    }

    pub fn open(&mut self)
        ensures
            *final(self) == (ChatWindow { active: true, ..*old(self) }),
    {
        self.active = true;
    }

    /// Closes the chat without submitting, discarding the line.
    pub fn close(&mut self)
        ensures
            !final(self).active,
            final(self).input@.len() == 0,
            final(self).cursor == 0,
            final(self).messages == old(self).messages,
            final(self).max_messages == old(self).max_messages,
            final(self).visible_lines == old(self).visible_lines,
    {
        self.active = false;
        self.input = String::new();
        self.cursor = 0;
    }

    /// Inserts `ch` at the cursor and moves the cursor past it.
    pub fn insert_char(&mut self, ch: char)
        requires
            old(self).wf(),
            old(self).input@.len() < usize::MAX,
        ensures
            final(self).input@ == old(self).input@.insert(old(self).cursor as int, ch),
            final(self).cursor == old(self).cursor + 1,
            final(self).active == old(self).active,
            final(self).messages == old(self).messages,
            final(self).max_messages == old(self).max_messages,
            final(self).visible_lines == old(self).visible_lines,
    {
        let n = self.input.as_str().unicode_len();
        let mut line = String::from_str(self.input.as_str().substring_char(0, self.cursor));
        push_char(&mut line, ch);
        line.append(self.input.as_str().substring_char(self.cursor, n));
        assert(line@ =~= self.input@.insert(self.cursor as int, ch));
        self.input = line;
        self.cursor = self.cursor + 1;
    }

    /// Deletes the character before the cursor, if any.
    pub fn backspace(&mut self)
        requires
            old(self).wf(),
        ensures
            old(self).cursor > 0 ==> final(self).input@ == old(self).input@.remove(
                old(self).cursor - 1,
            ) && final(self).cursor == old(self).cursor - 1,
            old(self).cursor == 0 ==> final(self).input == old(self).input && final(self).cursor
                == 0,
            final(self).active == old(self).active,
            final(self).messages == old(self).messages,
            final(self).max_messages == old(self).max_messages,
            final(self).visible_lines == old(self).visible_lines,
    {
        if self.cursor > 0 {
            let prev = self.cursor - 1;
            self.input = without_char(&self.input, prev);
            self.cursor = prev;
        }
    }

    /// Deletes the character at the cursor, if any.
    pub fn delete(&mut self)
        requires
            old(self).wf(),
        ensures
            old(self).cursor < old(self).input@.len() ==> final(self).input@ == old(
                self,
            ).input@.remove(old(self).cursor as int),
            old(self).cursor == old(self).input@.len() ==> final(self).input == old(self).input,
            final(self).cursor == old(self).cursor,
            final(self).active == old(self).active,
            final(self).messages == old(self).messages,
            final(self).max_messages == old(self).max_messages,
            final(self).visible_lines == old(self).visible_lines,
    {
        if self.cursor < self.input.as_str().unicode_len() {
            self.input = without_char(&self.input, self.cursor);
        }
    }

    pub fn cursor_left(&mut self)
        ensures
            *final(self) == (ChatWindow {
                cursor: if old(self).cursor > 0 {
                    (old(self).cursor - 1) as usize
                } else {
                    0
                },
                ..*old(self)
            }),
    {
        if self.cursor > 0 {
            self.cursor = self.cursor - 1;
        }
    }

    pub fn cursor_right(&mut self)
        ensures
            *final(self) == (ChatWindow {
                cursor: if old(self).cursor < old(self).input@.len() {
                    (old(self).cursor + 1) as usize
                } else {
                    old(self).cursor
                },
                ..*old(self)
            }),
    {
        if self.cursor < self.input.as_str().unicode_len() {
            self.cursor = self.cursor + 1;
        }
    }

    pub fn cursor_home(&mut self)
        ensures
            *final(self) == (ChatWindow { cursor: 0, ..*old(self) }),
    {
        self.cursor = 0;
    }

    pub fn cursor_end(&mut self)
        ensures
            *final(self) == (ChatWindow { cursor: old(self).input@.len() as usize, ..*old(self) }),
    {
        self.cursor = self.input.as_str().unicode_len();
    }

    /// Sends the line: a non-empty line is logged as the user's and
    /// returned; either way the chat closes with an empty line.
    pub fn submit(&mut self) -> (r: Option<String>)
        ensures
            !final(self).active,
            final(self).input@.len() == 0,
            final(self).cursor == 0,
            final(self).max_messages == old(self).max_messages,
            final(self).visible_lines == old(self).visible_lines,
            old(self).input@.len() == 0 ==> r is None && final(self).messages == old(self).messages,
            old(self).input@.len() > 0 ==> (r matches Some(t) && t@ == old(self).input@ && log_of(
                final(self).messages@,
            ) == logged(
                log_of(old(self).messages@),
                old(self).max_messages,
                (old(self).input@, USER_COLOR),
            )),
    {
        if self.input.as_str().unicode_len() == 0 {
            self.close();
            return None;
        }
        let text = self.input.clone();
        self.add_message(ChatMessage::user(text.as_str()));
        self.input = String::new();
        self.cursor = 0;
        self.active = false;
        Some(text)
    }

    /// Appends to the history, dropping the oldest line once it is longer
    /// than `max_messages`.
    pub fn add_message(&mut self, message: ChatMessage)
        ensures
            log_of(final(self).messages@) == logged(
                log_of(old(self).messages@),
                old(self).max_messages,
                entry(message),
            ),
            final(self).active == old(self).active,
            final(self).input == old(self).input,
            final(self).cursor == old(self).cursor,
            final(self).max_messages == old(self).max_messages,
            final(self).visible_lines == old(self).visible_lines,
    {
        let ghost before = log_of(self.messages@);
        self.messages.push(message);
        assert(log_of(self.messages@) =~= before.push(entry(message)));
        if self.messages.len() > self.max_messages {
            let ghost pushed = self.messages@;
            self.messages.remove(0);
            assert(log_of(self.messages@) =~= log_of(pushed).drop_first());
        }
    }

    /// Runs command `command` (already lowercased) with arguments `args`.
    pub fn run_command(&mut self, command: &str, args: Option<&str>) -> (r: Option<ChatCommand>)
        ensures
            (r, log_of(final(self).messages@)) == command_outcome(
                log_of(old(self).messages@),
                old(self).max_messages,
                command@,
                match args {
                    Some(a) => Some(a@),
                    None => None,
                },
            ),
            final(self).active == old(self).active,
            final(self).input == old(self).input,
            final(self).cursor == old(self).cursor,
            final(self).max_messages == old(self).max_messages,
            final(self).visible_lines == old(self).visible_lines,
    {
        if same_text(command, "help") || same_text(command, "?") {
            self.add_message(ChatMessage::system("Commands:"));
            self.add_message(ChatMessage::system("  /help - Show this help"));
            self.add_message(ChatMessage::system("  /pos - Show current position"));
            self.add_message(ChatMessage::system("  /goto X Y - Teleport to position"));
            self.add_message(ChatMessage::system("  /fx - Toggle effects"));
            self.add_message(ChatMessage::system("  /quit - Exit game"));
            None
        } else if same_text(command, "quit") || same_text(command, "exit") || same_text(command, "q") {
            Some(ChatCommand::Quit)
        } else if same_text(command, "pos") || same_text(command, "position") || same_text(
            command,
            "where",
        ) {
            Some(ChatCommand::ShowPosition)
        } else if same_text(command, "goto") || same_text(command, "tp") || same_text(
            command,
            "teleport",
        ) {
            match goto_coords(args) {
                Some((x, y)) => Some(ChatCommand::Teleport(x, y)),
                None => {
                    self.add_message(ChatMessage::error("Usage: /goto X Y"));
                    None
                },
            }
        } else if same_text(command, "fx") || same_text(command, "effects") {
            Some(ChatCommand::ToggleEffects)
        } else {
            let text = String::from_str("Unknown command: /").concat(command);
            self.add_message(ChatMessage::new(text, ERROR_COLOR));
            None
        }
    }

    /// Handles a typed line: a command for the session, or a line for the
    /// history.
    pub fn process_input(&mut self, text: &str) -> (r: Option<ChatCommand>)
        ensures
            (r, log_of(final(self).messages@)) == input_outcome(
                log_of(old(self).messages@),
                old(self).max_messages,
                text@,
                |s: Seq<char>| lowercase_of(s),
            ),
            final(self).active == old(self).active,
            final(self).input == old(self).input,
            final(self).cursor == old(self).cursor,
            final(self).max_messages == old(self).max_messages,
            final(self).visible_lines == old(self).visible_lines,
    {
        let t = trimmed(text);
        let n = t.unicode_len();
        if n == 0 {
            return None;
        }
        if t.get_char(0) == '/' {
            let rest = t.substring_char(1, n);
            assert(rest@ =~= t@.drop_first());
            let k = first_blank(rest);
            let head = rest.substring_char(0, k);
            let command = to_lowercase(head);
            if k < n - 1 {
                let args = rest.substring_char(k + 1, n - 1);
                self.run_command(command.as_str(), Some(args))
            } else {
                self.run_command(command.as_str(), None)
            }
        } else {
            let line = String::from_str("You: ").concat(t);
            self.add_message(ChatMessage::new(line, ECHO_COLOR));
            None
        }
    }

    /// The newest `visible_lines` lines, or all of them if there are fewer.
    pub fn visible_messages(&self) -> (r: &[ChatMessage])
        ensures
            r@ == self.messages@.subrange(
                if self.messages@.len() > self.visible_lines {
                    self.messages@.len() - self.visible_lines
                } else {
                    0
                },
                self.messages@.len() as int,
            ),
    {
        let n = self.messages.len();
        let start = if n > self.visible_lines { n - self.visible_lines } else { 0 };
        let (_, tail) = self.messages.as_slice().split_at(start);
        tail
    }

    /// The cursor's position on screen, in characters from the line's start.
    pub fn display_cursor_pos(&self) -> (r: usize)
        ensures
            r == self.cursor,
    {
        self.cursor
    }
}

/// `s` without its character at index `i`.
fn without_char(s: &String, i: usize) -> (r: String)
    requires
        i < s@.len(),
    ensures
        r@ == s@.remove(i as int),
{
    let n = s.as_str().unicode_len();
    let line = String::from_str(s.as_str().substring_char(0, i));
    let r = line.concat(s.as_str().substring_char(i + 1, n));
    assert(r@ =~= s@.remove(i as int));
    r
}

/// The coordinates that `/goto` arguments name, if they name two.
fn goto_coords(args: Option<&str>) -> (r: Option<(i32, i32)>)
    ensures
        r == goto_target(
            match args {
                Some(a) => Some(a@),
                None => None,
            },
        ),
{
    match args {
        Some(a) => {
            let (first, rest) = split_word(a);
            let (second, _) = split_word(rest);
            if first.unicode_len() > 0 && second.unicode_len() > 0 {
                match (parse_int(first), parse_int(second)) {
                    (Some(x), Some(y)) => Some((x, y)),
                    _ => None,
                }
            } else {
                None
            }
        },
        None => None,
    }
}

} // verus!
