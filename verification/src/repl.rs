//! The decisions of the interactive session: what a line asks for.
use vstd::prelude::*;
use crate::text::{str_eq, push_str};

verus! {

/// What an input line asks the session to do.
pub enum ReplAction {
    /// `:quit`, `:q` or `:exit`
    Quit,
    /// `:help` or `:h`
    Help,
    /// `:env`
    ShowEnv,
    /// Program text, to be added to the buffer.
    Input,
}

/// The characters of Unicode's `White_Space` property.
pub open spec fn is_white_space(c: char) -> bool {
    let u = c as u32;
    (0x09 <= u && u <= 0x0d) || u == 0x20 || u == 0x85 || u == 0xa0 || u == 0x1680 || (0x2000 <= u && u <= 0x200a)
        || u == 0x2028 || u == 0x2029 || u == 0x202f || u == 0x205f || u == 0x3000
}

/// The text without its leading white space.
pub open spec fn trim_start_spec(s: Seq<char>) -> Seq<char>
    decreases s.len(),
{
    if s.len() > 0 && is_white_space(s[0]) { trim_start_spec(s.drop_first()) } else { s }
}

/// The text without its trailing white space.
pub open spec fn trim_end_spec(s: Seq<char>) -> Seq<char>
    decreases s.len(),
{
    if s.len() > 0 && is_white_space(s.last()) { trim_end_spec(s.drop_last()) } else { s }
}

/// The text without leading and trailing white space.
pub open spec fn trimmed(s: Seq<char>) -> Seq<char> {
    trim_end_spec(trim_start_spec(s))
}

/// `str::trim` of std: the text without its leading and trailing characters of
/// Unicode's `White_Space` property.
#[verifier::external_body]
fn trim(s: &str) -> (r: &str)
    ensures
        r@ == trimmed(s@),
{
    s.trim()
}

/// The session commands are recognised only at the start of an entry, when the
/// buffer of program text is empty.
pub open spec fn repl_action_spec(buffer_empty: bool, line: Seq<char>) -> ReplAction {
    let t = trimmed(line);
    if !buffer_empty {
        ReplAction::Input
    } else if t == ":quit"@ || t == ":q"@ || t == ":exit"@ {
        ReplAction::Quit
    } else if t == ":help"@ || t == ":h"@ {
        ReplAction::Help
    } else if t == ":env"@ {
        ReplAction::ShowEnv
    } else {
        ReplAction::Input
    }
}

/// What a line read by the session asks for.
pub fn repl_action(buffer_empty: bool, line: &str) -> (r: ReplAction)
    ensures
        r == repl_action_spec(buffer_empty, line@),
{
    if !buffer_empty {
        return ReplAction::Input;
    }
    let t = trim(line);
    if str_eq(t, ":quit") || str_eq(t, ":q") || str_eq(t, ":exit") {
        ReplAction::Quit
    } else if str_eq(t, ":help") || str_eq(t, ":h") {
        ReplAction::Help
    } else if str_eq(t, ":env") {
        ReplAction::ShowEnv
    } else {
        ReplAction::Input
    }
}


/// How reading the text gathered so far ended.
pub enum ParseStatus {
    /// The text holds complete commands.
    Complete,
    /// The text ends inside a command: more lines are needed.
    Incomplete,
    /// The text cannot be read.
    Failed,
}

/// The program text gathered from the lines of an entry.
pub struct InputBuffer {
    pub text: String,
}

impl InputBuffer {
    /// An empty buffer.
    pub fn new() -> (r: Self)
        ensures
            r.text@ == Seq::<char>::empty(),
    {
        InputBuffer { text: String::new() }
    }

    /// Whether no line of the current entry has been gathered.
    pub fn is_empty(&self) -> (r: bool)
        ensures
            r == (self.text@.len() == 0),
    {
        self.text.unicode_len() == 0
    }

    /// Add a line to the entry, followed by a line break where `newline` is set.
    pub fn add_line(&mut self, line: &str, newline: bool)
        ensures
            final(self).text@ == old(self).text@ + line@ + (if newline { "\n"@ } else { Seq::<char>::empty() }),
    {
        push_str(&mut self.text, line);
        if newline {
            push_str(&mut self.text, "\n");
        } else {
            assert(self.text@ =~= old(self).text@ + line@ + Seq::<char>::empty());
        }
    }

    /// Once the entry has been read: an entry that ends inside a command is kept
    /// for the next line; a complete or unreadable one is done with.
    pub fn settle(&mut self, status: ParseStatus)
        ensures
            final(self).text@ == (if status is Incomplete { old(self).text@ } else { Seq::<char>::empty() }),
    {
        match status {
            ParseStatus::Incomplete => {},
            _ => {
                self.text = String::new();
            },
        }
    }
}

}
