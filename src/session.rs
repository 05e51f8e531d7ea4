use vstd::prelude::*;

use crate::conversation::{Conversation, Message};
use crate::personality::Mode;
use crate::text::{is_space, is_space_char, string_of, strings_of, string_views, to_chars, words, words_of};

verus! {

/// Consecutive blank inputs after which the way out is shown, unless a
/// session is set otherwise.
pub const BLANK_HINT_AFTER: u64 = 2;

/// `s` without its leading white space.
pub open spec fn trim_start(s: Seq<char>) -> Seq<char>
    decreases s.len(),
{
    if s.len() > 0 && is_space(s[0]) {
        trim_start(s.drop_first())
    } else {
        s
    }
}

/// `s` without its trailing white space.
pub open spec fn trim_end(s: Seq<char>) -> Seq<char>
    decreases s.len(),
{
    if s.len() > 0 && is_space(s.last()) {
        trim_end(s.drop_last())
    } else {
        s
    }
}

/// `s` without white space at either end.
pub open spec fn trim(s: Seq<char>) -> Seq<char> {
    trim_end(trim_start(s))
}

/// The inputs that end a session.
pub open spec fn is_quit(t: Seq<char>) -> bool {
    t == seq!['/', 'q'] || t == seq!['/', 'q', 'u', 'i', 't'] || t == seq!['/', 'e', 'x', 'i', 't']
}

/// `cs` without white space at either end.
fn trim_chars(cs: &Vec<char>) -> (r: Vec<char>)
    ensures
        r@ == trim(cs@),
{
    let n = cs.len();
    let mut a: usize = 0;
    assert(cs@.subrange(0, n as int) == cs@);
    while a < n && is_space_char(cs[a])
        invariant
            a <= n == cs.len(),
            trim_start(cs@) == trim_start(cs@.subrange(a as int, n as int)),
        decreases n - a,
    {
        assert(cs@.subrange(a as int, n as int).drop_first() == cs@.subrange(a + 1, n as int));
        a = a + 1;
    }
    assert(trim_start(cs@) == cs@.subrange(a as int, n as int));
    let mut b: usize = n;
    while b > a && is_space_char(cs[b - 1])
        invariant
            a <= b <= n == cs.len(),
            trim(cs@) == trim_end(cs@.subrange(a as int, b as int)),
        decreases b,
    {
        assert(cs@.subrange(a as int, b as int).drop_last() == cs@.subrange(a as int, b - 1));
        b = b - 1;
    }
    assert(trim(cs@) == cs@.subrange(a as int, b as int));
    let mut r: Vec<char> = Vec::new();
    for i in a..b
        invariant
            a <= b <= cs.len(),
            r@ == cs@.subrange(a as int, i as int),
    {
        r.push(cs[i]);
        assert(cs@.subrange(a as int, i + 1) =~= cs@.subrange(a as int, i as int).push(cs@[i as int]));
    }
    r
}

fn quit_command(t: &Vec<char>) -> (r: bool)
    ensures
        r == is_quit(t@),
{
    let r = (t.len() == 2 && t[0] == '/' && t[1] == 'q') || (t.len() == 5 && t[0] == '/' && t[1]
        == 'q' && t[2] == 'u' && t[3] == 'i' && t[4] == 't') || (t.len() == 5 && t[0] == '/'
        && t[1] == 'e' && t[2] == 'x' && t[3] == 'i' && t[4] == 't');
    assert(r ==> is_quit(t@)) by {
        if t.len() == 2 && t[0] == '/' && t[1] == 'q' {
            assert(t@ =~= seq!['/', 'q']);
        }
        if t.len() == 5 && t[0] == '/' && t[1] == 'q' && t[2] == 'u' && t[3] == 'i' && t[4] == 't' {
            assert(t@ =~= seq!['/', 'q', 'u', 'i', 't']);
        }
        if t.len() == 5 && t[0] == '/' && t[1] == 'e' && t[2] == 'x' && t[3] == 'i' && t[4] == 't' {
            assert(t@ =~= seq!['/', 'e', 'x', 'i', 't']);
        }
    }
    r
}

/// Parse command into Vector of strings before execution
pub fn parse_command(command: &str) -> (r: Vec<String>)
    ensures
        string_views(r@) == words(command@),
{
    let cs = to_chars(command);
    let ws = words_of(&cs);
    strings_of(&ws)
}

/// What to do with one input of the user.
pub enum InputAction {
    /// A blank input: nothing to submit; show the way out when the flag is set.
    Ignore(bool),
    /// The user asked to leave, or the input ended.
    Quit,
    /// A command of the client, split into its words.
    Command(Vec<String>),
    /// A prompt to submit, trimmed.
    Submit(String),
}

/// What to write to the archive after a reply, and whether the session ends.
pub struct ArchivePlan {
    pub header: Option<Conversation>,
    pub turn: Option<Message>,
    pub finish: bool,
}

/// The decisions of one session with the assistant.
pub struct Session {
    pub mode: Mode,
    /// Whether exchanges are written to the archive.
    pub archive: bool,
    /// The conversation the exchanges belong to.
    pub conversation_id: String,
    /// When the conversation began, in milliseconds since the Unix epoch.
    pub created_msec: u64,
    /// Whether the conversation's own record has been planned already.
    pub header_written: bool,
    /// Blank inputs since the last input that was not blank.
    pub blank_inputs: u64,
    /// Consecutive blank inputs from which on the way out is shown.
    pub blank_hint_after: u64,
}

/// The action for input `line` (`None` once the input has ended), after
/// `blanks` blank inputs in a row, where the way out is shown from
/// `hint_after` blank inputs on.
pub open spec fn input_action_spec(
    line: Option<Seq<char>>,
    blanks: u64,
    hint_after: u64,
    a: InputAction,
) -> bool {
    match line {
        None => a is Quit,
        Some(l) => {
            let t = trim(l);
            if t.len() == 0 {
                a is Ignore && a->Ignore_0 == (blanks + 1 >= hint_after)
            } else if is_quit(t) {
                a is Quit
            } else if t[0] == '/' {
                a is Command && string_views(a->Command_0@) == words(t)
            } else {
                a is Submit && a->Submit_0@ == t
            }
        },
    }
}

impl Session {
    /// A session that has written nothing yet.
    pub fn new(mode: Mode, archive: bool, conversation_id: &str, created_msec: u64) -> (r: Self)
        ensures
            r.mode == mode,
            r.archive == archive,
            r.conversation_id@ == conversation_id@,
            r.created_msec == created_msec,
            !r.header_written,
            r.blank_inputs == 0,
            r.blank_hint_after == BLANK_HINT_AFTER,
    {
        Session {
            mode,
            archive,
            conversation_id: conversation_id.to_string(),
            created_msec,
            header_written: false,
            blank_inputs: 0,
            blank_hint_after: BLANK_HINT_AFTER,
        }
    }

    /// Decides what to do with one input of the user; `None` means that the
    /// input has ended. Blank inputs are counted, and any other input resets
    /// the count.
    pub fn on_input(&mut self, line: Option<&str>) -> (a: InputAction)
        ensures
            input_action_spec(
                match line {
                    Some(l) => Some(l@),
                    None => None,
                },
                old(self).blank_inputs,
                old(self).blank_hint_after,
                a,
            ),
            final(self).blank_inputs == (match line {
                Some(l) => if trim(l@).len() == 0 {
                    if old(self).blank_inputs < u64::MAX {
                        (old(self).blank_inputs + 1) as u64
                    } else {
                        old(self).blank_inputs
                    }
                } else {
                    0
                },
                None => old(self).blank_inputs,
            }),
            final(self).mode == old(self).mode,
            final(self).archive == old(self).archive,
            final(self).conversation_id == old(self).conversation_id,
            final(self).created_msec == old(self).created_msec,
            final(self).header_written == old(self).header_written,
            final(self).blank_hint_after == old(self).blank_hint_after,
    {
        let l = match line {
            None => {
                return InputAction::Quit;
            },
            Some(l) => l,
        };
        let cs = to_chars(l);
        let t = trim_chars(&cs);
        if t.len() == 0 {
            if self.blank_inputs < u64::MAX {
                self.blank_inputs = self.blank_inputs + 1;
            }
            return InputAction::Ignore(self.blank_inputs >= self.blank_hint_after);
        }
        self.blank_inputs = 0;
        if quit_command(&t) {
            InputAction::Quit
        } else if t[0] == '/' {
            let ws = words_of(&t);
            InputAction::Command(strings_of(&ws))
        } else {
            InputAction::Submit(string_of(&t))
        }
    }

    /// What to archive once `prompt` got `response` at `now_msec`: nothing
    /// when archiving is off; else the conversation's record the first time,
    /// and the exchange. A non-interactive session ends after its one reply.
    pub fn on_response(&mut self, prompt: &str, response: &str, now_msec: u64) -> (p: ArchivePlan)
        ensures
            p.finish == (old(self).mode == Mode::NonInteractive),
            (old(self).archive && !old(self).header_written) <==> p.header is Some,
            p.header is Some ==> p.header->Some_0.id@ == old(self).conversation_id@
                && p.header->Some_0.msec == old(self).created_msec
                && p.header->Some_0.messages@.len() == 0,
            old(self).archive <==> p.turn is Some,
            p.turn is Some ==> p.turn->Some_0.conversation_id@ == old(self).conversation_id@
                && p.turn->Some_0.msec == now_msec && p.turn->Some_0.prompt@ == prompt@
                && p.turn->Some_0.response@ == response@,
            final(self).header_written == (old(self).header_written || old(self).archive),
            p.turn is Some ==> p.header is Some || old(self).header_written,
            p.turn is Some ==> final(self).header_written,
            final(self).mode == old(self).mode,
            final(self).archive == old(self).archive,
            final(self).conversation_id == old(self).conversation_id,
            final(self).created_msec == old(self).created_msec,
            final(self).blank_inputs == old(self).blank_inputs,
            final(self).blank_hint_after == old(self).blank_hint_after,
    {
        let finish = self.mode == Mode::NonInteractive;
        if !self.archive {
            return ArchivePlan { header: None, turn: None, finish };
        }
        let header = if self.header_written {
            None
        } else {
            Some(
                Conversation {
                    id: self.conversation_id.clone(),
                    messages: Vec::new(),
                    msec: self.created_msec,
                },
            )
        };
        self.header_written = true;
        let turn = Message {
            conversation_id: self.conversation_id.clone(),
            msec: now_msec,
            prompt: prompt.to_string(),
            response: response.to_string(),
        };
        ArchivePlan { header, turn: Some(turn), finish }
    }

    /// Whether the session ends after a run that did not succeed: only a
    /// non-interactive one does. Nothing is archived for such a run.
    pub fn on_failure(&self) -> (finish: bool)
        ensures
            finish == (self.mode == Mode::NonInteractive),
    {
        self.mode == Mode::NonInteractive
    }
}

} // verus!
