use vstd::prelude::*;

use crate::render::{fill, fill_words, join_lines, join_strings, render, render_text};
use crate::text::{strings_of, to_chars, words, words_of};

verus! {

/// Line width that replies are filled to unless told otherwise.
pub const MAX_CHARS_DEFAULT: usize = 80;

/// Mode of interaction for the assistant
#[derive(Debug, Clone, Copy, PartialEq, Eq, Structural)]
pub enum Mode {
    Interactive,
    NonInteractive,
}

/// A personality that we can customize
pub struct Personality {
    pub mode: Mode,
    pub name: String,
    /// Instructions handed to the assistant, read from a markdown file.
    pub instructions: String,
    /// Width that replies are filled to; `None` leaves them as they are.
    pub max_chars: Option<usize>,
}

/// `message` filled into lines of at most `max_chars` characters, joined by
/// newlines; `message` itself where there is no width.
pub open spec fn split_spec(message: Seq<char>, max_chars: Option<usize>) -> Seq<char> {
    match max_chars {
        None => message,
        Some(n) => join_lines(fill(words(message), n as nat)),
    }
}

impl Personality {
    /// Create a new personality.
    pub fn new(name: &str, instructions: &str) -> (r: Self)
        ensures
            r.name@ == name@,
            r.instructions@ == instructions@,
            r.mode == Mode::NonInteractive,
            r.max_chars == Some(MAX_CHARS_DEFAULT),
    {
        Self {
            name: name.to_string(),
            mode: Mode::NonInteractive,
            instructions: instructions.to_string(),
            max_chars: Some(MAX_CHARS_DEFAULT),
        }
    }

    /// Split `message` into lines at whitespace honoring `self.max_chars`
    pub fn split_at_word(&self, message: &str) -> (r: String)
        ensures
            r@ == split_spec(message@, self.max_chars),
    {
        match self.max_chars {
            None => message.to_string(),
            Some(n) => {
                let cs = to_chars(message);
                let ws = words_of(&cs);
                let lines = fill_words(&ws, n);
                let strs = strings_of(&lines);
                join_strings(&strs)
            },
        }
    }

    /// What `speak` shows for `text`: its rendered lines joined by newlines.
    pub fn speech(&self, text: &str) -> (r: String)
        ensures
            r@ == join_lines(render_text(text@, self.max_chars)),
    {
        let lines = render(text, self.max_chars);
        join_strings(&lines)
    }
}

} // verus!
