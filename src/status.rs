use vstd::prelude::*;

use crate::text::push_char;

verus! {

/// Number of backspace and carriage-return pairs that clear a partial line.
pub const CLEAR_REPEAT: usize = 100;

/// A sink for progress messages on standard error, which can be silenced.
pub struct Status {
    pub silent: bool,
}

/// `n` pairs of a backspace and a carriage return.
pub open spec fn clear_seq(n: nat) -> Seq<char>
    decreases n,
{
    if n == 0 {
        Seq::empty()
    } else {
        clear_seq((n - 1) as nat).push('\u{8}').push('\r')
    }
}

impl Status {
    /// Creates a new `Status` struct for isolating system message output on stderr
    pub fn new() -> (r: Self)
        ensures
            r.silent,
    {
        Self { silent: true }
    }

    /// What printing `text` writes: nothing when silent, else `text`.
    pub fn visible(&self, text: &str) -> (r: String)
        ensures
            r@ == (if self.silent {
                Seq::empty()
            } else {
                text@
            }),
    {
        if self.silent {
            String::new()
        } else {
            text.to_string()
        }
    }

    /// What clears a partially printed line that has not printed a final
    /// newline character: nothing when silent.
    pub fn clear_line(&self) -> (r: String)
        ensures
            r@ == (if self.silent {
                Seq::empty()
            } else {
                clear_seq(CLEAR_REPEAT as nat)
            }),
    {
        let mut r = String::new();
        if self.silent {
            return r;
        }
        for i in 0..CLEAR_REPEAT
            invariant
                r@ == clear_seq(i as nat),
        {
            push_char(&mut r, '\u{8}');
            push_char(&mut r, '\r');
        }
        r
    }
}

impl Default for Status {
    fn default() -> (r: Self)
        ensures
            !r.silent,
    {
        Self { silent: false }
    }
}

} // verus!
