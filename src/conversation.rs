use vstd::prelude::*;

use rusqlite::Connection;

use crate::database::{connection_execute, storage_error, StorageError};
use crate::text::{push_char, string_views};

verus! {

/// An OpenAI conversation
pub struct Conversation {
    pub id: String,
    pub messages: Vec<Message>,
    /// When the conversation began, in milliseconds since the Unix epoch.
    pub msec: u64,
}

/// A message exchange in the OpenAI conversation
pub struct Message {
    pub conversation_id: String,
    /// When the exchange completed, in milliseconds since the Unix epoch.
    pub msec: u64,
    pub prompt: String,
    pub response: String,
}

/// The decimal digit for `d`.
pub open spec fn digit(d: nat) -> char {
    (('0' as nat) + d) as char
}

/// The decimal numeral of `n`, without leading zeros.
pub open spec fn decimal(n: nat) -> Seq<char>
    decreases n,
{
    if n < 10 {
        seq![digit(n)]
    } else {
        decimal(n / 10).push(digit(n % 10))
    }
}

/// `s` followed by the decimal numeral of `n`.
fn push_decimal(s: &mut String, n: u64)
    ensures
        final(s)@ == old(s)@ + decimal(n as nat),
    decreases n,
{
    if n >= 10 {
        push_decimal(s, n / 10);
    }
    let d = (n % 10) as u8;
    push_char(s, ('0' as u8 + d) as char);
}

/// The decimal numeral of `n`.
pub fn decimal_string(n: u64) -> (r: String)
    ensures
        r@ == decimal(n as nat),
{
    let mut s = String::new();
    push_decimal(&mut s, n);
    s
}

/// Statement that records a conversation.
pub const INSERT_CONVERSATION: &'static str = "INSERT INTO conversations (id, msec) VALUES (?1, ?2)";

/// Statement that records a message exchange.
pub const INSERT_MESSAGE: &'static str =
    "INSERT INTO messages (conversation_id, msec, prompt, response) VALUES (?1, ?2, ?3, ?4)";

impl Conversation {
    /// The values bound to the statement that records the conversation: its
    /// id and its time.
    pub fn insert_params(&self) -> (r: Vec<String>)
        ensures
            string_views(r@) == seq![self.id@, decimal(self.msec as nat)],
    {
        let mut r: Vec<String> = Vec::new();
        r.push(self.id.clone());
        r.push(decimal_string(self.msec));
        assert(string_views(r@) =~= seq![self.id@, decimal(self.msec as nat)]);
        r
    }

    /// Write the conversation to the database
    pub fn write_to_database(&self, db: &Connection) -> (r: Result<(), StorageError>) {
        let params = self.insert_params();
        match connection_execute(db, INSERT_CONVERSATION, &params) {
            Ok(_) => Ok(()),
            Err(e) => Err(storage_error(e)),
        }
    }
}

impl Message {
    /// The values bound to the statement that records the exchange: the
    /// conversation id, the time, the prompt and the response.
    pub fn insert_params(&self) -> (r: Vec<String>)
        ensures
            string_views(r@) == seq![
                self.conversation_id@,
                decimal(self.msec as nat),
                self.prompt@,
                self.response@,
            ],
    {
        let mut r: Vec<String> = Vec::new();
        r.push(self.conversation_id.clone());
        r.push(decimal_string(self.msec));
        r.push(self.prompt.clone());
        r.push(self.response.clone());
        assert(string_views(r@) =~= seq![
            self.conversation_id@,
            decimal(self.msec as nat),
            self.prompt@,
            self.response@,
        ]);
        r
    }

    /// Write the message to the database
    pub fn write_to_database(&self, db: &Connection) -> (r: Result<(), StorageError>) {
        let params = self.insert_params();
        match connection_execute(db, INSERT_MESSAGE, &params) {
            Ok(_) => Ok(()),
            Err(e) => Err(storage_error(e)),
        }
    }
}

} // verus!
