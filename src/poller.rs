use vstd::prelude::*;

use vstd::string::StringExecFns;

verus! {

/// Delay between two polls of a run, in milliseconds.
pub const POLL_INTERVAL_MS: u64 = 500;

/// The status that the remote service reports for a run. Nothing here acts on
/// `RequiresAction`: such a run is polled on like a waiting one, and may never
/// end.
#[derive(Debug, Clone, Copy, PartialEq, Eq, Structural)]
pub enum RunState {
    Queued,
    InProgress,
    RequiresAction,
    Completed,
    Failed,
    Cancelling,
    Cancelled,
    Expired,
}

/// How a run ended without success.
#[derive(Debug, Clone, Copy, PartialEq, Eq, Structural)]
pub enum FailureKind {
    Failed,
    Cancelled,
    Expired,
}

/// A run that ended without success, with what the service said of it.
pub struct RunFailure {
    pub kind: FailureKind,
    pub detail: String,
}

/// What to do after one poll.
pub enum PollAction {
    /// Sleep for the interval and poll again.
    Wait,
    /// The run completed: fetch the latest message of the thread.
    FetchResponse,
    /// The run ended without success.
    Stop(RunFailure),
}

/// The outcome of one poll: progress text for the status sink, and the next
/// action.
pub struct Tick {
    pub progress: String,
    pub action: PollAction,
}

/// Follows one run through the statuses that successive polls report.
pub struct RunPoller {
    /// The status of the previous poll, if any.
    pub previous: Option<RunState>,
    /// Delay between polls, in milliseconds.
    pub interval_ms: u64,
}

/// Whether a run in status `s` is over.
pub open spec fn is_terminal(s: RunState) -> bool {
    s == RunState::Completed || s == RunState::Failed || s == RunState::Cancelled || s
        == RunState::Expired
}

/// The notice shown when a run enters status `s`.
pub open spec fn notice(s: RunState, detail: Seq<char>) -> Seq<char> {
    match s {
        RunState::Queued => "--- Run Queued"@,
        RunState::InProgress => "--- Waiting for response..."@,
        RunState::RequiresAction => "--- Run Requires Action (not supported, still waiting)"@,
        RunState::Completed => Seq::empty(),
        RunState::Failed => "--- Run Failed: "@ + detail,
        RunState::Cancelling => "--- Run Cancelling"@,
        RunState::Cancelled => "--- Run Cancelled"@,
        RunState::Expired => "--- Run Expired"@,
    }
}

/// The progress text of a poll that sees `s` after `prev`: a dot while a run
/// stays in progress, nothing for any other repeated status, and otherwise the
/// notice of `s`, on a new line when an earlier notice was shown.
pub open spec fn progress_text(prev: Option<RunState>, s: RunState, detail: Seq<char>) -> Seq<char> {
    if prev == Some(s) {
        if s == RunState::InProgress {
            "."@
        } else {
            Seq::empty()
        }
    } else if s == RunState::Completed {
        Seq::empty()
    } else if prev is Some {
        "\n"@ + notice(s, detail)
    } else {
        notice(s, detail)
    }
}

/// Whether `a` is the action for a poll that sees `s`: wait while the run is
/// not over, fetch the response once it completed, and stop with the kind of
/// failure and `detail` otherwise.
pub open spec fn action_for(a: PollAction, s: RunState, detail: Seq<char>) -> bool {
    match s {
        RunState::Completed => a is FetchResponse,
        RunState::Failed => a is Stop && a->Stop_0.kind == FailureKind::Failed
            && a->Stop_0.detail@ == detail,
        RunState::Cancelled => a is Stop && a->Stop_0.kind == FailureKind::Cancelled
            && a->Stop_0.detail@ == detail,
        RunState::Expired => a is Stop && a->Stop_0.kind == FailureKind::Expired
            && a->Stop_0.detail@ == detail,
        _ => a is Wait,
    }
}

fn notice_text(s: RunState, detail: &str) -> (r: String)
    ensures
        r@ == notice(s, detail@),
{
    match s {
        RunState::Queued => "--- Run Queued".to_string(),
        RunState::InProgress => "--- Waiting for response...".to_string(),
        RunState::RequiresAction => "--- Run Requires Action (not supported, still waiting)".to_string(),
        RunState::Completed => String::new(),
        RunState::Failed => {
            let mut r = "--- Run Failed: ".to_string();
            r.append(detail);
            r
        },
        RunState::Cancelling => "--- Run Cancelling".to_string(),
        RunState::Cancelled => "--- Run Cancelled".to_string(),
        RunState::Expired => "--- Run Expired".to_string(),
    }
}

impl RunPoller {
    /// A poller that has seen no status yet and polls every `interval_ms`
    /// milliseconds.
    pub fn new(interval_ms: u64) -> (r: Self)
        ensures
            r.previous is None,
            r.interval_ms == interval_ms,
    {
        RunPoller { previous: None, interval_ms }
    }

    /// Takes the status `status` of one poll, with the service's account of
    /// the run in `detail`, and says what to show and what to do next.
    pub fn observe(&mut self, status: RunState, detail: &str) -> (t: Tick)
        ensures
            final(self).previous == Some(status),
            final(self).interval_ms == old(self).interval_ms,
            t.progress@ == progress_text(old(self).previous, status, detail@),
            action_for(t.action, status, detail@),
    {
        let progress = match self.previous {
            Some(p) if p == status => {
                if status == RunState::InProgress {
                    ".".to_string()
                } else {
                    String::new()
                }
            },
            _ => {
                if status == RunState::Completed {
                    String::new()
                } else if self.previous.is_some() {
                    let mut r = "\n".to_string();
                    let n = notice_text(status, detail);
                    r.append(n.as_str());
                    r
                } else {
                    notice_text(status, detail)
                }
            },
        };
        let action = match status {
            RunState::Completed => PollAction::FetchResponse,
            RunState::Failed => PollAction::Stop(
                RunFailure { kind: FailureKind::Failed, detail: detail.to_string() },
            ),
            RunState::Cancelled => PollAction::Stop(
                RunFailure { kind: FailureKind::Cancelled, detail: detail.to_string() },
            ),
            RunState::Expired => PollAction::Stop(
                RunFailure { kind: FailureKind::Expired, detail: detail.to_string() },
            ),
            _ => PollAction::Wait,
        };
        self.previous = Some(status);
        Tick { progress, action }
    }
}

/// One part of a message that the assistant wrote.
pub enum MessageBody {
    Text(String),
    /// An attached image file, by its identifier.
    ImageFile(String),
}

/// Why no reply text could be taken from a message.
pub enum ContentError {
    /// The message holds no content.
    Missing,
    /// The content is of a kind a terminal cannot show; the kind is named.
    Unsupported(String),
}

/// The reply text held by the first part of a message.
pub fn response_text(contents: &Vec<MessageBody>) -> (r: Result<String, ContentError>)
    ensures
        match r {
            Ok(s) => contents@.len() > 0 && contents@[0] is Text && s@ == contents@[0]->Text_0@,
            Err(ContentError::Missing) => contents@.len() == 0,
            Err(ContentError::Unsupported(k)) => contents@.len() > 0 && contents@[0] is ImageFile
                && k@ == "image_file"@,
        },
{
    if contents.len() == 0 {
        return Err(ContentError::Missing);
    }
    match &contents[0] {
        MessageBody::Text(s) => Ok(s.clone()),
        MessageBody::ImageFile(_) => Err(ContentError::Unsupported("image_file".to_string())),
    }
}

} // verus!
