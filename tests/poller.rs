use morpha::poller::{
    response_text, ContentError, FailureKind, MessageBody, PollAction, RunPoller, RunState,
    POLL_INTERVAL_MS,
};

#[test]
fn progress_does_not_repeat_for_repeated_statuses() {
    let mut p = RunPoller::new(POLL_INTERVAL_MS);
    let seq = [
        RunState::Queued,
        RunState::Queued,
        RunState::InProgress,
        RunState::InProgress,
        RunState::Completed,
    ];
    let mut shown = Vec::new();
    let mut actions = Vec::new();
    for s in seq {
        let t = p.observe(s, "");
        shown.push(t.progress);
        actions.push(t.action);
    }
    assert_eq!(shown, vec!["--- Run Queued", "", "\n--- Waiting for response...", ".", ""]);
    for pair in shown.windows(2) {
        assert!(pair[0].is_empty() || pair[0] != pair[1]);
    }
    assert_ne!(shown[0], shown[2]);
    for a in &actions[..4] {
        assert!(matches!(a, PollAction::Wait));
    }
    assert!(matches!(actions[4], PollAction::FetchResponse));
    assert_eq!(p.previous, Some(RunState::Completed));
    assert_eq!(p.interval_ms, 500);
}

#[test]
fn first_poll_in_progress_shows_waiting() {
    let mut p = RunPoller::new(1000);
    let t = p.observe(RunState::InProgress, "");
    assert_eq!(t.progress, "--- Waiting for response...");
    let t = p.observe(RunState::InProgress, "");
    assert_eq!(t.progress, ".");
    assert_eq!(p.interval_ms, 1000);
}

#[test]
fn failed_run_stops_with_detail() {
    let mut p = RunPoller::new(POLL_INTERVAL_MS);
    p.observe(RunState::Queued, "");
    let t = p.observe(RunState::Failed, "rate limit");
    assert_eq!(t.progress, "\n--- Run Failed: rate limit");
    match t.action {
        PollAction::Stop(f) => {
            assert_eq!(f.kind, FailureKind::Failed);
            assert_eq!(f.detail, "rate limit");
        }
        _ => panic!("a failed run must stop"),
    }
}

#[test]
fn cancelled_and_expired_runs_stop() {
    let mut p = RunPoller::new(POLL_INTERVAL_MS);
    let t = p.observe(RunState::Cancelling, "");
    assert_eq!(t.progress, "--- Run Cancelling");
    assert!(matches!(t.action, PollAction::Wait));
    let t = p.observe(RunState::Cancelled, "by user");
    assert_eq!(t.progress, "\n--- Run Cancelled");
    match t.action {
        PollAction::Stop(f) => assert_eq!(f.kind, FailureKind::Cancelled),
        _ => panic!("a cancelled run must stop"),
    }
    let mut p = RunPoller::new(POLL_INTERVAL_MS);
    let t = p.observe(RunState::Expired, "");
    assert_eq!(t.progress, "--- Run Expired");
    match t.action {
        PollAction::Stop(f) => assert_eq!(f.kind, FailureKind::Expired),
        _ => panic!("an expired run must stop"),
    }
}

#[test]
fn requires_action_keeps_waiting() {
    let mut p = RunPoller::new(POLL_INTERVAL_MS);
    let t = p.observe(RunState::RequiresAction, "");
    assert_eq!(t.progress, "--- Run Requires Action (not supported, still waiting)");
    assert!(matches!(t.action, PollAction::Wait));
    let t = p.observe(RunState::RequiresAction, "");
    assert_eq!(t.progress, "");
    assert!(matches!(t.action, PollAction::Wait));
}

#[test]
fn response_text_takes_first_text() {
    let contents = vec![MessageBody::Text("Hi there".to_string())];
    assert!(matches!(response_text(&contents), Ok(ref s) if s == "Hi there"));
}

#[test]
fn response_text_rejects_images() {
    let contents = vec![
        MessageBody::ImageFile("file-1".to_string()),
        MessageBody::Text("ignored".to_string()),
    ];
    match response_text(&contents) {
        Err(ContentError::Unsupported(k)) => assert_eq!(k, "image_file"),
        _ => panic!("an image must be refused"),
    }
}

#[test]
fn response_text_needs_content() {
    assert!(matches!(response_text(&Vec::new()), Err(ContentError::Missing)));
}
