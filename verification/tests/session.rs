use crosstalk::conversation::Role;
use crosstalk::registry::{populate, ProviderConfig, ProviderId};
use crosstalk::session::{
    configure_session, KeyBinding, MetaAction, Session, SessionAction, SessionConfig,
    SessionEvent, SessionState,
};
use crosstalk::stream::{StreamError, StreamIncrement};

fn bindings() -> Vec<KeyBinding> {
    vec![
        KeyBinding { key: 'q', action: MetaAction::Quit },
        KeyBinding { key: 'e', action: MetaAction::OpenEditor },
        KeyBinding { key: 'l', action: MetaAction::EditLast },
        KeyBinding { key: 'c', action: MetaAction::ClearHistory },
        KeyBinding { key: 's', action: MetaAction::Submit },
    ]
}

fn config(interactive: bool, editor: Option<&str>) -> SessionConfig {
    SessionConfig {
        provider: ProviderId::OpenAi,
        model: "m1".to_owned(),
        interactive,
        bindings: bindings(),
        editor: editor.map(|e| e.to_owned()),
    }
}

fn run_turn(session: &mut Session, prompt: &str, frags: &[&str]) {
    let a = session.step(SessionEvent::Line(prompt.to_owned()));
    assert!(matches!(a, SessionAction::StartCompletion));
    for f in frags {
        let a = session.step(SessionEvent::Increment(StreamIncrement::Fragment(
            (*f).to_owned(),
        )));
        assert!(matches!(a, SessionAction::Render(_)));
    }
    let joined: String = frags.concat();
    session.step(SessionEvent::Increment(StreamIncrement::Success(joined)));
}

#[test]
fn single_shot_turn_runs_to_exit() {
    // Single-shot session, prompt "hello", fragments ["Hi", " there"], then
    // success: output is "Hi there", the conversation holds exactly one user
    // and one assistant message, and the session is over (exit status 0).
    let (mut session, first) = Session::begin(config(false, None), Some("hello".to_owned()));
    assert!(matches!(first, SessionAction::StartCompletion));
    assert_eq!(session.state, SessionState::Streaming);

    let a = session.step(SessionEvent::Increment(StreamIncrement::Fragment("Hi".to_owned())));
    match a {
        SessionAction::Render(f) => assert_eq!(f, "Hi"),
        _ => panic!("expected a render action"),
    }
    let a = session.step(SessionEvent::Increment(StreamIncrement::Fragment(
        " there".to_owned(),
    )));
    assert!(matches!(a, SessionAction::Render(_)));

    let a = session.step(SessionEvent::Increment(StreamIncrement::Success(
        "Hi there".to_owned(),
    )));
    assert!(matches!(a, SessionAction::Idle));

    assert_eq!(session.fragments.concat(), "Hi there");
    let msgs = session.conversation.entries();
    assert_eq!(msgs.len(), 2);
    assert_eq!(msgs[0].role, Role::User);
    assert_eq!(msgs[0].content, "hello");
    assert_eq!(msgs[1].role, Role::Assistant);
    assert_eq!(msgs[1].content, "Hi there");
    assert_eq!(session.state, SessionState::Exiting);
}

#[test]
fn quit_while_streaming_cancels_and_exits() {
    // Interactive session, quit keybinding while a completion is in flight:
    // cancellation is requested, the session reaches Exiting, and no
    // assistant message is appended for the in-flight turn.
    let (mut session, _) = Session::begin(config(true, None), None);
    let a = session.step(SessionEvent::Line("question".to_owned()));
    assert!(matches!(a, SessionAction::StartCompletion));
    let a = session.step(SessionEvent::Increment(StreamIncrement::Fragment("par".to_owned())));
    assert!(matches!(a, SessionAction::Render(_)));

    let a = session.step(SessionEvent::Gesture('q'));
    assert!(matches!(a, SessionAction::RequestCancel));
    assert!(session.cancel_requested);
    assert_eq!(session.state, SessionState::Exiting);
    let msgs = session.conversation.entries();
    assert_eq!(msgs.len(), 1);
    assert_eq!(msgs[0].role, Role::User);
}

#[test]
fn cancellation_keeps_delivered_fragments() {
    // Cancelling after k fragments keeps exactly those k fragments as the
    // rendered record and appends no assistant message.
    let (mut session, _) = Session::begin(config(true, None), None);
    session.step(SessionEvent::Line("q".to_owned()));
    session.step(SessionEvent::Increment(StreamIncrement::Fragment("one".to_owned())));
    session.step(SessionEvent::Increment(StreamIncrement::Fragment("two".to_owned())));
    let a = session.step(SessionEvent::Increment(StreamIncrement::Cancelled));
    assert!(matches!(a, SessionAction::NoticeCancelled));
    assert_eq!(session.fragments, vec!["one".to_owned(), "two".to_owned()]);
    let msgs = session.conversation.entries();
    assert_eq!(msgs.len(), 1);
    assert_eq!(msgs[0].role, Role::User);
    assert_eq!(session.state, SessionState::AwaitingInput);
}

#[test]
fn clear_history_empties_conversation_keeps_config() {
    // Append N user/assistant pairs, then clear-history: the conversation is
    // empty while the session configuration is unchanged.
    let (mut session, _) = Session::begin(config(true, None), None);
    run_turn(&mut session, "first", &["a"]);
    run_turn(&mut session, "second", &["b"]);
    run_turn(&mut session, "third", &["c"]);
    assert_eq!(session.conversation.len(), 6);

    let a = session.step(SessionEvent::Gesture('c'));
    assert!(matches!(a, SessionAction::Idle));
    assert_eq!(session.conversation.len(), 0);
    assert_eq!(session.config.model, "m1");
    assert_eq!(session.config.provider, ProviderId::OpenAi);
    assert!(session.config.interactive);
    assert_eq!(session.config.bindings.len(), 5);
    assert_eq!(session.state, SessionState::AwaitingInput);
}

#[test]
fn failed_editor_leaves_conversation_unchanged() {
    // An editor that exits with failure status aborts only the composition.
    let (mut session, _) = Session::begin(config(true, None), None);
    run_turn(&mut session, "kept", &["reply"]);
    let before: Vec<(Role, String)> = session
        .conversation
        .entries()
        .iter()
        .map(|m| (m.role, m.content.clone()))
        .collect();

    let a = session.step(SessionEvent::Gesture('e'));
    match a {
        SessionAction::LaunchEditor { seed } => assert_eq!(seed, ""),
        _ => panic!("expected the editor to be launched"),
    }
    assert_eq!(session.state, SessionState::Composing);

    let a = session.step(SessionEvent::EditorDone {
        success: false,
        buffer: "typed but discarded".to_owned(),
    });
    assert!(matches!(a, SessionAction::ComposeAborted));
    assert_eq!(session.state, SessionState::AwaitingInput);
    let after: Vec<(Role, String)> = session
        .conversation
        .entries()
        .iter()
        .map(|m| (m.role, m.content.clone()))
        .collect();
    assert_eq!(after, before);
}

#[test]
fn empty_editor_buffer_aborts_turn() {
    let (mut session, _) = Session::begin(config(true, None), None);
    session.step(SessionEvent::Gesture('e'));
    let a = session.step(SessionEvent::EditorDone { success: true, buffer: String::new() });
    assert!(matches!(a, SessionAction::ComposeAborted));
    assert_eq!(session.conversation.len(), 0);
    assert_eq!(session.state, SessionState::AwaitingInput);
}

#[test]
fn successful_editor_buffer_starts_turn() {
    let (mut session, _) = Session::begin(config(true, None), None);
    session.step(SessionEvent::Gesture('e'));
    let a = session.step(SessionEvent::EditorDone {
        success: true,
        buffer: "from the editor".to_owned(),
    });
    assert!(matches!(a, SessionAction::StartCompletion));
    assert_eq!(session.state, SessionState::Streaming);
    let msgs = session.conversation.entries();
    assert_eq!(msgs.len(), 1);
    assert_eq!(msgs[0].content, "from the editor");
}

#[test]
fn edit_last_retracts_pair_and_seeds_editor() {
    let (mut session, _) = Session::begin(config(true, None), None);
    run_turn(&mut session, "draft prompt", &["old reply"]);
    assert_eq!(session.conversation.len(), 2);

    let a = session.step(SessionEvent::Gesture('l'));
    match a {
        SessionAction::LaunchEditor { seed } => assert_eq!(seed, "draft prompt"),
        _ => panic!("expected the editor to be launched with the prior prompt"),
    }
    assert_eq!(session.conversation.len(), 0);
    assert_eq!(session.state, SessionState::Composing);
    assert_eq!(session.last_prompt, Some("draft prompt".to_owned()));
}

#[test]
fn edit_last_with_empty_history_is_inert() {
    let (mut session, _) = Session::begin(config(true, None), None);
    let a = session.step(SessionEvent::Gesture('l'));
    assert!(matches!(a, SessionAction::Idle));
    assert_eq!(session.state, SessionState::AwaitingInput);
}

#[test]
fn unmapped_gesture_passes_through() {
    let (mut session, _) = Session::begin(config(true, None), None);
    let a = session.step(SessionEvent::Gesture('x'));
    match a {
        SessionAction::PassThrough(c) => assert_eq!(c, 'x'),
        _ => panic!("expected the gesture to pass through as text"),
    }
}

#[test]
fn empty_line_is_ignored() {
    let (mut session, _) = Session::begin(config(true, None), None);
    let a = session.step(SessionEvent::Line(String::new()));
    assert!(matches!(a, SessionAction::Idle));
    assert_eq!(session.conversation.len(), 0);
}

#[test]
fn end_of_input_exits() {
    let (mut session, _) = Session::begin(config(true, None), None);
    let a = session.step(SessionEvent::EndOfInput);
    assert!(matches!(a, SessionAction::Idle));
    assert_eq!(session.state, SessionState::Exiting);
}

#[test]
fn stream_error_leaves_turn_retryable_in_interactive_mode() {
    let (mut session, _) = Session::begin(config(true, None), None);
    session.step(SessionEvent::Line("try".to_owned()));
    let a = session.step(SessionEvent::Increment(StreamIncrement::Failed(
        StreamError::RateLimited { retry_after: Some(30) },
    )));
    match a {
        SessionAction::ReportError(e) => assert_eq!(e.retry_after(), Some(30)),
        _ => panic!("expected the failure to be reported"),
    }
    // The user message stays so the turn can be retried or edited.
    let msgs = session.conversation.entries();
    assert_eq!(msgs.len(), 1);
    assert_eq!(msgs[0].role, Role::User);
    assert_eq!(session.state, SessionState::AwaitingInput);
}

#[test]
fn stream_error_ends_single_shot_session() {
    let (mut session, _) = Session::begin(config(false, None), Some("once".to_owned()));
    let a = session.step(SessionEvent::Increment(StreamIncrement::Failed(
        StreamError::Transport,
    )));
    assert!(matches!(a, SessionAction::ReportError(StreamError::Transport)));
    assert_eq!(session.state, SessionState::Exiting);
}

#[test]
fn interrupt_while_streaming_requests_cancellation() {
    let (mut session, _) = Session::begin(config(true, None), None);
    session.step(SessionEvent::Line("slow".to_owned()));
    let a = session.step(SessionEvent::Interrupt);
    assert!(matches!(a, SessionAction::RequestCancel));
    assert!(session.cancel_requested);
    // The engine waits for the provider's Cancelled terminal.
    assert_eq!(session.state, SessionState::Streaming);
}

#[test]
fn interrupt_while_awaiting_input_ends_session() {
    let (mut session, _) = Session::begin(config(true, None), None);
    let a = session.step(SessionEvent::Interrupt);
    assert!(matches!(a, SessionAction::Idle));
    assert_eq!(session.state, SessionState::Exiting);
}

#[test]
fn session_without_prompt_but_editor_opens_editor() {
    let (session, a) = Session::begin(config(false, Some("/usr/bin/editor")), None);
    assert!(matches!(a, SessionAction::LaunchEditor { .. }));
    assert_eq!(session.state, SessionState::Composing);
}

#[test]
fn configure_session_resolves_model() {
    let reg = populate(vec![ProviderConfig {
        id: ProviderId::Anthropic,
        display_name: "B".to_owned(),
        enabled: true,
        credential: Some("key".to_owned()),
        models: vec!["m2".to_owned()],
    }])
    .unwrap();
    let requested = "m2".to_owned();
    let cfg = configure_session(&reg, Some(&requested), None, true, bindings(), None).unwrap();
    assert_eq!(cfg.provider, ProviderId::Anthropic);
    assert_eq!(cfg.model, "m2");
    assert!(cfg.interactive);
}

#[test]
fn configure_session_reports_unknown_model() {
    let reg = populate(vec![ProviderConfig {
        id: ProviderId::Anthropic,
        display_name: "B".to_owned(),
        enabled: true,
        credential: Some("key".to_owned()),
        models: vec!["m2".to_owned()],
    }])
    .unwrap();
    let requested = "m9".to_owned();
    let e = configure_session(&reg, Some(&requested), None, false, bindings(), None)
        .err()
        .unwrap();
    assert_eq!(e.requested, Some("m9".to_owned()));
    assert_eq!(e.known, vec!["m2".to_owned()]);
}

#[test]
fn quit_gesture_while_awaiting_input_exits_cleanly() {
    let (mut session, _) = Session::begin(config(true, None), None);
    run_turn(&mut session, "chat", &["ok"]);
    let a = session.step(SessionEvent::Gesture('q'));
    assert!(matches!(a, SessionAction::Idle));
    assert_eq!(session.state, SessionState::Exiting);
    assert!(!session.cancel_requested);
}
