//! The chat-session engine: a state machine over conversation history,
//! prompt composition, streaming dispatch and keybinding-driven
//! meta-actions.
//!
//! The engine is pure: the surrounding binary owns the terminal, the editor
//! process, the interrupt signal and the provider call, feeds each
//! observation in as a `SessionEvent`, performs the returned
//! `SessionAction`, and exits with status 0 once the session reaches
//! `Exiting` (resolution failure at startup, the one fatal error, is
//! reported by `configure_session` before any session exists).  Every
//! transition is pinned by `step_rel`.

use vstd::prelude::*;

use crate::conversation::{Conversation, Message, Role, ends_with_exchange, ends_with_user};
use crate::registry::{
    ProviderId, Registry, Resolution, UnknownModelError, effective_request, resolution_err,
    resolution_ok,
};
use crate::stream::{StreamError, StreamIncrement, concat_all, fragment_texts};

verus! {

/// A keybinding-triggered session command, distinct from literal text input.
#[derive(Clone, Copy, PartialEq, Eq, Structural, Debug)]
pub enum MetaAction {
    Submit,
    EditLast,
    ClearHistory,
    Quit,
    OpenEditor,
}

/// One configured binding from an input gesture to a meta-action.
pub struct KeyBinding {
    pub key: char,
    pub action: MetaAction,
}

/// Immutable per-session configuration: the resolved model, the mode, the
/// keybinding map and the optional external editor path.
pub struct SessionConfig {
    pub provider: ProviderId,
    pub model: String,
    pub interactive: bool,
    pub bindings: Vec<KeyBinding>,
    pub editor: Option<String>,
}

/// The engine's control state.
#[derive(Clone, Copy, PartialEq, Eq, Structural, Debug)]
pub enum SessionState {
    /// Blocked on user text, a gesture or end of input.
    AwaitingInput,
    /// The external editor owns the terminal.
    Composing,
    /// A completion request was dispatched; no increment arrived yet.
    Streaming,
    /// Increments of the in-flight completion are being consumed.
    Rendering,
    /// The session is over; the driver flushes output and exits with 0.
    Exiting,
}

/// The whole session: configuration, history, control state, the prompt a
/// re-edit would seed the editor with, the fragments rendered for the
/// current (or last) stream, and whether cancellation has been requested.
pub struct Session {
    pub config: SessionConfig,
    pub conversation: Conversation,
    pub state: SessionState,
    pub last_prompt: Option<String>,
    pub fragments: Vec<String>,
    pub cancel_requested: bool,
}

/// One observation the driver feeds the engine.
pub enum SessionEvent {
    /// An input gesture, to be looked up in the keybinding map.
    Gesture(char),
    /// A completed line of user text from the line editor.
    Line(String),
    /// The input stream is exhausted.
    EndOfInput,
    /// The external editor exited; `success` is its exit status, `buffer`
    /// what it left in the temporary file.
    EditorDone { success: bool, buffer: String },
    /// The next unit of the in-flight completion stream.
    Increment(StreamIncrement),
    /// The process interrupt signal fired.
    Interrupt,
}

/// What the driver must do after a step.
pub enum SessionAction {
    /// Nothing.
    Idle,
    /// The gesture is unmapped: hand it to the line editor as literal text.
    PassThrough(char),
    /// Suspend terminal control, run the editor on a buffer seeded with
    /// `seed`, and report back with `EditorDone`.
    LaunchEditor { seed: String },
    /// Invoke the resolved provider's completion call on the current
    /// conversation with a fresh cancellation token.
    StartCompletion,
    /// Write this fragment to output immediately.
    Render(String),
    /// Report this classified failure to the user; the turn stays retryable.
    ReportError(StreamError),
    /// Emit a cancellation notice; rendered fragments are kept.
    NoticeCancelled,
    /// Set the cancellation token of the in-flight completion.
    RequestCancel,
    /// Tell the user the composition was aborted; nothing was sent.
    ComposeAborted,
}

/// First-match lookup of a gesture in the keybinding map; `None` means the
/// gesture passes through as literal text.
pub open spec fn lookup_spec(bindings: Seq<KeyBinding>, key: char) -> Option<MetaAction>
    decreases bindings.len(),
{
    if bindings.len() == 0 {
        None
    } else if bindings[0].key == key {
        Some(bindings[0].action)
    } else {
        lookup_spec(bindings.drop_first(), key)
    }
}

/// Bindings from position `i` on, first match wins.
fn lookup_from(bindings: &Vec<KeyBinding>, i: usize, key: char) -> (r: Option<MetaAction>)
    requires
        i <= bindings@.len(),
    ensures
        r == lookup_spec(bindings@.skip(i as int), key),
    decreases bindings@.len() - i,
{
    if i == bindings.len() {
        None
    } else {
        proof {
            assert(bindings@.skip(i as int)[0] == bindings@[i as int]);
            assert(bindings@.skip(i as int).drop_first() =~= bindings@.skip(i as int + 1));
        }
        if bindings[i].key == key {
            Some(bindings[i].action)
        } else {
            lookup_from(bindings, i + 1, key)
        }
    }
}

/// Look a gesture up in the keybinding map.
pub fn lookup(bindings: &Vec<KeyBinding>, key: char) -> (r: Option<MetaAction>)
    ensures
        r == lookup_spec(bindings@, key),
{
    proof {
        assert(bindings@.skip(0) =~= bindings@);
    }
    lookup_from(bindings, 0, key)
}

/// The state a terminal stream outcome returns the engine to: interactive
/// sessions await the next input; a single-shot session is over after its
/// one turn.
pub open spec fn after_stream(pre: Session) -> SessionState {
    if pre.config.interactive {
        SessionState::AwaitingInput
    } else {
        SessionState::Exiting
    }
}

/// A turn begins: the composed text is appended as a user message and
/// remembered for re-editing, the fragment record and the cancellation flag
/// are reset, and the driver is told to dispatch the completion call.
pub open spec fn begins_turn(
    pre: Session,
    prompt: String,
    post: Session,
    action: SessionAction,
) -> bool {
    &&& post.config == pre.config
    &&& post.conversation@ == pre.conversation@.push(
        Message { role: Role::User, content: prompt },
    )
    &&& post.state is Streaming
    &&& post.last_prompt == Some(prompt)
    &&& post.fragments@ == Seq::<String>::empty()
    &&& post.cancel_requested == false
    &&& action is StartCompletion
}

/// Only the control state moves; everything else is untouched.
pub open spec fn enters(pre: Session, post: Session, st: SessionState) -> bool {
    &&& post.config == pre.config
    &&& post.conversation == pre.conversation
    &&& post.state == st
    &&& post.last_prompt == pre.last_prompt
    &&& post.fragments == pre.fragments
    &&& post.cancel_requested == pre.cancel_requested
}

/// The `edit-last` meta-action: the trailing exchange (or trailing
/// unanswered user message) is retracted and its prompt seeds the editor;
/// with nothing to retract, nothing happens.
pub open spec fn edit_last_rel(pre: Session, post: Session, action: SessionAction) -> bool {
    if ends_with_exchange(pre.conversation@) {
        &&& post.config == pre.config
        &&& post.conversation@ == pre.conversation@.take(pre.conversation@.len() - 2)
        &&& post.state is Composing
        &&& post.last_prompt == Some(pre.conversation@[pre.conversation@.len() - 2].content)
        &&& post.fragments == pre.fragments
        &&& post.cancel_requested == pre.cancel_requested
        &&& action == (SessionAction::LaunchEditor {
            seed: pre.conversation@[pre.conversation@.len() - 2].content,
        })
    } else if ends_with_user(pre.conversation@) {
        &&& post.config == pre.config
        &&& post.conversation@ == pre.conversation@.take(pre.conversation@.len() - 1)
        &&& post.state is Composing
        &&& post.last_prompt == Some(pre.conversation@[pre.conversation@.len() - 1].content)
        &&& post.fragments == pre.fragments
        &&& post.cancel_requested == pre.cancel_requested
        &&& action == (SessionAction::LaunchEditor {
            seed: pre.conversation@[pre.conversation@.len() - 1].content,
        })
    } else {
        post == pre && action is Idle
    }
}

/// The full transition relation of the engine: given the state before the
/// step and the observed event, it pins the state after the step and the
/// action handed back to the driver.
pub open spec fn step_rel(
    pre: Session,
    event: SessionEvent,
    post: Session,
    action: SessionAction,
) -> bool {
    match pre.state {
        SessionState::AwaitingInput => match event {
            SessionEvent::Line(s) => if s@.len() == 0 {
                post == pre && action is Idle
            } else {
                begins_turn(pre, s, post, action)
            },
            SessionEvent::Gesture(c) => match lookup_spec(pre.config.bindings@, c) {
                None => post == pre && action == SessionAction::PassThrough(c),
                Some(MetaAction::Quit) => enters(pre, post, SessionState::Exiting)
                    && action is Idle,
                Some(MetaAction::ClearHistory) => {
                    &&& post.config == pre.config
                    &&& post.conversation@ == Seq::<Message>::empty()
                    &&& post.state == pre.state
                    &&& post.last_prompt == pre.last_prompt
                    &&& post.fragments == pre.fragments
                    &&& post.cancel_requested == pre.cancel_requested
                    &&& action is Idle
                },
                Some(MetaAction::OpenEditor) => {
                    &&& enters(pre, post, SessionState::Composing)
                    &&& (action matches SessionAction::LaunchEditor { seed } && seed@
                        == Seq::<char>::empty())
                },
                Some(MetaAction::EditLast) => edit_last_rel(pre, post, action),
                Some(MetaAction::Submit) => post == pre && action is Idle,
            },
            SessionEvent::EndOfInput => enters(pre, post, SessionState::Exiting)
                && action is Idle,
            SessionEvent::Interrupt => enters(pre, post, SessionState::Exiting)
                && action is Idle,
            _ => post == pre && action is Idle,
        },
        SessionState::Composing => match event {
            SessionEvent::EditorDone { success, buffer } => if !success || buffer@.len() == 0 {
                enters(pre, post, SessionState::AwaitingInput) && action is ComposeAborted
            } else {
                begins_turn(pre, buffer, post, action)
            },
            SessionEvent::EndOfInput => enters(pre, post, SessionState::Exiting)
                && action is Idle,
            SessionEvent::Interrupt => enters(pre, post, SessionState::Exiting)
                && action is Idle,
            _ => post == pre && action is Idle,
        },
        SessionState::Streaming | SessionState::Rendering => match event {
            SessionEvent::Increment(inc) => match inc {
                StreamIncrement::Fragment(f) => {
                    &&& post.config == pre.config
                    &&& post.conversation == pre.conversation
                    &&& post.state is Rendering
                    &&& post.last_prompt == pre.last_prompt
                    &&& post.fragments@ == pre.fragments@.push(f)
                    &&& post.cancel_requested == pre.cancel_requested
                    &&& action == SessionAction::Render(f)
                },
                StreamIncrement::Success(m) => {
                    &&& post.config == pre.config
                    &&& post.conversation@ == pre.conversation@.push(
                        Message { role: Role::Assistant, content: m },
                    )
                    &&& post.state == after_stream(pre)
                    &&& post.last_prompt == pre.last_prompt
                    &&& post.fragments == pre.fragments
                    &&& post.cancel_requested == pre.cancel_requested
                    &&& action is Idle
                },
                StreamIncrement::Failed(e) => {
                    &&& enters(pre, post, after_stream(pre))
                    &&& action == SessionAction::ReportError(e)
                },
                StreamIncrement::Cancelled => {
                    &&& enters(pre, post, after_stream(pre))
                    &&& action is NoticeCancelled
                },
            },
            SessionEvent::Gesture(c) => if lookup_spec(pre.config.bindings@, c) == Some(
                MetaAction::Quit,
            ) {
                &&& post.config == pre.config
                &&& post.conversation == pre.conversation
                &&& post.state is Exiting
                &&& post.last_prompt == pre.last_prompt
                &&& post.fragments == pre.fragments
                &&& post.cancel_requested == true
                &&& action is RequestCancel
            } else {
                post == pre && action is Idle
            },
            SessionEvent::Interrupt => {
                &&& post.config == pre.config
                &&& post.conversation == pre.conversation
                &&& post.state == pre.state
                &&& post.last_prompt == pre.last_prompt
                &&& post.fragments == pre.fragments
                &&& post.cancel_requested == true
                &&& action is RequestCancel
            },
            _ => post == pre && action is Idle,
        },
        SessionState::Exiting => post == pre && action is Idle,
    }
}

impl Session {
    /// Append the composed prompt as a user message and dispatch the
    /// completion call.
    fn begin_turn(&mut self, prompt: String) -> (action: SessionAction)
        ensures
            begins_turn(*old(self), prompt, *final(self), action),
    {
        let recorded = prompt.clone();
        self.conversation.append(Message { role: Role::User, content: recorded });
        self.last_prompt = Some(prompt);
        self.state = SessionState::Streaming;
        self.fragments = Vec::new();
        self.cancel_requested = false;
        SessionAction::StartCompletion
    }

    /// Drive the engine by one observed event; the returned action is what
    /// the driver must perform next.  The behaviour is exactly `step_rel`.
    pub fn step(&mut self, event: SessionEvent) -> (action: SessionAction)
        ensures
            step_rel(*old(self), event, *final(self), action),
    {
        match self.state {
            SessionState::AwaitingInput => match event {
                SessionEvent::Line(s) => {
                    if s.as_str().is_empty() {
                        SessionAction::Idle
                    } else {
                        self.begin_turn(s)
                    }
                },
                SessionEvent::Gesture(c) => match lookup(&self.config.bindings, c) {
                    None => SessionAction::PassThrough(c),
                    Some(MetaAction::Quit) => {
                        self.state = SessionState::Exiting;
                        SessionAction::Idle
                    },
                    Some(MetaAction::ClearHistory) => {
                        self.conversation.clear();
                        SessionAction::Idle
                    },
                    Some(MetaAction::OpenEditor) => {
                        self.state = SessionState::Composing;
                        SessionAction::LaunchEditor { seed: String::new() }
                    },
                    Some(MetaAction::EditLast) => {
                        match self.conversation.drop_last_exchange() {
                            Some(prior) => {
                                let seed = prior.clone();
                                self.last_prompt = Some(prior);
                                self.state = SessionState::Composing;
                                SessionAction::LaunchEditor { seed }
                            },
                            None => SessionAction::Idle,
                        }
                    },
                    Some(MetaAction::Submit) => SessionAction::Idle,
                },
                SessionEvent::EndOfInput => {
                    self.state = SessionState::Exiting;
                    SessionAction::Idle
                },
                SessionEvent::Interrupt => {
                    self.state = SessionState::Exiting;
                    SessionAction::Idle
                },
                _ => SessionAction::Idle,
            },
            SessionState::Composing => match event {
                SessionEvent::EditorDone { success, buffer } => {
                    if !success || buffer.as_str().is_empty() {
                        self.state = SessionState::AwaitingInput;
                        SessionAction::ComposeAborted
                    } else {
                        self.begin_turn(buffer)
                    }
                },
                SessionEvent::EndOfInput => {
                    self.state = SessionState::Exiting;
                    SessionAction::Idle
                },
                SessionEvent::Interrupt => {
                    self.state = SessionState::Exiting;
                    SessionAction::Idle
                },
                _ => SessionAction::Idle,
            },
            SessionState::Streaming | SessionState::Rendering => match event {
                SessionEvent::Increment(inc) => match inc {
                    StreamIncrement::Fragment(f) => {
                        let rendered = f.clone();
                        self.fragments.push(rendered);
                        self.state = SessionState::Rendering;
                        SessionAction::Render(f)
                    },
                    StreamIncrement::Success(m) => {
                        self.conversation.append(Message { role: Role::Assistant, content: m });
                        self.state = if self.config.interactive {
                            SessionState::AwaitingInput
                        } else {
                            SessionState::Exiting
                        };
                        SessionAction::Idle
                    },
                    StreamIncrement::Failed(e) => {
                        self.state = if self.config.interactive {
                            SessionState::AwaitingInput
                        } else {
                            SessionState::Exiting
                        };
                        SessionAction::ReportError(e)
                    },
                    StreamIncrement::Cancelled => {
                        self.state = if self.config.interactive {
                            SessionState::AwaitingInput
                        } else {
                            SessionState::Exiting
                        };
                        SessionAction::NoticeCancelled
                    },
                },
                SessionEvent::Gesture(c) => {
                    let meta = lookup(&self.config.bindings, c);
                    if meta == Some(MetaAction::Quit) {
                        self.cancel_requested = true;
                        self.state = SessionState::Exiting;
                        SessionAction::RequestCancel
                    } else {
                        SessionAction::Idle
                    }
                },
                SessionEvent::Interrupt => {
                    self.cancel_requested = true;
                    SessionAction::RequestCancel
                },
                _ => SessionAction::Idle,
            },
            SessionState::Exiting => SessionAction::Idle,
        }
    }
}

/// How a session starts: with an inline prompt the first turn is dispatched
/// at once; with no prompt but a configured external editor the engine opens
/// the editor; otherwise it awaits input.
pub open spec fn begin_rel(
    config: SessionConfig,
    initial_prompt: Option<String>,
    post: Session,
    action: SessionAction,
) -> bool {
    &&& post.config == config
    &&& post.cancel_requested == false
    &&& match initial_prompt {
        Some(p) => if p@.len() > 0 {
            &&& post.conversation@ == Seq::<Message>::empty().push(
                Message { role: Role::User, content: p },
            )
            &&& post.state is Streaming
            &&& post.last_prompt == Some(p)
            &&& post.fragments@ == Seq::<String>::empty()
            &&& action is StartCompletion
        } else {
            idle_start(post, action)
        },
        None => if config.editor is Some {
            &&& post.conversation@ == Seq::<Message>::empty()
            &&& post.state is Composing
            &&& post.last_prompt is None
            &&& post.fragments@ == Seq::<String>::empty()
            &&& (action matches SessionAction::LaunchEditor { seed } && seed@
                == Seq::<char>::empty())
        } else {
            idle_start(post, action)
        },
    }
}

/// A session that starts with nothing to do: empty history, awaiting input.
pub open spec fn idle_start(post: Session, action: SessionAction) -> bool {
    &&& post.conversation@ == Seq::<Message>::empty()
    &&& post.state is AwaitingInput
    &&& post.last_prompt is None
    &&& post.fragments@ == Seq::<String>::empty()
    &&& action is Idle
}

impl Session {
    /// Start a session under the given configuration, consuming the inline
    /// prompt (argument or piped input) exactly once if one was supplied.
    pub fn begin(config: SessionConfig, initial_prompt: Option<String>) -> (r: (
        Session,
        SessionAction,
    ))
        ensures
            begin_rel(config, initial_prompt, r.0, r.1),
    {
        let open_editor = config.editor.is_some();
        let mut session = Session {
            config,
            conversation: Conversation::new(),
            state: SessionState::AwaitingInput,
            last_prompt: None,
            fragments: Vec::new(),
            cancel_requested: false,
        };
        match initial_prompt {
            Some(p) => {
                if p.as_str().is_empty() {
                    (session, SessionAction::Idle)
                } else {
                    let action = session.begin_turn(p);
                    (session, action)
                }
            },
            None => {
                if open_editor {
                    session.state = SessionState::Composing;
                    (session, SessionAction::LaunchEditor { seed: String::new() })
                } else {
                    (session, SessionAction::Idle)
                }
            },
        }
    }
}

/// Resolve the requested (or default) model against the registry once, at
/// session startup, and fix the session's configuration.  Failure here is
/// the one fatal error: the driver reports it and exits non-zero.
pub fn configure_session(
    registry: &Registry,
    requested: Option<&String>,
    default: Option<&String>,
    interactive: bool,
    bindings: Vec<KeyBinding>,
    editor: Option<String>,
) -> (r: Result<SessionConfig, UnknownModelError>)
    ensures
        match r {
            Ok(cfg) => {
                &&& resolution_ok(
                    registry@,
                    effective_request(requested, default),
                    (Resolution { provider: cfg.provider, model: cfg.model }),
                )
                &&& cfg.interactive == interactive
                &&& cfg.bindings == bindings
                &&& cfg.editor == editor
            },
            Err(e) => resolution_err(registry@, effective_request(requested, default), e),
        },
{
    match registry.resolve(requested, default) {
        Ok(res) => Ok(
            SessionConfig {
                provider: res.provider,
                model: res.model,
                interactive,
                bindings,
                editor,
            },
        ),
        Err(e) => Err(e),
    }
}

/// A run of the engine over a sequence of stream increments: some chain of
/// `step` calls, one per increment in order, leads from `pre` to `post`.
pub open spec fn steps_ok(pre: Session, incs: Seq<StreamIncrement>, post: Session) -> bool
    decreases incs.len(),
{
    if incs.len() == 0 {
        post == pre
    } else {
        exists|mid: Session, a: SessionAction|
            #[trigger] step_rel(pre, SessionEvent::Increment(incs[0]), mid, a) && steps_ok(
                mid,
                incs.drop_first(),
                post,
            )
    }
}

/// A run grows on the right: one more verified `step` on one more increment
/// extends it.  With `steps_ok(s, Seq::empty(), s)` this lets a driver build
/// the run hypothesis of the stream laws out of `step`'s own contract.
pub proof fn lemma_steps_extend(
    pre: Session,
    incs: Seq<StreamIncrement>,
    mid: Session,
    inc: StreamIncrement,
    post: Session,
    action: SessionAction,
)
    requires
        steps_ok(pre, incs, mid),
        step_rel(mid, SessionEvent::Increment(inc), post, action),
    ensures
        steps_ok(pre, incs.push(inc), post),
    decreases incs.len(),
{
    if incs.len() == 0 {
        assert(incs.push(inc)[0] == inc);
        assert(incs.push(inc).drop_first() =~= Seq::<StreamIncrement>::empty());
        assert(step_rel(pre, SessionEvent::Increment(incs.push(inc)[0]), post, action));
        assert(steps_ok(post, incs.push(inc).drop_first(), post));
        assert(steps_ok(pre, incs.push(inc), post));
    } else {
        let (m1, a1) = choose|m1: Session, a1: SessionAction|
            #[trigger] step_rel(pre, SessionEvent::Increment(incs[0]), m1, a1) && steps_ok(
                m1,
                incs.drop_first(),
                mid,
            );
        lemma_steps_extend(m1, incs.drop_first(), mid, inc, post, action);
        assert(incs.push(inc)[0] == incs[0]);
        assert(incs.push(inc).drop_first() =~= incs.drop_first().push(inc));
        assert(step_rel(pre, SessionEvent::Increment(incs.push(inc)[0]), m1, a1));
        assert(steps_ok(m1, incs.push(inc).drop_first(), post));
        assert(steps_ok(pre, incs.push(inc), post));
    }
}

/// Law: however many turn pairs have accumulated, the `clear-history`
/// meta-action empties the conversation while the session configuration is
/// unchanged.
pub proof fn lemma_clear_history(pre: Session, key: char, post: Session, action: SessionAction)
    requires
        pre.state is AwaitingInput,
        lookup_spec(pre.config.bindings@, key) == Some(MetaAction::ClearHistory),
        step_rel(pre, SessionEvent::Gesture(key), post, action),
    ensures
        post.conversation@ == Seq::<Message>::empty(),
        post.config == pre.config,
{
}

/// Law: an editor invocation that exits with failure status aborts the turn
/// and leaves the conversation byte for byte as it was when composing
/// began.
pub proof fn lemma_editor_failure(pre: Session, buffer: String, post: Session, action: SessionAction)
    requires
        pre.state is Composing,
        step_rel(pre, SessionEvent::EditorDone { success: false, buffer }, post, action),
    ensures
        post.conversation == pre.conversation,
        post.state is AwaitingInput,
        post.config == pre.config,
{
}

/// Law: cancelling an in-flight completion after `k` fragments have been
/// delivered preserves exactly those `k` fragments as the rendered record
/// and appends no assistant message.
pub proof fn lemma_cancelled_stream(pre: Session, frags: Seq<StreamIncrement>, post: Session)
    requires
        pre.state is Streaming || pre.state is Rendering,
        forall|i: int| 0 <= i < frags.len() ==> frags[i] is Fragment,
        steps_ok(pre, frags.push(StreamIncrement::Cancelled), post),
    ensures
        post.conversation == pre.conversation,
        post.fragments@.map_values(|s: String| s@) == pre.fragments@.map_values(|s: String| s@)
            + fragment_texts(frags),
        post.config == pre.config,
        post.state == after_stream(pre),
    decreases frags.len(),
{
    let chain = frags.push(StreamIncrement::Cancelled);
    let (mid, a) = choose|mid: Session, a: SessionAction|
        #[trigger] step_rel(pre, SessionEvent::Increment(chain[0]), mid, a) && steps_ok(
            mid,
            chain.drop_first(),
            post,
        );
    if frags.len() == 0 {
        assert(chain[0] == StreamIncrement::Cancelled);
        assert(chain.drop_first() =~= Seq::<StreamIncrement>::empty());
        assert(post == mid);
        assert(post.fragments@.map_values(|s: String| s@) =~= pre.fragments@.map_values(
            |s: String| s@,
        ) + fragment_texts(frags));
    } else {
        assert(chain[0] == frags[0]);
        assert(frags[0] is Fragment);
        assert(chain.drop_first() =~= frags.drop_first().push(StreamIncrement::Cancelled));
        assert(forall|i: int|
            0 <= i < frags.drop_first().len() ==> frags.drop_first()[i] == frags[i + 1]
                && frags.drop_first()[i] is Fragment);
        lemma_cancelled_stream(mid, frags.drop_first(), post);
        assert(post.fragments@.map_values(|s: String| s@) =~= pre.fragments@.map_values(
            |s: String| s@,
        ) + fragment_texts(frags));
    }
}

/// Law: a successful completion appends exactly one assistant message
/// carrying the stream's assembled text, and the rendered record is the
/// delivered fragments in order; when the provider assembled the terminal
/// from its fragments (as the protocol requires) and the stream is the
/// session's whole rendered record, the appended message equals the
/// concatenation of the rendered fragments — the round trip is consistent.
pub proof fn lemma_success_appends(
    pre: Session,
    frags: Seq<StreamIncrement>,
    message: String,
    post: Session,
)
    requires
        pre.state is Streaming || pre.state is Rendering,
        forall|i: int| 0 <= i < frags.len() ==> frags[i] is Fragment,
        steps_ok(pre, frags.push(StreamIncrement::Success(message)), post),
    ensures
        post.conversation@ == pre.conversation@.push(
            (Message { role: Role::Assistant, content: message }),
        ),
        post.fragments@.map_values(|s: String| s@) == pre.fragments@.map_values(|s: String| s@)
            + fragment_texts(frags),
        post.config == pre.config,
        post.state == after_stream(pre),
        (message@ == concat_all(fragment_texts(frags)) && pre.fragments@.len() == 0) ==> message@
            == concat_all(post.fragments@.map_values(|s: String| s@)),
    decreases frags.len(),
{
    let chain = frags.push(StreamIncrement::Success(message));
    let (mid, a) = choose|mid: Session, a: SessionAction|
        #[trigger] step_rel(pre, SessionEvent::Increment(chain[0]), mid, a) && steps_ok(
            mid,
            chain.drop_first(),
            post,
        );
    if frags.len() == 0 {
        assert(chain[0] == StreamIncrement::Success(message));
        assert(chain.drop_first() =~= Seq::<StreamIncrement>::empty());
        assert(post == mid);
        assert(post.fragments@.map_values(|s: String| s@) =~= pre.fragments@.map_values(
            |s: String| s@,
        ) + fragment_texts(frags));
    } else {
        assert(chain[0] == frags[0]);
        assert(frags[0] is Fragment);
        assert(chain.drop_first() =~= frags.drop_first().push(StreamIncrement::Success(message)));
        assert(forall|i: int|
            0 <= i < frags.drop_first().len() ==> frags.drop_first()[i] == frags[i + 1]
                && frags.drop_first()[i] is Fragment);
        lemma_success_appends(mid, frags.drop_first(), message, post);
        assert(post.fragments@.map_values(|s: String| s@) =~= pre.fragments@.map_values(
            |s: String| s@,
        ) + fragment_texts(frags));
    }
    if message@ == concat_all(fragment_texts(frags)) && pre.fragments@.len() == 0 {
        assert(pre.fragments@.map_values(|s: String| s@) + fragment_texts(frags)
            =~= fragment_texts(frags));
    }
}

} // verus!
