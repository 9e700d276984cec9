//! Reading the messages of an attached session.

use vstd::prelude::*;

verus! {

/// Phase of a session.
#[derive(Debug, Clone, Copy, PartialEq, Eq, Structural)]
pub enum SessionPhase {
    Active,
    Complete,
    Failed,
}

/// A message that a session sends to whoever attached to it. `S` is the
/// session's state, `B` a list of staged blocks.
#[derive(Debug)]
pub enum SessionMessage<S, B> {
    /// The session's state.
    StateResponse { state: S },
    /// Blocks were staged; so many remain. The layers may be limited.
    BlocksStaged { staged_blocks: B, remaining: usize, layer_range: Option<(usize, usize)> },
    /// The session failed.
    Error { message: String },
    /// The session ended.
    Close,
    /// A command; only sessions receive these.
    Command,
}

/// What a message does to the state that the handle shows.
#[derive(Debug)]
pub enum ReceiverAction<S, B> {
    Update(S),
    AddStagedBlocks { staged_blocks: B, remaining: usize, layer_range: Option<(usize, usize)> },
    SetFailed,
    SetPhase(SessionPhase),
    Ignore,
}

/// The effect of a message.
pub open spec fn action_of<S, B>(message: SessionMessage<S, B>) -> ReceiverAction<S, B> {
    match message {
        SessionMessage::StateResponse { state } => ReceiverAction::Update(state),
        SessionMessage::BlocksStaged { staged_blocks, remaining, layer_range } =>
            ReceiverAction::AddStagedBlocks { staged_blocks, remaining, layer_range },
        SessionMessage::Error { .. } => ReceiverAction::SetFailed,
        SessionMessage::Close => ReceiverAction::SetPhase(SessionPhase::Complete),
        SessionMessage::Command => ReceiverAction::Ignore,
    }
}

/// No message after this one is read.
pub open spec fn ends_session<S, B>(message: SessionMessage<S, B>) -> bool {
    message is Error || message is Close
}

/// How many messages are read: up to and with the first that ends the session.
pub open spec fn messages_read<S, B>(messages: Seq<SessionMessage<S, B>>) -> int
    decreases messages.len(),
{
    if messages.len() == 0 {
        0
    } else if ends_session(messages[0]) {
        1
    } else {
        1 + messages_read(messages.skip(1))
    }
}

/// Reads one message: its effect, and whether reading stops.
pub fn receive<S, B>(message: SessionMessage<S, B>) -> (step: (ReceiverAction<S, B>, bool))
    ensures
        step.0 == action_of(message),
        step.1 == ends_session(message),
{
    match message {
        SessionMessage::StateResponse { state } => (ReceiverAction::Update(state), false),
        SessionMessage::BlocksStaged { staged_blocks, remaining, layer_range } => (
            ReceiverAction::AddStagedBlocks { staged_blocks, remaining, layer_range },
            false,
        ),
        SessionMessage::Error { .. } => (ReceiverAction::SetFailed, true),
        SessionMessage::Close => (ReceiverAction::SetPhase(SessionPhase::Complete), true),
        SessionMessage::Command => (ReceiverAction::Ignore, false),
    }
}

/// Reads the messages of a session in order until one ends it.
pub fn run_session_receiver<S, B>(messages: Vec<SessionMessage<S, B>>) -> (actions: Vec<
    ReceiverAction<S, B>,
>)
    ensures
        actions@ == messages@.take(messages_read(messages@)).map_values(
            |m: SessionMessage<S, B>| action_of(m),
        ),
{
    let ghost all = messages@;
    let mut actions: Vec<ReceiverAction<S, B>> = Vec::new();
    assert(all.skip(0) =~= all);
    assert(actions@ =~= all.take(0).map_values(|m: SessionMessage<S, B>| action_of(m)));
    proof {
        lemma_read_within(all);
    }
    for message in iter: messages
        invariant
            iter.seq() == all,
            actions@ == all.take(iter.index() as int).map_values(
                |m: SessionMessage<S, B>| action_of(m),
            ),
            messages_read(all) == iter.index() + messages_read(all.skip(iter.index() as int)),
            0 <= iter.index() <= all.len(),
    {
        let ghost done = iter.index() as int;
        let ghost rest = all.skip(done);
        assert(message == all[done]);
        assert(rest[0] == all[done]);
        assert(rest.skip(1) =~= all.skip(done + 1));
        let (action, stop): (ReceiverAction<S, B>, bool) = receive(message);
        actions.push(action);
        assert(actions@ =~= all.take(done + 1).map_values(
            |m: SessionMessage<S, B>| action_of(m),
        ));
        if stop {
            return actions;
        }
    }
    assert(all.skip(all.len() as int).len() == 0);
    actions
}

proof fn lemma_read_within<S, B>(messages: Seq<SessionMessage<S, B>>)
    ensures
        0 <= messages_read(messages) <= messages.len(),
    decreases messages.len(),
{
    if messages.len() > 0 && !ends_session(messages[0]) {
        lemma_read_within(messages.skip(1));
    }
}

/// Nothing that arrives after the end of a session is read: what follows the
/// first ending message has no effect.
pub proof fn law_nothing_read_after_end<S, B>(
    messages: Seq<SessionMessage<S, B>>,
    later: Seq<SessionMessage<S, B>>,
    end: int,
)
    requires
        0 <= end < messages.len(),
        ends_session(messages[end]),
    ensures
        messages_read(messages + later) == messages_read(messages),
        messages_read(messages) <= end + 1,
    decreases messages.len(),
{
    let all = messages + later;
    assert(all[0] == messages[0]);
    if !ends_session(messages[0]) {
        assert(all.skip(1) =~= messages.skip(1) + later);
        law_nothing_read_after_end(messages.skip(1), later, end - 1);
    }
}

/// A handle shows what the session reports: its state, its staged blocks, its
/// failure and its end. Commands are for sessions and change nothing, and only
/// a failure or an end stops the reading.
pub proof fn law_handle_shows_reports<S, B>(message: SessionMessage<S, B>)
    ensures
        match message {
            SessionMessage::StateResponse { state } => action_of(message) == (
            ReceiverAction::<S, B>::Update(state)) && !ends_session(message),
            SessionMessage::BlocksStaged { staged_blocks, remaining, layer_range } => action_of(
                message,
            ) == (ReceiverAction::<S, B>::AddStagedBlocks { staged_blocks, remaining, layer_range })
                && !ends_session(message),
            SessionMessage::Error { .. } => action_of(message) == ReceiverAction::<
                S,
                B,
            >::SetFailed && ends_session(message),
            SessionMessage::Close => action_of(message) == ReceiverAction::<S, B>::SetPhase(
                SessionPhase::Complete,
            ) && ends_session(message),
            SessionMessage::Command => action_of(message) == ReceiverAction::<S, B>::Ignore
                && !ends_session(message),
        },
{
}

/// All messages are read up to the first failure or end, and that one too.
pub proof fn law_reads_up_to_the_end<S, B>(messages: Seq<SessionMessage<S, B>>, end: int)
    ensures
        (forall|i: int|
            0 <= i < messages.len() ==> !((#[trigger] messages[i]) is Error) && !(
            messages[i] is Close)) ==> messages_read(messages) == messages.len(),
        0 <= end < messages.len() && (messages[end] is Error || messages[end] is Close) && (forall|
            i: int,
        |
            0 <= i < end ==> !((#[trigger] messages[i]) is Error) && !(messages[i] is Close))
            ==> messages_read(messages) == end + 1,
    decreases messages.len(),
{
    if messages.len() > 0 && !ends_session(messages[0]) {
        let rest = messages.skip(1);
        assert forall|i: int| 0 <= i < rest.len() implies #[trigger] rest[i] == messages[i + 1] by {}
        law_reads_up_to_the_end(rest, end - 1);
    }
}

} // verus!
