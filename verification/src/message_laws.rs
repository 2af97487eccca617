//! What holds of the messages of the server.
use crate::app::{ActivityStateView, AppView, ChatEntryView, ConnState, Screen};
use crate::protocol::{
    kind_of_type, AgentEventView, ClientMsgView, DataKind, EventEnvelopeView, FileIndexDataView,
    RawServerMsgView, RedoResultDataView, ServerDataView, SessionCreatedDataView, SessionGroupView,
    SessionLoadedDataView, StateDataView, UndoResultDataView,
};
use crate::seqs::{in_order, lemma_first_index, lemma_first_is, lemma_first_none};
use crate::server_msg::{
    each_sorted, group_sorted, groups_sorted, law_session_list_is_sorted, newer_group,
    newer_session, prompt_event, session_total, JournalView,
};
use crate::text::{decimal, ordered};
use vstd::prelude::*;

verus! {

/// A message of a type with its data.
pub open spec fn message_of(msg_type: Seq<char>, data: ServerDataView) -> RawServerMsgView {
    RawServerMsgView { msg_type, data: Some(data) }
}

/// Each type of message stands for the data of its name, and no two for the same.
pub proof fn law_message_types()
    ensures
        kind_of_type("state"@) == Some(DataKind::State),
        kind_of_type("reasoning_effort"@) == Some(DataKind::ReasoningEffort),
        kind_of_type("agent_mode"@) == Some(DataKind::AgentMode),
        kind_of_type("file_index"@) == Some(DataKind::FileIndex),
        kind_of_type("undo_result"@) == Some(DataKind::UndoResult),
        kind_of_type("redo_result"@) == Some(DataKind::RedoResult),
        kind_of_type("session_list"@) == Some(DataKind::SessionList),
        kind_of_type("session_created"@) == Some(DataKind::SessionCreated),
        kind_of_type("session_loaded"@) == Some(DataKind::SessionLoaded),
        kind_of_type("session_events"@) == Some(DataKind::SessionEvents),
        kind_of_type("event"@) == Some(DataKind::Event),
        kind_of_type("all_models_list"@) == Some(DataKind::AllModels),
        kind_of_type("error"@) == Some(DataKind::Error),
        forall|a: Seq<char>, b: Seq<char>|
            #![trigger kind_of_type(a), kind_of_type(b)]
            kind_of_type(a) is Some && kind_of_type(a) == kind_of_type(b) ==> a == b,
{
    reveal_strlit("state");
    reveal_strlit("reasoning_effort");
    reveal_strlit("agent_mode");
    reveal_strlit("file_index");
    reveal_strlit("undo_result");
    reveal_strlit("redo_result");
    reveal_strlit("session_list");
    reveal_strlit("session_created");
    reveal_strlit("session_loaded");
    reveal_strlit("session_events");
    reveal_strlit("event");
    reveal_strlit("all_models_list");
    reveal_strlit("error");
    assert("state"@.len() == 5 && "event"@.len() == 5 && "error"@.len() == 5);
    assert("state"@[0] == 's' && "event"@[0] == 'e' && "error"@[0] == 'e');
    assert("event"@[1] == 'v' && "error"@[1] == 'r');
    assert("reasoning_effort"@.len() == 16);
    assert("agent_mode"@.len() == 10 && "file_index"@.len() == 10);
    assert("agent_mode"@[0] == 'a' && "file_index"@[0] == 'f');
    assert("undo_result"@.len() == 11 && "redo_result"@.len() == 11);
    assert("undo_result"@[0] == 'u' && "redo_result"@[0] == 'r');
    assert("session_list"@.len() == 12);
    assert("session_created"@.len() == 15 && "all_models_list"@.len() == 15);
    assert("session_created"@[0] == 's' && "all_models_list"@[0] == 'a');
    assert("session_loaded"@.len() == 14 && "session_events"@.len() == 14);
    assert("session_loaded"@[8] == 'l' && "session_events"@[8] == 'e');
}

/// Events of the session that is open take effect one after the other, in their
/// order; events of another leave everything but the note of its activity as it is.
/// A single event does what a list of one does.  Nothing is sent for events.
pub proof fn law_events_concern_their_session(
    app: AppView,
    d: crate::protocol::SessionEventsDataView,
    single: crate::protocol::EventDataView,
)
    ensures
        ({
            let (after, sent) = app.message(
                message_of("session_events"@, ServerDataView::SessionEvents(d)),
            );
            let (one, none) = app.message(message_of("event"@, ServerDataView::Event(single)));
            let noted = app.activity_noted(d.session_id);
            &&& sent.len() == 0 && none.len() == 0
            &&& app.session_id != Some(d.session_id) ==> after == (AppView {
                session_activity: after.session_activity,
                ..app
            })
            &&& app.session_id == Some(d.session_id) ==> after == noted.live_events(
                d.events,
                d.events.len() as int,
            )
            &&& app.session_id != Some(single.session_id) ==> one == (AppView {
                session_activity: one.session_activity,
                ..app
            })
            &&& app.session_id == Some(single.session_id) ==> one == app.activity_noted(
                single.session_id,
            ).live_event(single.event)
            &&& noted == (AppView { session_activity: noted.session_activity, ..app })
            &&& noted.session_activity.contains_key(d.session_id)
            &&& noted.session_activity[d.session_id].last_event_at == app.now_ns
            &&& forall|other: Seq<char>|
                other != d.session_id && #[trigger] app.session_activity.contains_key(other)
                    ==> noted.session_activity.contains_key(other)
                    && noted.session_activity[other] == app.session_activity[other]
        }),
{
    law_message_types();
    reveal(AppView::events_received);
    let noted = app.activity_noted(single.session_id);
    reveal_with_fuel(AppView::live_events, 2);
    assert(seq![single.event][0] == single.event);
}

/// Events that come in two batches take effect as in one.
pub proof fn law_events_come_one_by_one(
    app: AppView,
    first: Seq<EventEnvelopeView>,
    second: Seq<EventEnvelopeView>,
)
    ensures
        app.live_events(first + second, (first + second).len() as int) == app.live_events(
            first,
            first.len() as int,
        ).live_events(second, second.len() as int),
        forall|e: EventEnvelopeView| #[trigger]
            app.live_events(seq![e], 1) == app.live_event(e),
{
    lemma_events_split(app, first, second, second.len() as int);
    assert forall|e: EventEnvelopeView| #[trigger]
        app.live_events(seq![e], 1) == app.live_event(e) by {
        reveal_with_fuel(AppView::live_events, 2);
        assert(seq![e][0] == e);
    }
}

proof fn lemma_events_same(
    app: AppView,
    a: Seq<EventEnvelopeView>,
    b: Seq<EventEnvelopeView>,
    n: int,
)
    requires
        0 <= n <= a.len(),
        n <= b.len(),
        forall|i: int| 0 <= i < n ==> #[trigger] a[i] == b[i],
    ensures
        app.live_events(a, n) == app.live_events(b, n),
    decreases n,
{
    if n > 0 {
        lemma_events_same(app, a, b, n - 1);
        assert(a[n - 1] == b[n - 1]);
    }
}

proof fn lemma_events_split(
    app: AppView,
    first: Seq<EventEnvelopeView>,
    second: Seq<EventEnvelopeView>,
    n: int,
)
    requires
        0 <= n <= second.len(),
    ensures
        app.live_events(first + second, first.len() + n) == app.live_events(
            first,
            first.len() as int,
        ).live_events(second, n),
    decreases n,
{
    if n > 0 {
        lemma_events_split(app, first, second, n - 1);
        assert((first + second)[first.len() + n - 1] == second[n - 1]);
    } else {
        lemma_events_same(app, first + second, first, first.len() as int);
    }
}

/// A session that was created is open, on the screen and empty, whatever was there
/// before, and is subscribed to.
pub proof fn law_created_session_is_opened(app: AppView, d: SessionCreatedDataView)
    ensures
        ({
            let (after, sent) = app.message(
                message_of("session_created"@, ServerDataView::SessionCreated(d)),
            );
            &&& sent == seq![
                ClientMsgView::SubscribeSession {
                    session_id: d.session_id,
                    agent_id: Some(d.agent_id),
                },
            ]
            &&& after.session_id == Some(d.session_id)
            &&& after.agent_id == Some(d.agent_id)
            &&& after.screen == Screen::Chat
            &&& after.messages.len() == 0
            &&& after.streaming_content.len() == 0
            &&& after.undoable_turns.len() == 0
            &&& after.undo_state is None
            &&& after.elicitation is None
            &&& after.file_index.len() == 0
            &&& after.mention_state is None
            &&& after.cumulative_cost is None
            &&& after.scroll_offset == 0
            &&& after.session_stats.total_tool_calls == 0
            &&& after.session_stats.active_llm_duration == 0
            &&& after.input == app.input
            &&& after.session_cache == app.session_cache
            &&& after.session_groups == app.session_groups
            &&& after.models == app.models
        }),
{
    law_message_types();
    reveal(AppView::session_created);
}

/// A loaded session is open and on the screen.  Where the server has undone nothing,
/// its journal is replayed from an empty conversation to the end; else up to the
/// prompt at which the undone part starts, and what stands behind has no effect.
pub proof fn law_loaded_session_is_replayed(
    app: AppView,
    d: SessionLoadedDataView,
    events: JournalView,
    cut: JournalView,
    id: Seq<char>,
    k: int,
)
    requires
        d.audit == Some(events),
        d.undo_stack.len() == 1,
        d.undo_stack[0].message_id == id,
        0 <= k < events.len(),
        events[k] is Some && events[k]->0.kind is PromptReceived,
        events[k]->0.kind->PromptReceived_message_id == Some(id),
        forall|j: int|
            0 <= j < k && (#[trigger] events[j]) is Some && events[j]->0.kind is PromptReceived
                ==> events[j]->0.kind->PromptReceived_message_id != Some(id),
        cut == events.take(k),
    ensures
        app.session_loaded(d) == app.session_loaded(
            SessionLoadedDataView { audit: Some(cut), ..d },
        ),
        app.message(message_of("session_loaded"@, ServerDataView::SessionLoaded(d)))
            == app.session_loaded(d),
{
    law_message_types();
    reveal(AppView::session_loaded);
    let d2 = SessionLoadedDataView { audit: Some(cut), ..d };
    let fresh = AppView {
        activity: ActivityStateView::Idle,
        ..app.fresh_session(d.session_id, d.agent_id).caches_invalidated()
    };
    let s = (AppView {
        undo_state: fresh.undo_state_of(d.undo_stack, None, None),
        ..fresh
    }).with_status(crate::app::LogLevel::Debug, "activity"@, "ready"@);
    crate::undo::law_server_stack_is_mirrored(fresh, d.undo_stack, None, None);
    let stack = s.undo_state->0.stack;
    let f = s.undo_state->0.frontier_message_id;
    assert(stack.len() == 1 && stack[0].message_id == id);
    lemma_first_index(stack, crate::undo::frame_of(f->0));
    assert(f == Some(id));
    let p = prompt_event(id);
    assert forall|j: int| 0 <= j < k implies !p(#[trigger] events[j]) by {}
    lemma_first_is(events, p, k);
    assert forall|j: int| 0 <= j < cut.len() implies !p(#[trigger] cut[j]) by {
        assert(cut[j] == events[j]);
        assert(!p(events[j]));
    }
    lemma_first_none(cut, p);
    assert(s.replay_cutoff(events) == k);
    assert(s.replay_cutoff(cut) == k);
    lemma_replay_same(s, events, cut, k);
}

proof fn lemma_replay_same(app: AppView, a: JournalView, b: JournalView, n: int)
    requires
        0 <= n <= a.len(),
        n <= b.len(),
        forall|i: int| 0 <= i < n ==> #[trigger] a[i] == b[i],
    ensures
        app.replayed(a, n) == app.replayed(b, n),
    decreases n,
{
    if n > 0 {
        lemma_replay_same(app, a, b, n - 1);
        assert(a[n - 1] == b[n - 1]);
    }
}

/// Where nothing is undone, a replay goes through the whole journal, in its order, and
/// passes over what could not be read.
pub proof fn law_replay_goes_in_order(
    app: AppView,
    events: JournalView,
    e: AgentEventView,
)
    requires
        app.undo_state is None,
    ensures
        app.replay_cutoff(events) == events.len(),
        app.journal_replayed(None) == app,
        app.journal_replayed(Some(Seq::empty())) == app,
        app.replayed(events.push(Some(e)), events.len() as int + 1) == app.replayed(
            events,
            events.len() as int,
        ).counted(e.kind, e.timestamp).event(e.kind, true),
        app.replayed(events.push(None), events.len() as int + 1) == app.replayed(
            events,
            events.len() as int,
        ),
{
    lemma_replay_same(app, events.push(Some(e)), events, events.len() as int);
    lemma_replay_same(app, events.push(None), events, events.len() as int);
}

/// What a loaded session shows is its own: nothing is left of an earlier conversation,
/// and the server is told the mode first.  A session without a journal is empty.
pub proof fn law_loaded_session_starts_empty(app: AppView, d: SessionLoadedDataView)
    requires
        d.audit is None,
    ensures
        ({
            let (after, sent) = app.message(
                message_of("session_loaded"@, ServerDataView::SessionLoaded(d)),
            );
            &&& after.session_id == Some(d.session_id)
            &&& after.agent_id == Some(d.agent_id)
            &&& after.screen == Screen::Chat
            &&& after.activity == ActivityStateView::Idle
            &&& after.messages.len() == 0
            &&& after.streaming_content.len() == 0
            &&& after.streaming_thinking.len() == 0
            &&& after.undoable_turns.len() == 0
            &&& after.elicitation is None
            &&& after.scroll_offset == 0
            &&& after.input == app.input
            &&& d.undo_stack.len() == 0 ==> after.undo_state is None
            &&& sent.len() > 0
            &&& sent[0] == ClientMsgView::SetAgentMode { mode: app.agent_mode }
        }),
{
    law_message_types();
    reveal(AppView::session_loaded);
}

/// A session that could not be read is not opened: the one on the screen stays, and the
/// status line tells why.
pub proof fn law_unreadable_session_is_not_opened(app: AppView, reason: Seq<char>)
    ensures
        ({
            let (after, sent) = app.message(
                message_of("session_loaded"@, ServerDataView::Invalid(reason)),
            );
            &&& sent.len() == 0
            &&& after.session_id == app.session_id
            &&& after.messages == app.messages
            &&& after.screen == app.screen
            &&& after.activity == ActivityStateView::Idle
            &&& after.status == "load error: "@ + reason
        }),
{
    law_message_types();
    reveal(AppView::load_failed);
}

/// An undo that succeeded ends with the session loaded again; one that failed leaves the
/// conversation as it is and tells why.  Either way what is undone is what the server
/// says.
pub proof fn law_undo_result_is_followed(app: AppView, d: UndoResultDataView)
    ensures
        ({
            let (after, sent) = app.message(
                message_of("undo_result"@, ServerDataView::UndoResult(d)),
            );
            &&& after.activity == ActivityStateView::Idle
            &&& after.messages == app.messages
            &&& after.undoable_turns == app.undoable_turns
            &&& d.undo_stack.len() == 0 <==> after.undo_state is None
            &&& d.undo_stack.len() > 0 ==> after.undo_stack().len() == d.undo_stack.len()
            &&& d.success && app.session_id is Some ==> sent == seq![
                ClientMsgView::LoadSession { session_id: app.session_id->0 },
            ]
            &&& d.success ==> after.streaming_content.len() == 0
            &&& app.session_id is None || !d.success ==> sent.len() == 0
            &&& !d.success ==> after.streaming_content == app.streaming_content
            &&& !d.success && d.message is Some ==> after.status == d.message->0
            &&& !d.success && d.message is None ==> after.status == "undo failed"@
        }),
{
    law_message_types();
    reveal(AppView::undo_received);
}

/// The message that was undone is where the undone part starts, where the server has it
/// on its stack.
pub proof fn law_undone_message_is_the_frontier(
    app: AppView,
    d: UndoResultDataView,
    id: Seq<char>,
    i: int,
)
    requires
        d.message_id == Some(id),
        0 <= i < d.undo_stack.len(),
        d.undo_stack[i].message_id == id,
    ensures
        app.message(message_of("undo_result"@, ServerDataView::UndoResult(d))).0.frontier() == Some(
            id,
        ),
{
    law_message_types();
    reveal(AppView::undo_received);
    let idle = AppView { activity: ActivityStateView::Idle, ..app };
    let files = if d.success {
        Some(d.reverted_files)
    } else {
        None
    };
    crate::undo::law_server_stack_is_mirrored(idle, d.undo_stack, Some(id), files);
    let stack = idle.undo_state_of(d.undo_stack, Some(id), files)->0.stack;
    lemma_first_index(stack, crate::undo::frame_of(id));
    assert(crate::undo::frame_of(id)(stack[i]));
}

/// A redo that succeeded ends with the session loaded again; one that failed leaves the
/// conversation as it is and tells why.
pub proof fn law_redo_result_is_followed(app: AppView, d: RedoResultDataView)
    ensures
        ({
            let (after, sent) = app.message(
                message_of("redo_result"@, ServerDataView::RedoResult(d)),
            );
            &&& after.activity == ActivityStateView::Idle
            &&& after.messages == app.messages
            &&& after.undoable_turns == app.undoable_turns
            &&& d.undo_stack.len() == 0 <==> after.undo_state is None
            &&& d.undo_stack.len() > 0 ==> after.undo_stack().len() == d.undo_stack.len()
            &&& d.success && app.session_id is Some ==> sent == seq![
                ClientMsgView::LoadSession { session_id: app.session_id->0 },
            ]
            &&& app.session_id is None || !d.success ==> sent.len() == 0
            &&& !d.success && d.message is Some ==> after.status == d.message->0
            &&& !d.success && d.message is None ==> after.status == "redo failed"@
        }),
{
    law_message_types();
    reveal(AppView::redo_received);
}

/// The session list is the one that the server sent, the latest first, and the cursor
/// stays on a row of the start page or on the one behind them.
pub proof fn law_session_list_is_taken_over(
    app: AppView,
    groups: Seq<SessionGroupView>,
)
    ensures
        ({
            let (after, sent) = app.message(
                message_of(
                    "session_list"@,
                    ServerDataView::SessionList(
                        crate::protocol::SessionListDataView { groups },
                    ),
                ),
            );
            &&& sent.len() == 0
            &&& after.session_groups.len() == groups.len()
            &&& in_order(after.session_groups, newer_group())
            &&& after.session_groups.to_multiset() == each_sorted(groups).to_multiset()
            &&& forall|i: int|
                0 <= i < groups.len() ==> {
                    &&& (#[trigger] each_sorted(groups)[i]).cwd == groups[i].cwd
                    &&& each_sorted(groups)[i].sessions.to_multiset()
                        == groups[i].sessions.to_multiset()
                }
            &&& after.start_items().len() > 0 ==> after.session_cursor < after.start_items().len()
                || after.session_cursor == app.session_cursor
            &&& after.start_items().len() > 0 && app.session_cursor >= after.start_items().len()
                ==> after.session_cursor == after.start_items().len() - 1
            &&& app.session_cursor < after.start_items().len() ==> after.session_cursor
                == app.session_cursor
            &&& after.messages == app.messages
            &&& after.session_filter == app.session_filter
        }),
{
    law_message_types();
    reveal(AppView::list_received);
    let d = crate::protocol::SessionListDataView { groups };
    let (after, _) = app.message(message_of("session_list"@, ServerDataView::SessionList(d)));
    assert(after.session_groups == groups_sorted(groups));
    let listed = AppView { session_groups: groups_sorted(groups), ..app };
    crate::session::lemma_start_rows_depend(
        after,
        listed,
        crate::seqs::least(groups_sorted(groups).len() as int, crate::app::MAX_VISIBLE_GROUPS as int),
    );
    assert(after.start_items() == listed.start_items());
    if groups.len() > 0 {
        law_session_list_is_sorted(groups, groups[0]);
    } else {
        law_session_list_is_sorted(
            groups,
            SessionGroupView { cwd: None, sessions: Seq::empty(), latest_activity: None },
        );
    }
    assert forall|i: int| 0 <= i < groups.len() implies {
        &&& (#[trigger] each_sorted(groups)[i]).cwd == groups[i].cwd
        &&& each_sorted(groups)[i].sessions.to_multiset() == groups[i].sessions.to_multiset()
    } by {
        law_session_list_is_sorted(groups, groups[i]);
    }
}

/// The state of the server tells that it is there, which agent answers, and the mode and
/// the effort where it names them.
pub proof fn law_state_is_taken_over(app: AppView, d: StateDataView)
    ensures
        ({
            let (after, sent) = app.message(message_of("state"@, ServerDataView::State(d)));
            &&& sent.len() == 0
            &&& after.conn == ConnState::Connected
            &&& after.messages == app.messages
            &&& d.agents.len() > 0 ==> after.agent_id == Some(d.agents[0].id)
            &&& d.agents.len() == 0 ==> after.agent_id is None
            &&& d.agent_mode is Some ==> after.agent_mode == d.agent_mode->0
            &&& d.agent_mode is None ==> after.agent_mode == app.agent_mode
            &&& d.reasoning_effort is Absent ==> after.reasoning_effort == app.reasoning_effort
            &&& d.reasoning_effort is Auto ==> after.reasoning_effort is None
            &&& d.reasoning_effort is Level ==> after.reasoning_effort == Some(
                d.reasoning_effort->Level_0,
            )
        }),
{
    law_message_types();
    reveal(AppView::state_received);
}

/// The effort that the server reports is in effect and remembered for the session and its
/// mode; the automatic one is told by its name or by none.
pub proof fn law_effort_is_taken_over(app: AppView, level: Option<Seq<char>>)
    ensures
        ({
            let (after, sent) = app.message(
                message_of(
                    "reasoning_effort"@,
                    ServerDataView::ReasoningEffort(
                        crate::protocol::ReasoningEffortDataView { reasoning_effort: level },
                    ),
                ),
            );
            &&& sent.len() == 0
            &&& after.messages == app.messages
            &&& level is None || level == Some("auto"@) ==> after.reasoning_effort is None
            &&& level is Some && level != Some("auto"@) ==> after.reasoning_effort == level
            &&& app.session_id is Some && app.current_provider is Some && app.current_model is Some
                ==> after.remembered() is Some && after.remembered()->0.effort
                == after.reasoning_effort
        }),
{
    law_message_types();
    reveal(AppView::effort_received);
}

/// The files that the server lists can be mentioned, in its order.
pub proof fn law_file_index_is_taken_over(app: AppView, d: FileIndexDataView)
    ensures
        ({
            let (after, sent) = app.message(
                message_of("file_index"@, ServerDataView::FileIndex(d)),
            );
            &&& sent.len() == 0
            &&& !after.file_index_loading
            &&& after.file_index_error is None
            &&& after.file_index_generated_at == Some(d.generated_at)
            &&& after.file_index.len() == d.files.len()
            &&& forall|i: int|
                0 <= i < d.files.len() ==> (#[trigger] after.file_index[i]).path == d.files[i].path
                    && after.file_index[i].is_dir == d.files[i].is_dir
            &&& after.input == app.input
            &&& after.messages == app.messages
        }),
{
    law_message_types();
    reveal(AppView::index_received);
}

/// The mode and the models that the server reports are in effect, and nothing else
/// changes with them.  An error is the last entry of the conversation.
pub proof fn law_reports_are_taken_over(
    app: AppView,
    mode: crate::protocol::AgentModeDataView,
    models: crate::protocol::AllModelsDataView,
    error: crate::protocol::ErrorDataView,
)
    ensures
        app.message(message_of("agent_mode"@, ServerDataView::AgentMode(mode))) == (
            AppView { agent_mode: mode.mode, ..app },
            Seq::<ClientMsgView>::empty(),
        ),
        app.message(message_of("all_models_list"@, ServerDataView::AllModels(models))) == (
            AppView { models: models.models, ..app },
            Seq::<ClientMsgView>::empty(),
        ),
        app.message(message_of("error"@, ServerDataView::Error(error))).1.len() == 0,
        app.message(message_of("error"@, ServerDataView::Error(error))).0.messages
            == app.messages.push(ChatEntryView::Error(error.message)),
        app.message(message_of("error"@, ServerDataView::Error(error))).0.status == "error: "@
            + error.message,
{
    law_message_types();
    reveal(AppView::server_error);
}

/// A message of a type that is not known changes nothing, whatever it holds; so does one
/// without data, but for the end of an undo or a redo.
pub proof fn law_unknown_messages_are_passed_over(app: AppView, m: RawServerMsgView)
    ensures
        kind_of_type(m.msg_type) is None ==> app.message(m) == (
            app,
            Seq::<ClientMsgView>::empty(),
        ),
        m.data is None && kind_of_type(m.msg_type) != Some(DataKind::UndoResult) && kind_of_type(
            m.msg_type,
        ) != Some(DataKind::RedoResult) ==> app.message(m) == (app, Seq::<ClientMsgView>::empty()),
        m.data is None ==> app.message(m).1.len() == 0 && app.message(m).0.messages
            == app.messages,
        m.data is None && (kind_of_type(m.msg_type) == Some(DataKind::UndoResult) || kind_of_type(
            m.msg_type,
        ) == Some(DataKind::RedoResult)) ==> app.message(m).0.activity == ActivityStateView::Idle,
{
}

/// Of two sessions of a group, and of two groups by their first sessions, the one that
/// changed later stands first; those of which it is not known stand last.
pub proof fn law_later_sessions_stand_first(groups: Seq<SessionGroupView>, g: SessionGroupView)
    ensures
        forall|i: int, j: int|
            0 <= i < j < group_sorted(g).sessions.len() ==> {
                let a = (#[trigger] group_sorted(g).sessions[i]).updated_at;
                let b = (#[trigger] group_sorted(g).sessions[j]).updated_at;
                b is None || (a is Some && ordered(b->0, a->0))
            },
        forall|i: int, j: int|
            0 <= i < j < groups_sorted(groups).len() && (#[trigger] groups_sorted(
                groups,
            )[i]).sessions.len() > 0 && (#[trigger] groups_sorted(groups)[j]).sessions.len() > 0 ==> {
                let a = groups_sorted(groups)[i].sessions[0].updated_at;
                let b = groups_sorted(groups)[j].sessions[0].updated_at;
                b is None || (a is Some && ordered(b->0, a->0))
            },
{
    law_session_list_is_sorted(groups, g);
    let sorted = group_sorted(g).sessions;
    assert forall|i: int, j: int| 0 <= i < j < sorted.len() implies {
        let a = (#[trigger] sorted[i]).updated_at;
        let b = (#[trigger] sorted[j]).updated_at;
        b is None || (a is Some && ordered(b->0, a->0))
    } by {
        assert(newer_session()(sorted[i], sorted[j]));
    }
    let all = groups_sorted(groups);
    assert forall|i: int, j: int|
        0 <= i < j < all.len() && (#[trigger] all[i]).sessions.len() > 0 && (
        #[trigger] all[j]).sessions.len() > 0 implies {
        let a = all[i].sessions[0].updated_at;
        let b = all[j].sessions[0].updated_at;
        b is None || (a is Some && ordered(b->0, a->0))
    } by {
        assert(newer_group()(all[i], all[j]));
    }
}

/// The status line says how many sessions the list has, over all groups.
pub proof fn law_sessions_are_counted(
    app: AppView,
    groups: Seq<SessionGroupView>,
    g: SessionGroupView,
)
    ensures
        session_total(groups.push(g), groups.len() as int + 1) == session_total(
            groups,
            groups.len() as int,
        ) + g.sessions.len(),
        session_total(groups, 0) == 0,
        ({
            let after = app.message(
                message_of(
                    "session_list"@,
                    ServerDataView::SessionList(crate::protocol::SessionListDataView { groups }),
                ),
            ).0;
            after.status == decimal(
                session_total(after.session_groups, after.session_groups.len() as int),
            ) + " session(s)"@
        }),
{
    law_message_types();
    reveal(AppView::list_received);
    lemma_total_of_first(groups, g, groups.len() as int);
}

proof fn lemma_total_of_first(groups: Seq<SessionGroupView>, g: SessionGroupView, n: int)
    requires
        0 <= n <= groups.len(),
    ensures
        session_total(groups.push(g), n) == session_total(groups, n),
    decreases n,
{
    if n > 0 {
        lemma_total_of_first(groups, g, n - 1);
    }
}

/// A session that is opened shows nothing of the one before: no entries, no stream, no files,
/// no question, no figures; and the view is at its end.
pub proof fn law_opened_session_is_fresh(app: AppView, session_id: Seq<char>, agent_id: Seq<char>)
    ensures
        ({
            let s = app.fresh_session(session_id, agent_id);
            &&& s.session_id == Some(session_id)
            &&& s.agent_id == Some(agent_id)
            &&& s.screen == Screen::Chat
            &&& s.messages.len() == 0
            &&& s.streaming_content.len() == 0
            &&& s.scroll_offset == 0
            &&& s.undoable_turns.len() == 0
            &&& s.file_index.len() == 0
            &&& s.file_index_generated_at is None
            &&& !s.file_index_loading
            &&& s.file_index_error is None
            &&& s.mention_state is None
            &&& s.last_compaction_token_estimate is None
            &&& s.elicitation is None
            &&& s.pending_cancel_confirm_until is None
            &&& s.cumulative_cost is None
            &&& s.session_stats.total_tool_calls == 0
            &&& s.session_stats.active_llm_duration == 0
            &&& s.session_stats.latest_context_tokens is None
            &&& s.session_stats.open_llm_request_ts is None
            &&& s.session_stats.open_llm_request_instant is None
            &&& s.input == app.input
        }),
{
}

/// After a session was loaded the server is told the mode first, and then what is remembered
/// for it.
pub proof fn law_mode_is_told_after_loading(app: AppView, d: SessionLoadedDataView)
    ensures
        ({
            let (after, sent) = app.message(
                message_of("session_loaded"@, ServerDataView::SessionLoaded(d)),
            );
            &&& sent.len() > 0
            &&& sent[0] == (ClientMsgView::SetAgentMode { mode: after.agent_mode })
            &&& sent.len() <= 3
        }),
{
    law_message_types();
    reveal(AppView::session_loaded);
}

} // verus!
