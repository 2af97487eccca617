//! What holds of a conversation while its session is followed.
use crate::app::{
    ActivityStateView, AppView, ChatEntryView, ToolDetailView, UndoStateView, UndoableTurnView,
};
use crate::protocol::{CostView, EventEnvelopeView, EventKindView};
use crate::seqs::lemma_first_is;
use crate::server_msg::{no_compaction_start, user_message};
use crate::tools::{content_text, law_result_concerns_its_call};
use crate::undo::turn_of;
use vstd::prelude::*;

verus! {

// ── what is streamed ─────────────────────────────────────────────────────────

/// The events carry these pieces of an answer, one each.
pub open spec fn carry_content(events: Seq<EventEnvelopeView>, pieces: Seq<Seq<char>>) -> bool {
    &&& events.len() == pieces.len()
    &&& forall|i: int|
        0 <= i < events.len() ==> {
            let kind = (#[trigger] events[i]).inner().kind;
            kind is AssistantContentDelta && kind->AssistantContentDelta_content == pieces[i]
        }
}

/// The events carry these pieces of thinking, one each.
pub open spec fn carry_thinking(events: Seq<EventEnvelopeView>, pieces: Seq<Seq<char>>) -> bool {
    &&& events.len() == pieces.len()
    &&& forall|i: int|
        0 <= i < events.len() ==> {
            let kind = (#[trigger] events[i]).inner().kind;
            kind is AssistantThinkingDelta && kind->AssistantThinkingDelta_content == pieces[i]
        }
}

proof fn lemma_flatten_step(pieces: Seq<Seq<char>>, n: int)
    requires
        0 < n <= pieces.len(),
    ensures
        pieces.take(n).flatten() == pieces.take(n - 1).flatten() + pieces[n - 1],
{
    assert(pieces.take(n) =~= pieces.take(n - 1).push(pieces[n - 1]));
    pieces.take(n - 1).lemma_flatten_push(pieces[n - 1]);
}

proof fn lemma_content_deltas(
    app: AppView,
    events: Seq<EventEnvelopeView>,
    pieces: Seq<Seq<char>>,
    n: int,
)
    requires
        carry_content(events, pieces),
        0 <= n <= events.len(),
    ensures
        ({
            let after = app.live_events(events, n);
            &&& after.streaming_content == app.streaming_content + pieces.take(n).flatten()
            &&& after.messages == app.messages
            &&& after.streaming_thinking == app.streaming_thinking
            &&& after.undoable_turns == app.undoable_turns
            &&& after.turn_active() == app.turn_active()
            &&& n > 0 && app.turn_active() ==> after.activity == ActivityStateView::Streaming
        }),
    decreases n,
{
    if n > 0 {
        lemma_content_deltas(app, events, pieces, n - 1);
        lemma_flatten_step(pieces, n);
        assert(events[n - 1].inner().kind is AssistantContentDelta);
        reveal(AppView::streamed);
        assert(app.live_events(events, n).streaming_content =~= app.streaming_content
            + pieces.take(n).flatten());
    } else {
        assert(pieces.take(0).flatten() =~= Seq::<char>::empty());
        assert(app.streaming_content + pieces.take(0).flatten() =~= app.streaming_content);
    }
}

/// The pieces of an answer add up: what is streamed after them is what was
/// streamed before, and then the pieces in their order.  Nothing else of the
/// conversation changes.
pub proof fn law_content_deltas_accumulate(
    app: AppView,
    events: Seq<EventEnvelopeView>,
    pieces: Seq<Seq<char>>,
)
    requires
        carry_content(events, pieces),
    ensures
        ({
            let after = app.live_events(events, events.len() as int);
            &&& after.streaming_content == app.streaming_content + pieces.flatten()
            &&& app.streaming_content.is_prefix_of(after.streaming_content)
            &&& after.messages == app.messages
            &&& after.streaming_thinking == app.streaming_thinking
            &&& after.undoable_turns == app.undoable_turns
            &&& events.len() > 0 && app.turn_active() ==> after.activity
                == ActivityStateView::Streaming
            &&& !app.turn_active() ==> !after.turn_active()
        }),
{
    lemma_content_deltas(app, events, pieces, events.len() as int);
    assert(pieces.take(pieces.len() as int) =~= pieces);
}

/// A turn starts with nothing streamed, so what is streamed in it is exactly the
/// pieces that came, in their order.
pub proof fn law_turn_streams_its_pieces(
    app: AppView,
    start: EventEnvelopeView,
    events: Seq<EventEnvelopeView>,
    pieces: Seq<Seq<char>>,
)
    requires
        start.inner().kind is TurnStarted,
        carry_content(events, pieces),
    ensures
        ({
            let started = app.live_event(start);
            let after = started.live_events(events, events.len() as int);
            &&& started.messages == app.messages
            &&& started.activity == ActivityStateView::Thinking
            &&& started.streaming_content.len() == 0
            &&& started.streaming_thinking.len() == 0
            &&& started.pending_cancel_confirm_until is None
            &&& after.streaming_content == pieces.flatten()
            &&& after.messages == app.messages
        }),
{
    reveal(AppView::turn_started);
    let started = app.live_event(start);
    law_content_deltas_accumulate(started, events, pieces);
    assert(started.streaming_content + pieces.flatten() =~= pieces.flatten());
}

proof fn lemma_thinking_deltas(
    app: AppView,
    events: Seq<EventEnvelopeView>,
    pieces: Seq<Seq<char>>,
    n: int,
)
    requires
        carry_thinking(events, pieces),
        0 <= n <= events.len(),
    ensures
        ({
            let after = app.live_events(events, n);
            &&& after.streaming_thinking == app.streaming_thinking + pieces.take(n).flatten()
            &&& after.messages == app.messages
            &&& after.streaming_content == app.streaming_content
            &&& after.activity == app.activity
        }),
    decreases n,
{
    if n > 0 {
        lemma_thinking_deltas(app, events, pieces, n - 1);
        lemma_flatten_step(pieces, n);
        assert(events[n - 1].inner().kind is AssistantThinkingDelta);
        reveal(AppView::thought);
        assert(app.live_events(events, n).streaming_thinking =~= app.streaming_thinking
            + pieces.take(n).flatten());
    } else {
        assert(pieces.take(0).flatten() =~= Seq::<char>::empty());
        assert(app.streaming_thinking + pieces.take(0).flatten() =~= app.streaming_thinking);
    }
}

/// The pieces of thinking add up in the same way, apart from the answer.
pub proof fn law_thinking_deltas_accumulate(
    app: AppView,
    events: Seq<EventEnvelopeView>,
    pieces: Seq<Seq<char>>,
)
    requires
        carry_thinking(events, pieces),
    ensures
        ({
            let after = app.live_events(events, events.len() as int);
            &&& after.streaming_thinking == app.streaming_thinking + pieces.flatten()
            &&& after.messages == app.messages
            &&& after.streaming_content == app.streaming_content
            &&& after.activity == app.activity
        }),
{
    lemma_thinking_deltas(app, events, pieces, events.len() as int);
    assert(pieces.take(pieces.len() as int) =~= pieces);
}

/// An answer that was stored stands as the last entry of the conversation, with its
/// own thinking or else the thinking that was streamed; nothing is left of the
/// stream, and what stood in the conversation stays.  One without text adds nothing.
pub proof fn law_stored_answer_takes_the_place_of_the_stream(
    app: AppView,
    content: Seq<char>,
    thinking: Option<Seq<char>>,
    message_id: Option<Seq<char>>,
    is_replay: bool,
)
    ensures
        ({
            let after = app.event(
                EventKindView::AssistantMessageStored { content, thinking, message_id },
                is_replay,
            );
            &&& after.streaming_content.len() == 0
            &&& after.streaming_thinking.len() == 0
            &&& after.undoable_turns == app.undoable_turns
            &&& app.turn_active() ==> after.activity == ActivityStateView::Thinking
            &&& !app.turn_active() ==> after.activity == app.activity
            &&& content.len() == 0 ==> after.messages == app.messages
            &&& content.len() > 0 ==> {
                &&& after.messages.len() == app.messages.len() + 1
                &&& after.messages.drop_last() == app.messages
                &&& after.messages.last() is Assistant
                &&& after.messages.last()->Assistant_content == content
                &&& thinking is Some ==> after.messages.last()->Assistant_thinking == thinking
                &&& thinking is None && app.streaming_thinking.len() > 0
                    ==> after.messages.last()->Assistant_thinking == Some(app.streaming_thinking)
                &&& thinking is None && app.streaming_thinking.len() == 0
                    ==> after.messages.last()->Assistant_thinking is None
            }
        }),
{
    reveal(AppView::answered);
    let after = app.event(
        EventKindView::AssistantMessageStored { content, thinking, message_id },
        is_replay,
    );
    if content.len() > 0 {
        assert(after.messages.drop_last() =~= app.messages);
    }
}

/// What was streamed when the agent was stopped stays in the conversation, with a
/// remark, and the agent is idle.
pub proof fn law_cancelled_stream_stays(app: AppView, is_replay: bool)
    ensures
        ({
            let after = app.event(EventKindView::Cancelled, is_replay);
            &&& after.activity == ActivityStateView::Idle
            &&& after.streaming_content.len() == 0
            &&& after.pending_cancel_confirm_until is None
            &&& after.undoable_turns == app.undoable_turns
            &&& app.streaming_content.len() == 0 ==> after.messages == app.messages
            &&& app.streaming_content.len() > 0 ==> {
                &&& after.messages.len() == app.messages.len() + 1
                &&& after.messages.drop_last() == app.messages
                &&& after.messages.last() is Assistant
                &&& after.messages.last()->Assistant_content == app.streaming_content
                    + " [cancelled]"@
                &&& after.streaming_thinking.len() == 0
                &&& app.streaming_thinking.len() > 0 ==> after.messages.last()->Assistant_thinking
                    == Some(app.streaming_thinking)
                &&& app.streaming_thinking.len() == 0
                    ==> after.messages.last()->Assistant_thinking is None
            }
        }),
{
    reveal(AppView::cancelled);
    let after = app.event(EventKindView::Cancelled, is_replay);
    if app.streaming_content.len() > 0 {
        assert(after.messages.drop_last() =~= app.messages);
    }
}

// ── prompts ──────────────────────────────────────────────────────────────────

/// `k` is the first entry that is the user message with the id.
pub open spec fn is_first_user_message(app: AppView, id: Seq<char>, k: int) -> bool {
    &&& 0 <= k < app.messages.len()
    &&& app.messages[k] is User && app.messages[k]->User_message_id == Some(id)
    &&& forall|j: int|
        0 <= j < k && (#[trigger] app.messages[j]) is User ==> app.messages[j]->User_message_id
            != Some(id)
}

/// `k` is the first turn of the message with the id.
pub open spec fn is_first_turn(app: AppView, id: Seq<char>, k: int) -> bool {
    &&& 0 <= k < app.undoable_turns.len()
    &&& app.undoable_turns[k].message_id == id
    &&& forall|j: int| 0 <= j < k ==> (#[trigger] app.undoable_turns[j]).message_id != id
}

/// A live prompt after an undo leaves the branch that was undone: what stands before
/// the message at the frontier stays as it is, that message and all behind it go, the
/// prompt is the last entry, and nothing can be redone.  The turns go with their
/// messages.
pub proof fn law_prompt_after_undo_branches_off(
    app: AppView,
    state: UndoStateView,
    frontier: Seq<char>,
    k: int,
    content: crate::json::JsonView,
    message_id: Option<Seq<char>>,
)
    requires
        app.undo_state == Some(state),
        state.frontier_message_id == Some(frontier),
        is_first_user_message(app, frontier, k),
        content_text(content).len() > 0,
    ensures
        ({
            let after = app.event(EventKindView::PromptReceived { content, message_id }, false);
            &&& after.undo_state is None
            &&& after.messages.len() == k + 1
            &&& forall|i: int| 0 <= i < k ==> #[trigger] after.messages[i] == app.messages[i]
            &&& after.messages.last() == ChatEntryView::User {
                text: content_text(content),
                message_id,
            }
            &&& after.streaming_content == app.streaming_content
            &&& forall|t: int| #[trigger] is_first_turn(app, frontier, t) ==> {
                &&& after.undoable_turns.len() == t + (if message_id is Some {
                    1int
                } else {
                    0
                })
                &&& forall|i: int|
                    0 <= i < t ==> #[trigger] after.undoable_turns[i] == app.undoable_turns[i]
            }
            &&& message_id is Some ==> {
                &&& after.undoable_turns.len() > 0
                &&& after.undoable_turns.last() == (UndoableTurnView {
                    turn_id: message_id->0,
                    message_id: message_id->0,
                    text: content_text(content),
                })
            }
        }),
{
    reveal(AppView::prompted);
    let p = user_message(frontier);
    assert forall|j: int| 0 <= j < k implies !p(#[trigger] app.messages[j]) by {}
    lemma_first_is(app.messages, p, k);
    assert forall|t: int| #[trigger] is_first_turn(app, frontier, t) implies
        crate::seqs::first_index(app.undoable_turns, turn_of(frontier)) == Some(t) by {
        let q = turn_of(frontier);
        assert forall|j: int| 0 <= j < t implies !q(#[trigger] app.undoable_turns[j]) by {}
        lemma_first_is(app.undoable_turns, q, t);
    }
}

/// A prompt where nothing was undone, or one that is replayed, is added to the
/// conversation and to the turns that can be undone; all that was there stays.  One
/// without text changes nothing.
pub proof fn law_prompt_is_added(
    app: AppView,
    content: crate::json::JsonView,
    message_id: Option<Seq<char>>,
    is_replay: bool,
)
    requires
        is_replay || app.undo_state is None,
    ensures
        ({
            let after = app.event(EventKindView::PromptReceived { content, message_id }, is_replay);
            &&& content_text(content).len() == 0 ==> after == app
            &&& content_text(content).len() > 0 ==> {
                &&& after.messages.len() == app.messages.len() + 1
                &&& after.messages.drop_last() == app.messages
                &&& after.messages.last() == ChatEntryView::User {
                    text: content_text(content),
                    message_id,
                }
                &&& after.undo_state == app.undo_state
                &&& after.streaming_content == app.streaming_content
                &&& message_id is None ==> after.undoable_turns == app.undoable_turns
                &&& message_id is Some ==> {
                    &&& after.undoable_turns.len() == app.undoable_turns.len() + 1
                    &&& after.undoable_turns.drop_last() == app.undoable_turns
                    &&& after.undoable_turns.last().message_id == message_id->0
                    &&& after.undoable_turns.last().turn_id == message_id->0
                    &&& after.undoable_turns.last().text == content_text(content)
                }
            }
        }),
{
    reveal(AppView::prompted);
    let after = app.event(EventKindView::PromptReceived { content, message_id }, is_replay);
    if content_text(content).len() > 0 {
        assert(after.messages.drop_last() =~= app.messages);
        if message_id is Some {
            assert(after.undoable_turns.drop_last() =~= app.undoable_turns);
        }
    }
}

/// A stored user message is shown once: not where it was just shown as a prompt.
pub proof fn law_stored_prompt_is_shown_once(
    app: AppView,
    content: crate::json::JsonView,
    is_replay: bool,
)
    ensures
        ({
            let text = content_text(content);
            let after = app.event(EventKindView::UserMessageStored { content }, is_replay);
            let again = app.event(
                EventKindView::PromptReceived { content, message_id: None },
                true,
            ).event(EventKindView::UserMessageStored { content }, is_replay);
            &&& text.len() == 0 ==> after == app
            &&& after.undoable_turns == app.undoable_turns
            &&& after.messages == app.messages || after.messages == app.messages.push(
                ChatEntryView::User { text, message_id: None },
            )
            &&& text.len() > 0 && (app.messages.len() == 0 || !(app.messages.last() is User)
                || app.messages.last()->User_text != text) && (app.undoable_turns.len() == 0
                || app.undoable_turns.last().text != text) ==> after.messages
                == app.messages.push(ChatEntryView::User { text, message_id: None })
            &&& text.len() > 0 ==> again.messages == app.messages.push(
                ChatEntryView::User { text, message_id: None },
            )
        }),
{
    reveal(AppView::prompted);
    reveal(AppView::user_stored);
}

// ── tools ────────────────────────────────────────────────────────────────────

/// A tool call is shown when it starts, as the last entry, by its name and its id; a
/// question is shown by its own card only.
pub proof fn law_tool_call_is_shown(
    app: AppView,
    tool_call_id: Option<Seq<char>>,
    tool_name: Seq<char>,
    arguments: Option<crate::json::JsonView>,
    is_replay: bool,
)
    ensures
        ({
            let after = app.event(
                EventKindView::ToolCallStart { tool_call_id, tool_name, arguments },
                is_replay,
            );
            &&& after.activity == ActivityStateView::RunningTool { name: tool_name }
            &&& after.turn_active()
            &&& after.status == "tool: "@ + tool_name
            &&& after.streaming_content == app.streaming_content
            &&& after.streaming_thinking == app.streaming_thinking
            &&& tool_name == "question"@ ==> after.messages == app.messages
            &&& tool_name != "question"@ ==> {
                &&& after.messages.len() == app.messages.len() + 1
                &&& after.messages.drop_last() == app.messages
                &&& after.messages.last() is ToolCall
                &&& after.messages.last()->ToolCall_tool_call_id == tool_call_id
                &&& after.messages.last()->ToolCall_name == tool_name
                &&& !after.messages.last()->ToolCall_is_error
                &&& arguments is None ==> after.messages.last()->ToolCall_detail
                    == ToolDetailView::Bare
            }
        }),
{
    reveal(AppView::tool_started);
    let after = app.event(
        EventKindView::ToolCallStart { tool_call_id, tool_name, arguments },
        is_replay,
    );
    if tool_name != "question"@ {
        assert(after.messages.drop_last() =~= app.messages);
    }
}

/// The result of a tool call changes at most the last entry of that call, and of it
/// only what is shown besides name and id; a failure gets an entry of its own behind
/// all others.
pub proof fn law_tool_result_concerns_its_call(
    app: AppView,
    tool_call_id: Option<Seq<char>>,
    tool_name: Seq<char>,
    is_error: Option<bool>,
    result: Option<Seq<char>>,
    is_replay: bool,
)
    requires
        tool_name != "question"@,
    ensures
        ({
            let after = app.event(
                EventKindView::ToolCallEnd { tool_call_id, tool_name, is_error, result },
                is_replay,
            );
            let n = app.messages.len();
            &&& after.activity == app.activity
            &&& after.streaming_content == app.streaming_content
            &&& after.undoable_turns == app.undoable_turns
            &&& after.messages.len() == n + (if is_error == Some(true) {
                1int
            } else {
                0
            })
            &&& is_error == Some(true) ==> {
                &&& after.messages.last() is ToolCall
                &&& after.messages.last()->ToolCall_tool_call_id == tool_call_id
                &&& after.messages.last()->ToolCall_name == tool_name + " (failed)"@
                &&& after.messages.last()->ToolCall_is_error
            }
            &&& forall|i: int|
                0 <= i < n && #[trigger] after.messages[i] != app.messages[i] ==> {
                    &&& app.messages[i] is ToolCall
                    &&& tool_call_id is Some
                    &&& app.messages[i]->ToolCall_tool_call_id == tool_call_id
                    &&& after.messages[i] is ToolCall
                    &&& after.messages[i]->ToolCall_tool_call_id == tool_call_id
                    &&& after.messages[i]->ToolCall_name == app.messages[i]->ToolCall_name
                    &&& after.messages[i]->ToolCall_is_error == app.messages[i]->ToolCall_is_error
                    &&& forall|j: int|
                        i < j < n && (#[trigger] app.messages[j]) is ToolCall
                            ==> app.messages[j]->ToolCall_tool_call_id != tool_call_id
                }
        }),
{
    reveal(AppView::tool_ended);
    if let Some(r) = result {
        if app.messages.len() > 0 {
            law_result_concerns_its_call(app.messages, tool_call_id, r, 0);
        }
        assert forall|i: int| 0 <= i < app.messages.len() implies {
            let e = #[trigger] crate::tools::after_result(app.messages, tool_call_id, r)[i];
            e != app.messages[i] ==> {
                &&& app.messages[i] is ToolCall && e is ToolCall
                &&& tool_call_id is Some
                &&& app.messages[i]->ToolCall_tool_call_id == tool_call_id
                &&& e->ToolCall_tool_call_id == tool_call_id
                &&& e->ToolCall_name == app.messages[i]->ToolCall_name
                &&& e->ToolCall_is_error == app.messages[i]->ToolCall_is_error
                &&& forall|j: int|
                    i < j < app.messages.len() && (#[trigger] app.messages[j]) is ToolCall
                        ==> app.messages[j]->ToolCall_tool_call_id != tool_call_id
            }
        } by {
            law_result_concerns_its_call(app.messages, tool_call_id, r, i);
        }
    }
}

// ── the rest ─────────────────────────────────────────────────────────────────

/// An error of the agent is the last entry of the conversation and ends the turn.
pub proof fn law_error_is_shown(app: AppView, message: Seq<char>, is_replay: bool)
    ensures
        ({
            let after = app.event(EventKindView::Error { message }, is_replay);
            &&& after.activity == ActivityStateView::Idle
            &&& after.pending_cancel_confirm_until is None
            &&& after.messages == app.messages.push(ChatEntryView::Error(message))
            &&& after.status == "error: "@ + message
            &&& after.streaming_content == app.streaming_content
            &&& after.undoable_turns == app.undoable_turns
        }),
{
    reveal(AppView::failed);
}

/// A compaction is noted when it starts; when it ends, its summary stands behind all
/// other entries, with the estimate of its start, and no note of a start is left.  No
/// other entry is lost or moved.
pub proof fn law_compaction_leaves_its_summary(
    app: AppView,
    token_estimate: u32,
    summary: Seq<char>,
    summary_len: u32,
    is_replay: bool,
)
    ensures
        ({
            let started = app.event(EventKindView::CompactionStart { token_estimate }, is_replay);
            let ended = started.event(
                EventKindView::CompactionEnd { summary, summary_len },
                is_replay,
            );
            &&& started.messages == app.messages.push(
                ChatEntryView::CompactionStart { token_estimate },
            )
            &&& started.activity == ActivityStateView::Compacting { token_estimate }
            &&& started.turn_active() && ended.turn_active()
            &&& ended.streaming_content == app.streaming_content
            &&& ended.messages.len() > 0
            &&& ended.messages.last() == ChatEntryView::CompactionEnd {
                token_estimate: Some(token_estimate),
                summary,
                summary_len,
            }
            &&& ended.messages.drop_last() == app.messages.filter(
                |e: ChatEntryView| !(e is CompactionStart),
            )
        }),
{
    reveal(AppView::compaction_started);
    reveal(AppView::compaction_ended);
    let p = no_compaction_start();
    let q = |e: ChatEntryView| !(e is CompactionStart);
    assert(p =~= q);
    let started = app.event(EventKindView::CompactionStart { token_estimate }, is_replay);
    let ended = started.event(EventKindView::CompactionEnd { summary, summary_len }, is_replay);
    let note = ChatEntryView::CompactionStart { token_estimate };
    assert(started.messages.filter(p) =~= app.messages.filter(p)) by {
        reveal(Seq::filter);
        assert(started.messages.drop_last() =~= app.messages);
        assert(started.messages.last() == note);
    }
    assert(ended.messages.drop_last() =~= app.messages.filter(p));
}

/// A change of the model takes effect; the limit of its context too, where it is
/// told.
pub proof fn law_model_change_takes_effect(
    app: AppView,
    provider: Seq<char>,
    model: Seq<char>,
    config_id: Option<i64>,
    context_limit: Option<u64>,
    is_replay: bool,
)
    ensures
        ({
            let after = app.event(
                EventKindView::ProviderChanged { provider, model, config_id, context_limit },
                is_replay,
            );
            &&& after.current_provider == Some(provider)
            &&& after.current_model == Some(model)
            &&& context_limit is Some ==> after.context_limit == context_limit->0
            &&& context_limit is None ==> after.context_limit == app.context_limit
            &&& is_replay ==> after.session_cache == app.session_cache
            &&& after.messages == app.messages
        }),
{
    reveal(AppView::provider_changed);
}

/// The end of a request to the model leaves the agent idle, and tells what the session
/// has cost.
pub proof fn law_request_end_leaves_idle(
    app: AppView,
    finish_reason: Option<Seq<char>>,
    cost_usd: Option<CostView>,
    cumulative_cost_usd: Option<CostView>,
    context_tokens: Option<u64>,
    tool_calls: Option<u32>,
    metrics: Option<crate::json::JsonView>,
    is_replay: bool,
)
    ensures
        ({
            let after = app.event(
                EventKindView::LlmRequestEnd {
                    finish_reason,
                    cost_usd,
                    cumulative_cost_usd,
                    context_tokens,
                    tool_calls,
                    metrics,
                },
                is_replay,
            );
            &&& after.activity == ActivityStateView::Idle
            &&& after.cumulative_cost == cumulative_cost_usd
            &&& after.pending_cancel_confirm_until is None
            &&& after.messages == app.messages
            &&& after.streaming_content == app.streaming_content
        }),
{
    reveal(AppView::request_ended);
}

/// A question of the agent is shown as the last entry.  A live one waits for an answer
/// with nothing filled in, and blocks the input; a replayed one does not.
pub proof fn law_question_waits(
    app: AppView,
    elicitation_id: Seq<char>,
    session_id: Seq<char>,
    message: Seq<char>,
    requested_schema: crate::json::JsonView,
    source: Seq<char>,
    is_replay: bool,
)
    ensures
        ({
            let after = app.event(
                EventKindView::ElicitationRequested {
                    elicitation_id,
                    session_id,
                    message,
                    requested_schema,
                    source,
                },
                is_replay,
            );
            &&& after.messages.len() == app.messages.len() + 1
            &&& after.messages.drop_last() == app.messages
            &&& after.messages.last() is Elicitation
            &&& after.messages.last()->Elicitation_elicitation_id == elicitation_id
            &&& after.messages.last()->Elicitation_message == message
            &&& after.messages.last()->Elicitation_source == source
            &&& is_replay ==> after.elicitation == app.elicitation
                && after.messages.last()->Elicitation_outcome == Some("responded"@)
            &&& !is_replay ==> {
                &&& after.messages.last()->Elicitation_outcome is None
                &&& after.elicitation is Some
                &&& after.elicitation->0.elicitation_id == elicitation_id
                &&& after.elicitation->0.message == message
                &&& after.elicitation->0.source == source
                &&& after.elicitation->0.selected == Map::<Seq<char>, crate::json::JsonView>::empty()
                &&& after.elicitation->0.text_input.len() == 0
                &&& after.elicitation->0.field_cursor == 0
                &&& after.elicitation->0.option_cursor == 0
                &&& after.input_blocked()
                &&& after.scroll_offset == 0
            }
        }),
{
    reveal(AppView::asked);
    let after = app.event(
        EventKindView::ElicitationRequested {
            elicitation_id,
            session_id,
            message,
            requested_schema,
            source,
        },
        is_replay,
    );
    assert(after.messages.drop_last() =~= app.messages);
}

/// A change of the mode takes effect, and nothing else changes with it.
pub proof fn law_mode_change_takes_effect(app: AppView, mode: Seq<char>, is_replay: bool)
    ensures
        app.event(EventKindView::SessionModeChanged { mode }, is_replay) == (AppView {
            agent_mode: mode,
            ..app
        }),
{
}

/// The events that may change what already stands in the conversation: a prompt that
/// branches off, the end of a compaction, and the end of a tool call.
pub open spec fn may_rewrite(kind: EventKindView) -> bool {
    kind is PromptReceived || kind is CompactionEnd || kind is ToolCallEnd
}

/// Every other event leaves what stands in the conversation as it is, and adds one
/// entry at most.
#[verifier::spinoff_prover]
#[verifier::rlimit(40)]
pub proof fn law_conversation_only_grows(app: AppView, kind: EventKindView, is_replay: bool)
    requires
        !may_rewrite(kind),
    ensures
        ({
            let after = app.event(kind, is_replay);
            &&& app.messages.is_prefix_of(after.messages)
            &&& after.messages.len() <= app.messages.len() + 1
            &&& after.undoable_turns == app.undoable_turns
            &&& after.undo_state == app.undo_state
            &&& after.session_id == app.session_id
            &&& after.input == app.input
            &&& after.input_cursor == app.input_cursor
        }),
{
    match kind {
        EventKindView::UserMessageStored { .. } => {
            reveal(AppView::user_stored);
        },
        EventKindView::TurnStarted => {
            reveal(AppView::turn_started);
        },
        EventKindView::AssistantThinkingDelta { .. } => {
            reveal(AppView::thought);
        },
        EventKindView::AssistantContentDelta { .. } => {
            reveal(AppView::streamed);
        },
        EventKindView::CompactionStart { .. } => {
            reveal(AppView::compaction_started);
        },
        EventKindView::AssistantMessageStored { .. } => {
            reveal(AppView::answered);
        },
        EventKindView::ToolCallStart { .. } => {
            reveal(AppView::tool_started);
        },
        EventKindView::ProviderChanged { .. } => {
            reveal(AppView::provider_changed);
        },
        EventKindView::LlmRequestEnd { .. } => {
            reveal(AppView::request_ended);
        },
        EventKindView::Error { .. } => {
            reveal(AppView::failed);
        },
        EventKindView::ElicitationRequested { .. } => {
            reveal(AppView::asked);
        },
        EventKindView::Cancelled => {
            reveal(AppView::cancelled);
        },
        _ => {},
    }
}

/// No event by itself changes the figures of the session.
#[verifier::spinoff_prover]
#[verifier::rlimit(40)]
proof fn lemma_event_keeps_figures(app: AppView, kind: EventKindView, is_replay: bool)
    ensures
        app.event(kind, is_replay).session_stats == app.session_stats,
{
    match kind {
        EventKindView::PromptReceived { .. } => {
            reveal(AppView::prompted);
        },
        EventKindView::UserMessageStored { .. } => {
            reveal(AppView::user_stored);
        },
        EventKindView::TurnStarted => {
            reveal(AppView::turn_started);
        },
        EventKindView::AssistantThinkingDelta { .. } => {
            reveal(AppView::thought);
        },
        EventKindView::AssistantContentDelta { .. } => {
            reveal(AppView::streamed);
        },
        EventKindView::CompactionStart { .. } => {
            reveal(AppView::compaction_started);
        },
        EventKindView::CompactionEnd { .. } => {
            reveal(AppView::compaction_ended);
        },
        EventKindView::AssistantMessageStored { .. } => {
            reveal(AppView::answered);
        },
        EventKindView::ToolCallStart { .. } => {
            reveal(AppView::tool_started);
        },
        EventKindView::ToolCallEnd { .. } => {
            reveal(AppView::tool_ended);
        },
        EventKindView::ProviderChanged { .. } => {
            reveal(AppView::provider_changed);
        },
        EventKindView::LlmRequestEnd { .. } => {
            reveal(AppView::request_ended);
        },
        EventKindView::Error { .. } => {
            reveal(AppView::failed);
        },
        EventKindView::ElicitationRequested { .. } => {
            reveal(AppView::asked);
        },
        EventKindView::Cancelled => {
            reveal(AppView::cancelled);
        },
        _ => {},
    }
}

/// An event of the running session changes what the same event in a replay changes,
/// and besides counts in the figures of the session, which no event reads.
#[verifier::spinoff_prover]
#[verifier::rlimit(60)]
pub proof fn law_figures_stand_apart(app: AppView, e: EventEnvelopeView)
    ensures
        (AppView { session_stats: app.session_stats, ..app.live_event(e) }) == app.event(
            e.inner().kind,
            false,
        ),
        app.live_event(e).session_stats == app.counted(
            e.inner().kind,
            e.inner().timestamp,
        ).session_stats,
        e is Durable ==> e.inner() == e->Durable_0,
        e is Ephemeral ==> e.inner() == e->Ephemeral_0,
{
    let kind = e.inner().kind;
    let counted = app.counted(kind, e.inner().timestamp);
    lemma_event_keeps_figures(app, kind, false);
    lemma_event_keeps_figures(counted, kind, false);
    match kind {
        EventKindView::ToolCallStart { .. } => {
            reveal(AppView::tool_started);
        },
        EventKindView::LlmRequestEnd { .. } => {
            reveal(AppView::request_ended);
        },
        EventKindView::Error { .. } => {
            reveal(AppView::failed);
        },
        EventKindView::Cancelled => {
            reveal(AppView::cancelled);
        },
        _ => {},
    }
}

/// Each tool call that starts is counted, and nothing else is.
pub proof fn law_tool_calls_are_counted(app: AppView, kind: EventKindView, timestamp: Option<i64>)
    ensures
        ({
            let before = app.session_stats.total_tool_calls;
            let after = app.counted(kind, timestamp).session_stats.total_tool_calls;
            &&& kind is ToolCallStart && before < u32::MAX ==> after == before + 1
            &&& !(kind is ToolCallStart) ==> after == before
        }),
{
}

/// A request to the model counts from its start to its end, by the server's clock where
/// it tells both times.
pub proof fn law_requests_are_timed(
    app: AppView,
    start: EventKindView,
    end: EventKindView,
    from: i64,
    to: i64,
)
    requires
        start is LlmRequestStart,
        end is LlmRequestEnd || end is Cancelled || end is Error,
        from <= to,
        app.session_stats.open_llm_request_ts is None,
        app.session_stats.active_llm_duration + (to - from) * 1_000_000_000 <= u128::MAX,
    ensures
        ({
            let running = app.counted(start, Some(from));
            let done = running.counted(end, Some(to));
            &&& running.session_stats.open_llm_request_ts == Some(from)
            &&& running.session_stats.open_llm_request_instant == Some(app.now_ns)
            &&& running.session_stats.active_llm_duration == app.session_stats.active_llm_duration
            &&& done.session_stats.active_llm_duration == app.session_stats.active_llm_duration + (to
                - from) * 1_000_000_000
            &&& done.session_stats.open_llm_request_ts is None
            &&& done.session_stats.open_llm_request_instant is None
        }),
{
}

/// The time that is shown is that of the requests that are over, and of the one that runs up
/// to now; nothing is shown as long as there is none.
pub proof fn law_running_request_counts(app: AppView, started: u64)
    requires
        started <= app.now_ns,
        app.session_stats.active_llm_duration + app.now_ns <= u128::MAX,
    ensures
        app.session_stats.open_llm_request_instant == Some(started) ==> {
            let all = app.session_stats.active_llm_duration + (app.now_ns - started);
            &&& all > 0 ==> app.llm_elapsed() is Some && app.llm_elapsed()->0 == all
            &&& all == 0 ==> app.llm_elapsed() is None
        },
        app.session_stats.open_llm_request_instant is None ==> {
            let all = app.session_stats.active_llm_duration;
            &&& all > 0 ==> app.llm_elapsed() == Some(all)
            &&& all == 0 ==> app.llm_elapsed() is None
        },
{
}

/// Where the server gives no times, or times that are out of order, the clock decides how long
/// a request took.
pub proof fn law_clock_times_requests(app: AppView, end: EventKindView, started: u64)
    requires
        end is LlmRequestEnd || end is Cancelled || end is Error,
        app.session_stats.open_llm_request_instant == Some(started),
        started <= app.now_ns,
        app.session_stats.active_llm_duration + app.now_ns <= u128::MAX,
    ensures
        app.counted(end, None).session_stats.active_llm_duration
            == app.session_stats.active_llm_duration + (app.now_ns - started),
{
}

/// The last size of the context that a request reported is kept.
pub proof fn law_context_size_is_kept(app: AppView, end: EventKindView, at: Option<i64>)
    requires
        end is LlmRequestEnd,
    ensures
        end->LlmRequestEnd_context_tokens is Some ==> app.counted(
            end,
            at,
        ).session_stats.latest_context_tokens == end->LlmRequestEnd_context_tokens,
        end->LlmRequestEnd_context_tokens is None ==> app.counted(
            end,
            at,
        ).session_stats.latest_context_tokens == app.session_stats.latest_context_tokens,
{
}

} // verus!
