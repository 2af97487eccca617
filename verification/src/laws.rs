//! What holds of key handling as a whole.
use crate::app::{
    AppView, CachedModeStateView, ConnState, StreamingCacheView, CANCEL_CONFIRM_TIMEOUT,
};
use crate::cards::CardCacheView;
use crate::handlers::{rethemed_entry, AppAction, KeyCode, KeyEvent, OutboxView};
use crate::models::{
    is_local_model, is_model, law_cache_put_get, law_modes_take_turns, model_key,
};
use crate::protocol::ClientMsgView;
use crate::seqs::{first, lemma_first_index, lemma_first_is};
use crate::style::LineView;
use crate::text::{cut_once, is_char};
use vstd::prelude::*;

verus! {

/// Without a connection nothing is sent that needs one: the status line says so,
/// and what was being written stays.
pub proof fn law_refused_without_connection(app: AppView, out: OutboxView)
    requires
        app.conn != ConnState::Connected,
    ensures
        app.undo_asked(out) == (app.refused(), out),
        app.redo_asked(out) == (app.refused(), out),
        app.asked_for_new_session(out) == (app.refused(), out),
        app.new_session_requested(out) == (app.refused(), out),
        app.mode_switched(out) == (app.refused(), out),
        app.on_chord(out, KeyCode::Char('s')) == (app.refused(), out),
        !app.can_accept_mention() && app.input.len() > 0 && !app.input_blocked()
            ==> app.on_chat_enter(out) == (app.refused(), out),
        app.refused().input == app.input,
        app.refused().new_session_path == app.new_session_path,
        app.refused().agent_mode == app.agent_mode,
        app.refused().status == "not connected - waiting to reconnect"@,
{
    reveal(AppView::undo_asked);
    reveal(AppView::redo_asked);
    reveal(AppView::new_session_requested);
    reveal(AppView::mode_switched);
    reveal(AppView::on_chord);
    reveal(AppView::on_chat_enter);
}

/// While the agent works, the first Esc sends nothing; a second one in time stops
/// the agent, and one that comes too late counts as the first.
pub proof fn law_second_esc_stops(app: AppView, out: OutboxView, later: u64)
    requires
        app.turn_active(),
        app.mention_state is None,
        !app.confirming(),
        app.now_ns + CANCEL_CONFIRM_TIMEOUT <= u64::MAX,
        app.now_ns <= later,
    ensures
        ({
            let (first, sent) = app.on_chat_esc(out);
            let then = AppView { now_ns: later, ..first };
            let (second, stopped) = then.on_chat_esc(out);
            &&& sent == out
            &&& if later <= app.now_ns + CANCEL_CONFIRM_TIMEOUT {
                &&& stopped == out.sent(ClientMsgView::CancelSession)
                &&& second.status == "stopping..."@
                &&& second.pending_cancel_confirm_until is None
            } else {
                &&& stopped == out
                &&& second.pending_cancel_confirm_until is Some
            }
        }),
{
    reveal(AppView::on_chat_esc);
}

/// Any other key gives up a cancellation that waits for its confirmation.
pub proof fn law_other_keys_give_up_the_stop(app: AppView, key: KeyEvent)
    requires
        key.code != KeyCode::Esc,
    ensures
        app.settled_for(key).pending_cancel_confirm_until is None,
        !app.settled_for(key).confirming(),
{
}

/// While the input is blocked, keys leave it and its cursor as they are, and send
/// nothing.
pub proof fn law_blocked_input_stays(app: AppView, out: OutboxView, code: KeyCode)
    requires
        app.input_blocked(),
        code != KeyCode::Esc,
        code == KeyCode::Enter ==> !app.can_accept_mention(),
    ensures
        app.on_chat_key(out, code).0.input == app.input,
        app.on_chat_key(out, code).0.input_cursor == app.input_cursor,
        app.on_chat_key(out, code).1 == out,
{
    reveal(AppView::chat_key);
    reveal(AppView::on_chat_enter);
}

/// Ctrl+C first clears what is being written; where nothing is, it ends the
/// program.
pub proof fn law_interrupt_clears_then_quits(app: AppView)
    ensures
        app.input.len() > 0 ==> app.interrupted().should_quit == app.should_quit,
        app.interrupted().interrupted().should_quit,
        app.interrupted().interrupted().input.len() == 0,
{
}

/// A chord is over with its second key.
pub proof fn law_chord_has_two_keys(app: AppView, out: OutboxView, code: KeyCode)
    ensures
        !app.chord_ended(out, code).0.chord,
        app.chord_ended(out, code).2 == AppAction::OpenExternalEditor ==> code == KeyCode::Char(
            'e',
        ),
{
    reveal(AppView::chord_ended);
    reveal(AppView::on_chord);
    reveal(AppView::popup_opened);
    reveal(AppView::undo_asked);
    reveal(AppView::redo_asked);
}

/// What was drawn in a theme is not changed by drawing it in that theme again,
/// and nothing that was said is lost.
pub proof fn law_redrawing_changes_nothing_more(app: AppView)
    ensures
        app.rethemed().rethemed() == app.rethemed(),
        app.rethemed().messages.len() == app.messages.len(),
        app.rethemed().card_cache == CardCacheView::empty(),
{
    let once = app.rethemed();
    let twice = once.rethemed();
    let f = rethemed_entry(app.theme);
    assert forall|i: int| 0 <= i < once.messages.len() implies #[trigger] twice.messages[i]
        == once.messages[i] by {
        assert(once.messages[i] == f(app.messages[i]));
        assert(twice.messages[i] == f(once.messages[i]));
    }
    assert(twice.messages =~= once.messages);
}

/// What was rendered of a stream is found as long as the stream keeps its length,
/// and is gone when the stream grows or ends.
pub proof fn law_rendered_stream_is_found(n: usize, lines: Seq<LineView>, m: int)
    ensures
        n > 0 ==> (StreamingCacheView { rendered_len: n, lines }).hit(n as int) == Some(lines),
        m != n ==> (StreamingCacheView { rendered_len: n, lines }).hit(m) is None,
        StreamingCacheView::empty().hit(m) is None,
{
}

/// The name of no provider holds a slash.
pub open spec fn plain_providers(app: AppView) -> bool {
    &&& app.current_provider is Some ==> !app.current_provider->0.contains('/')
    &&& forall|i: int|
        0 <= i < app.models.len() ==> !(#[trigger] app.models[i]).provider.contains('/')
}

proof fn lemma_key_is_cut(provider: Seq<char>, model: Seq<char>)
    requires
        !provider.contains('/'),
    ensures
        cut_once(model_key(provider, model), '/') == Some((provider, model)),
{
    reveal_strlit("/");
    let s = model_key(provider, model);
    let k = provider.len() as int;
    assert forall|j: int| 0 <= j < k implies !is_char('/')(#[trigger] s[j]) by {
        assert(provider.contains(provider[j]));
    }
    assert(s[k] == '/');
    lemma_first_is(s, is_char('/'), k);
    assert(s.take(k) =~= provider);
    assert(s.skip(k + 1) =~= model);
}

/// Entering a mode changes nothing of what is remembered and on offer.
proof fn lemma_mode_entered(app: AppView, out: OutboxView)
    requires
        plain_providers(app),
    ensures
        ({
            let next = app.mode_entered(out).0;
            &&& next.session_id == app.session_id
            &&& next.session_cache == app.session_cache
            &&& next.models == app.models
            &&& next.conn == app.conn
            &&& next.agent_mode == app.agent_mode
            &&& plain_providers(next)
        }),
{
    reveal(AppView::mode_entered);
    reveal(AppView::preferred_applied);
    if let Some(cached) = app.remembered() {
        if let Some((provider, model)) = cut_once(cached.model, '/') {
            lemma_first_index(app.models, is_model(provider, model));
        }
    }
    let restored = app.mode_restored().0;
    if let Some((provider, model)) = restored.chosen_model() {
        lemma_first_index(restored.models, is_local_model(provider, model));
    }
}

/// A mode that is left and entered again has its model and its effort back, as long
/// as the model is on offer and no provider has a slash in its name.
pub proof fn law_modes_keep_their_settings(app: AppView, out: OutboxView)
    requires
        app.conn == ConnState::Connected,
        app.agent_mode == "build"@ || app.agent_mode == "plan"@,
        app.session_id is Some,
        app.current_provider is Some,
        app.current_model is Some,
        plain_providers(app),
        first(app.models, is_model(app.current_provider->0, app.current_model->0)) is Some,
    ensures
        ({
            let (there, sent) = app.mode_switched(out);
            let (back, _) = there.mode_switched(sent);
            &&& back.agent_mode == app.agent_mode
            &&& back.current_provider == app.current_provider
            &&& back.current_model == app.current_model
            &&& back.reasoning_effort == app.reasoning_effort
        }),
{
    reveal(AppView::mode_switched);
    reveal(AppView::mode_left);
    law_modes_take_turns(app.agent_mode);
    let sid = app.session_id->0;
    let provider = app.current_provider->0;
    let model = app.current_model->0;
    let left = app.mode_left();
    let first_out = out.sent(ClientMsgView::SetAgentMode { mode: left.agent_mode });
    lemma_mode_entered(left, first_out);
    let (there, sent) = app.mode_switched(out);
    let kept = CachedModeStateView {
        model: model_key(provider, model),
        effort: app.reasoning_effort,
    };
    law_cache_put_get(app.session_cache, sid, app.agent_mode, kept, sid, app.agent_mode);
    let again = there.mode_left();
    if let (Some(p), Some(m)) = (there.current_provider, there.current_model) {
        law_cache_put_get(
            there.session_cache,
            sid,
            there.agent_mode,
            CachedModeStateView { model: model_key(p, m), effort: there.reasoning_effort },
            sid,
            app.agent_mode,
        );
        lemma_key_is_cut(p, m);
    }
    assert(again.remembered() == Some(kept));
    lemma_key_is_cut(provider, model);
    lemma_first_index(app.models, is_model(provider, model));
    reveal(AppView::mode_entered);
    assert(again.mode_restored().0.mode_known());
}

} // verus!
