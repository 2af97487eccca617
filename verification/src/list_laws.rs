//! What keys do in lists and popups.
use crate::app::{
    AppLogEntryView, AppView, ConnState, LogLevel, Popup, PopupItemView, Screen, StartPageItemView,
};
use crate::handlers::{AppAction, KeyCode, OutboxView};
use crate::key_laws::{in_popup, listening, pressed, with_ctrl};
use crate::protocol::{ClientMsgView, ModelEntryView, SessionGroupView};
use crate::session::{
    collapse_key, group_rows, law_query_finds_by_title_and_id, matching, popup_group_rows,
};
use crate::text::{contains, lowercase};
use crate::theme::{shown_among, shown_themes, PaletteView};
use vstd::prelude::*;

verus! {

/// Keys go to the start page.
pub open spec fn on_start_page(app: AppView) -> bool {
    in_popup(app, Popup::Closed) && app.screen == Screen::Sessions
}

/// The groups without one session, and without the groups that are left empty.
pub open spec fn session_removed(groups: Seq<SessionGroupView>, g: int, i: int) -> Seq<
    SessionGroupView,
> {
    groups.update(
        g,
        SessionGroupView { sessions: groups[g].sessions.remove(i), ..groups[g] },
    ).filter(|x: SessionGroupView| x.sessions.len() > 0)
}

// ── sessions ─────────────────────────────────────────────────────────────────

/// Enter on a session of the start page loads it and subscribes to it.
pub proof fn law_enter_loads_the_session(app: AppView, out: OutboxView, g: usize, i: usize)
    requires
        on_start_page(app),
        app.session_cursor < app.start_items().len(),
        app.start_items()[app.session_cursor as int] == (StartPageItemView::Session {
            group_idx: g,
            session_idx: i,
        }),
    ensures
        ({
            let (next, sent, _) = app.on_key(out, pressed(KeyCode::Enter));
            let id = app.session_groups[g as int].sessions[i as int].session_id;
            &&& next == app
            &&& sent.msgs == out.msgs + seq![
                ClientMsgView::LoadSession { session_id: id },
                ClientMsgView::SubscribeSession { session_id: id, agent_id: app.agent_id },
            ]
        }),
{
    reveal(AppView::on_plain_key);
    reveal(AppView::on_sessions_key);
    reveal(AppView::start_enter);
    let (next, sent, _) = app.on_key(out, pressed(KeyCode::Enter));
    let id = app.session_groups[g as int].sessions[i as int].session_id;
    assert(sent.msgs =~= out.msgs + seq![
        ClientMsgView::LoadSession { session_id: id },
        ClientMsgView::SubscribeSession { session_id: id, agent_id: app.agent_id },
    ]);
}

/// Enter on a header of the start page collapses its group or opens it, and sends nothing;
/// on the row for others it opens the popup; behind the last row it starts a session.
pub proof fn law_enter_on_other_rows(app: AppView, out: OutboxView)
    requires
        on_start_page(app),
        app.session_cursor <= app.start_items().len(),
    ensures
        ({
            let (next, sent, _) = app.on_key(out, pressed(KeyCode::Enter));
            let items = app.start_items();
            let at = app.session_cursor as int;
            &&& at == items.len() ==> next.popup == Popup::NewSession && sent.msgs == out.msgs
                && sent.complete_path
            &&& at < items.len() && items[at] is GroupHeader ==> {
                let key = collapse_key(items[at]->GroupHeader_cwd);
                &&& sent == out
                &&& next.popup == app.popup
                &&& next.session_groups == app.session_groups
                &&& next.collapsed_groups.contains(key) == !app.collapsed_groups.contains(key)
                &&& forall|k: Seq<char>|
                    k != key ==> #[trigger] next.collapsed_groups.contains(k)
                        == app.collapsed_groups.contains(k)
                &&& next.popup_collapsed_groups == app.popup_collapsed_groups
            }
            &&& at < items.len() && items[at] is ShowMore ==> {
                &&& sent == out
                &&& next.popup == Popup::SessionSelect
                &&& next.session_filter.len() == 0
                &&& next.session_cursor == 0
            }
        }),
{
    reveal(AppView::on_plain_key);
    reveal(AppView::on_sessions_key);
    reveal(AppView::start_enter);
}

/// Delete on a session of the start page takes it off the list and asks the server to
/// delete it; every other session stays where it is.
pub proof fn law_delete_removes_the_session(app: AppView, out: OutboxView, g: usize, i: usize)
    requires
        on_start_page(app),
        app.session_cursor < app.start_items().len(),
        app.start_items()[app.session_cursor as int] == (StartPageItemView::Session {
            group_idx: g,
            session_idx: i,
        }),
    ensures
        ({
            let (next, sent, _) = app.on_key(out, pressed(KeyCode::Delete));
            let id = app.session_groups[g as int].sessions[i as int].session_id;
            &&& sent.msgs == out.msgs.push(ClientMsgView::DeleteSession { session_id: id })
            &&& next.session_groups == session_removed(app.session_groups, g as int, i as int)
            &&& next.messages == app.messages
            &&& next.session_id == app.session_id
        }),
{
    reveal(AppView::on_plain_key);
    reveal(AppView::on_sessions_key);
    reveal(AppView::start_delete);
    assert(crate::handlers::has_sessions() =~= |x: SessionGroupView| x.sessions.len() > 0);
}

/// Delete elsewhere on the start page does nothing.
pub proof fn law_delete_needs_a_session(app: AppView, out: OutboxView)
    requires
        on_start_page(app),
        app.session_cursor < app.start_items().len() ==> !(
        app.start_items()[app.session_cursor as int] is Session),
    ensures
        app.on_key(out, pressed(KeyCode::Delete)).0 == app,
        app.on_key(out, pressed(KeyCode::Delete)).1 == out,
{
    reveal(AppView::on_plain_key);
    reveal(AppView::on_sessions_key);
    reveal(AppView::start_delete);
}

/// On the start page Up and Down move by one row and stay on the list, what is typed
/// narrows it, and q and Esc end the program.
pub proof fn law_start_page_keys(app: AppView, out: OutboxView, c: char)
    requires
        on_start_page(app),
        c != 'q',
    ensures
        ({
            let (up, s1, _) = app.on_key(out, pressed(KeyCode::Up));
            let (down, s2, _) = app.on_key(out, pressed(KeyCode::Down));
            let (typed, s3, _) = app.on_key(out, pressed(KeyCode::Char(c)));
            let (erased, s4, _) = app.on_key(out, pressed(KeyCode::Backspace));
            let (quit, s5, _) = app.on_key(out, pressed(KeyCode::Char('q')));
            let (esc, s6, _) = app.on_key(out, pressed(KeyCode::Esc));
            &&& s1 == out && s2 == out && s3 == out && s4 == out && s5 == out && s6 == out
            &&& app.session_cursor > 0 ==> up.session_cursor == app.session_cursor - 1
            &&& app.session_cursor == 0 ==> up.session_cursor == 0
            &&& app.session_cursor < app.start_items().len() && app.session_cursor < usize::MAX
                ==> down.session_cursor == app.session_cursor + 1
            &&& app.session_cursor >= app.start_items().len() ==> down.session_cursor
                == app.session_cursor
            &&& typed.session_filter == app.session_filter.push(c)
            &&& typed.session_cursor == 0
            &&& app.session_filter.len() > 0 ==> erased.session_filter
                == app.session_filter.drop_last()
            &&& app.session_filter.len() == 0 ==> erased.session_filter == app.session_filter
            &&& quit.should_quit && esc.should_quit
            &&& up.should_quit == app.should_quit && typed.should_quit == app.should_quit
            &&& up.session_groups == app.session_groups && down.session_groups
                == app.session_groups && typed.session_groups == app.session_groups
                && erased.session_groups == app.session_groups
        }),
{
    reveal(AppView::on_plain_key);
    reveal(AppView::on_sessions_key);
}

/// In the session popup Enter loads the session under the cursor, subscribes to it and
/// closes the popup; Delete takes it off the list and asks the server to delete it.
pub proof fn law_popup_opens_and_deletes_sessions(
    app: AppView,
    out: OutboxView,
    g: usize,
    i: usize,
)
    requires
        in_popup(app, Popup::SessionSelect),
        app.session_cursor < app.popup_items().len(),
        app.popup_items()[app.session_cursor as int] == (PopupItemView::Session {
            group_idx: g,
            session_idx: i,
        }),
    ensures
        ({
            let (next, sent, _) = app.on_key(out, pressed(KeyCode::Enter));
            let (less, asked, _) = app.on_key(out, pressed(KeyCode::Delete));
            let id = app.session_groups[g as int].sessions[i as int].session_id;
            &&& next.popup == Popup::Closed
            &&& next.session_groups == app.session_groups
            &&& sent.msgs == out.msgs + seq![
                ClientMsgView::LoadSession { session_id: id },
                ClientMsgView::SubscribeSession { session_id: id, agent_id: app.agent_id },
            ]
            &&& less.popup == Popup::SessionSelect
            &&& less.session_groups == session_removed(app.session_groups, g as int, i as int)
            &&& asked.msgs == out.msgs.push(ClientMsgView::DeleteSession { session_id: id })
        }),
{
    reveal(AppView::on_plain_key);
    reveal(AppView::on_session_popup_key);
    reveal(AppView::popup_enter);
    reveal(AppView::popup_delete);
    assert(crate::handlers::has_sessions() =~= |x: SessionGroupView| x.sessions.len() > 0);
    let (next, sent, _) = app.on_key(out, pressed(KeyCode::Enter));
    let id = app.session_groups[g as int].sessions[i as int].session_id;
    assert(sent.msgs =~= out.msgs + seq![
        ClientMsgView::LoadSession { session_id: id },
        ClientMsgView::SubscribeSession { session_id: id, agent_id: app.agent_id },
    ]);
}

/// In the session popup Enter on a header collapses its group or opens it; Esc closes the
/// popup; Up and Down stay on its rows; what is typed narrows it.
pub proof fn law_session_popup_keys(app: AppView, out: OutboxView, c: char)
    requires
        in_popup(app, Popup::SessionSelect),
        app.session_cursor < usize::MAX,
        app.popup_items().len() <= usize::MAX,
    ensures
        ({
            let (esc, s1, _) = app.on_key(out, pressed(KeyCode::Esc));
            let (up, s2, _) = app.on_key(out, pressed(KeyCode::Up));
            let (down, s3, _) = app.on_key(out, pressed(KeyCode::Down));
            let (typed, s4, _) = app.on_key(out, pressed(KeyCode::Char(c)));
            let (erased, s5, _) = app.on_key(out, pressed(KeyCode::Backspace));
            let (next, s6, _) = app.on_key(out, pressed(KeyCode::Enter));
            let items = app.popup_items();
            let at = app.session_cursor as int;
            &&& s1 == out && s2 == out && s3 == out && s4 == out && s5 == out
            &&& esc.popup == Popup::Closed
            &&& up.session_cursor == (if at > 0 {
                at - 1
            } else {
                0
            })
            &&& at + 1 < items.len() ==> down.session_cursor == at + 1
            &&& items.len() > 0 && at + 1 >= items.len() ==> down.session_cursor == items.len() - 1
            &&& typed.session_filter == app.session_filter.push(c) && typed.session_cursor == 0
            &&& app.session_filter.len() > 0 ==> erased.session_filter
                == app.session_filter.drop_last()
            &&& at < items.len() && items[at] is GroupHeader ==> {
                let key = collapse_key(items[at]->GroupHeader_cwd);
                &&& s6 == out
                &&& next.popup == Popup::SessionSelect
                &&& next.popup_collapsed_groups.contains(key)
                    == !app.popup_collapsed_groups.contains(key)
                &&& next.collapsed_groups == app.collapsed_groups
            }
        }),
{
    reveal(AppView::on_plain_key);
    reveal(AppView::on_session_popup_key);
    reveal(AppView::popup_enter);
}

/// The group stands open in the popup.
pub open spec fn open_in_popup(app: AppView, g: int) -> bool {
    !app.popup_collapsed_groups.contains(collapse_key(app.session_groups[g].cwd))
}

proof fn lemma_popup_rows_list(app: AppView, n: int, g: int, i: int)
    requires
        0 <= n <= app.session_groups.len() <= usize::MAX,
        0 <= g <= usize::MAX,
        0 <= i <= usize::MAX,
        forall|k: int|
            0 <= k < app.session_groups.len() ==> (#[trigger] app.session_groups[k]).sessions.len()
                <= usize::MAX,
    ensures
        app.popup_rows(n).contains(
            PopupItemView::Session { group_idx: g as usize, session_idx: i as usize },
        ) <==> g < n && open_in_popup(app, g) && matching(
            app.session_groups[g].sessions,
            lowercase(app.session_filter),
        ).contains(i),
    decreases n,
{
    let row = PopupItemView::Session { group_idx: g as usize, session_idx: i as usize };
    if n > 0 {
        lemma_popup_rows_list(app, n - 1, g, i);
        let q = lowercase(app.session_filter);
        let group = app.session_groups[n - 1];
        let collapsed = app.popup_collapsed_groups.contains(collapse_key(group.cwd));
        let before = app.popup_rows(n - 1);
        let rows = popup_group_rows(group, n - 1, collapsed, q);
        let all = app.popup_rows(n);
        let found = matching(group.sessions, q);
        law_query_finds_by_title_and_id(group.sessions, q);
        assert(all =~= before + rows);
        if before.contains(row) {
            let k = choose|k: int| 0 <= k < before.len() && before[k] == row;
            assert(all[k] == row);
        }
        if g == n - 1 && !collapsed && found.contains(i) {
            let k = choose|k: int| 0 <= k < found.len() && found[k] == i;
            assert(rows[k + 1] == row);
            assert(all[before.len() + k + 1] == row);
        }
        if all.contains(row) && !before.contains(row) {
            let k = choose|k: int| 0 <= k < all.len() && all[k] == row;
            if k < before.len() {
                assert(before[k] == row);
            }
            assert(rows[k - before.len()] == row);
            let at = k - before.len() - 1;
            assert(found[at] == i && n - 1 == g);
        }
    }
}

/// The session popup lists a session where its group stands open and it matches what was
/// typed, and only then.
pub proof fn law_popup_lists_what_matches(app: AppView, g: int, i: int)
    requires
        app.session_groups.len() <= usize::MAX,
        0 <= g < app.session_groups.len(),
        0 <= i < app.session_groups[g].sessions.len(),
        forall|k: int|
            0 <= k < app.session_groups.len() ==> (#[trigger] app.session_groups[k]).sessions.len()
                <= usize::MAX,
    ensures
        app.popup_items().contains(
            PopupItemView::Session { group_idx: g as usize, session_idx: i as usize },
        ) <==> open_in_popup(app, g) && matching(
            app.session_groups[g].sessions,
            lowercase(app.session_filter),
        ).contains(i),
{
    lemma_popup_rows_list(app, app.session_groups.len() as int, g, i);
}

/// A group of the start page shows its header, which tells its directory and how many
/// sessions it has, and unless it is collapsed the first three that match and a row that
/// counts the others; where a query matches none, the group is not shown.
pub proof fn law_group_shows_its_first_sessions(
    group: SessionGroupView,
    group_idx: int,
    collapsed: bool,
    q: Seq<char>,
)
    requires
        0 <= group_idx <= usize::MAX,
        group.sessions.len() <= usize::MAX,
    ensures
        ({
            let rows = group_rows(group, group_idx, collapsed, q);
            let found = matching(group.sessions, q);
            let shown = if found.len() <= 3 {
                found.len() as int
            } else {
                3
            };
            &&& q.len() > 0 && found.len() == 0 ==> rows.len() == 0
            &&& q.len() == 0 || found.len() > 0 ==> {
                &&& rows.len() > 0
                &&& rows[0] is GroupHeader
                &&& rows[0]->GroupHeader_cwd == group.cwd
                &&& rows[0]->GroupHeader_session_count == group.sessions.len()
                &&& rows[0]->GroupHeader_collapsed == collapsed
                &&& collapsed ==> rows.len() == 1
                &&& !collapsed ==> {
                    &&& rows.len() == 1 + shown + (if found.len() > 3 {
                        1int
                    } else {
                        0
                    })
                    &&& forall|k: int|
                        0 <= k < shown ==> #[trigger] rows[k + 1] == (StartPageItemView::Session {
                            group_idx: group_idx as usize,
                            session_idx: found[k] as usize,
                        })
                    &&& found.len() > 3 ==> rows.last() == (StartPageItemView::ShowMore {
                        remaining: (found.len() - 3) as usize,
                    })
                }
            }
        }),
{
    let rows = group_rows(group, group_idx, collapsed, q);
    let found = matching(group.sessions, q);
    law_query_finds_by_title_and_id(group.sessions, q);
    if !collapsed {
        assert forall|k: int| 0 <= k < found.len() && k < 3 && rows.len() > 0 implies
            #[trigger] rows[k + 1] == (StartPageItemView::Session {
            group_idx: group_idx as usize,
            session_idx: found[k] as usize,
        }) by {}
    }
}

// ── models ───────────────────────────────────────────────────────────────────

/// The model popup lists, in their order, the models that have what was typed in their
/// label, provider or name, in whatever case; all, where nothing was typed.
pub proof fn law_models_are_filtered(app: AppView)
    ensures
        app.model_filter.len() == 0 ==> app.shown_models() == app.models,
        app.model_filter.len() > 0 ==> app.shown_models() == app.models.filter(
            |m: ModelEntryView|
                contains(lowercase(m.label), lowercase(app.model_filter)) || contains(
                    lowercase(m.provider),
                    lowercase(app.model_filter),
                ) || contains(lowercase(m.model), lowercase(app.model_filter)),
        ),
{
    let q = lowercase(app.model_filter);
    assert(crate::models::model_shown(q) =~= |m: ModelEntryView|
        contains(lowercase(m.label), q) || contains(lowercase(m.provider), q) || contains(
            lowercase(m.model),
            q,
        ));
}

/// Enter in the model popup puts the model under the cursor in use: it is the choice for
/// the mode from then on, its effort is the automatic one, the server is told of both, and
/// both are remembered for the session.
pub proof fn law_enter_chooses_the_model(app: AppView, out: OutboxView)
    requires
        in_popup(app, Popup::ModelSelect),
        app.model_cursor < app.shown_models().len(),
    ensures
        ({
            let (next, sent, _) = app.on_key(out, pressed(KeyCode::Enter));
            let m = app.shown_models()[app.model_cursor as int];
            let asked = match app.session_id {
                Some(session_id) => out.msgs.push(
                    ClientMsgView::SetSessionModel {
                        session_id,
                        model_id: m.id,
                        node_id: m.node_id,
                    },
                ),
                None => out.msgs,
            };
            &&& next.popup == Popup::Closed
            &&& next.current_model == Some(m.model)
            &&& next.current_provider == Some(m.provider)
            &&& next.reasoning_effort is None
            &&& next.chosen_model() == Some((m.provider, m.model))
            &&& forall|mode: Seq<char>|
                mode != app.agent_mode && app.mode_model_preferences.contains_key(mode)
                    ==> #[trigger] next.mode_model_preferences.contains_key(mode)
                    && next.mode_model_preferences[mode] == app.mode_model_preferences[mode]
            &&& sent.msgs == (if app.reasoning_effort is Some {
                asked.push(ClientMsgView::SetReasoningEffort { reasoning_effort: "auto"@ })
            } else {
                asked
            })
            &&& sent.save_config && sent.save_cache
            &&& app.session_id is Some ==> next.remembered() is Some
                && next.remembered()->0.model == m.provider + "/"@ + m.model
                && next.remembered()->0.effort is None
            &&& next.agent_mode == app.agent_mode
            &&& next.messages == app.messages
        }),
{
    reveal(AppView::on_plain_key);
    reveal(AppView::on_model_key);
    reveal(AppView::model_chosen);
}

/// In the model popup Esc closes it, Up and Down stay on its rows, and what is typed
/// narrows it; the model in use stays.
pub proof fn law_model_popup_keys(app: AppView, out: OutboxView, c: char)
    requires
        in_popup(app, Popup::ModelSelect),
        app.model_cursor < usize::MAX,
        app.shown_models().len() <= usize::MAX,
    ensures
        ({
            let (esc, s1, _) = app.on_key(out, pressed(KeyCode::Esc));
            let (up, s2, _) = app.on_key(out, pressed(KeyCode::Up));
            let (down, s3, _) = app.on_key(out, pressed(KeyCode::Down));
            let (typed, s4, _) = app.on_key(out, pressed(KeyCode::Char(c)));
            let (erased, s5, _) = app.on_key(out, pressed(KeyCode::Backspace));
            let n = app.shown_models().len();
            let at = app.model_cursor as int;
            &&& s1 == out && s2 == out && s3 == out && s4 == out && s5 == out
            &&& esc.popup == Popup::Closed && esc.current_model == app.current_model
            &&& up.model_cursor == (if at > 0 {
                at - 1
            } else {
                0
            })
            &&& at + 1 < n ==> down.model_cursor == at + 1
            &&& n > 0 && at + 1 >= n ==> down.model_cursor == n - 1
            &&& typed.model_filter == app.model_filter.push(c) && typed.model_cursor == 0
            &&& app.model_filter.len() > 0 ==> erased.model_filter == app.model_filter.drop_last()
            &&& typed.current_model == app.current_model && typed.popup == app.popup
        }),
{
    reveal(AppView::on_plain_key);
    reveal(AppView::on_model_key);
}

// ── themes ───────────────────────────────────────────────────────────────────

proof fn lemma_shown_among(themes: Seq<PaletteView>, q: Seq<char>, n: int)
    requires
        0 <= n <= themes.len(),
    ensures
        forall|a: int, b: int|
            0 <= a < b < shown_among(themes, q, n).len() ==> #[trigger] shown_among(themes, q, n)[a]
                < #[trigger] shown_among(themes, q, n)[b],
        forall|k: int|
            0 <= k < shown_among(themes, q, n).len() ==> 0 <= #[trigger] shown_among(
                themes,
                q,
                n,
            )[k] < n,
        forall|i: int|
            0 <= i < n ==> (shown_among(themes, q, n).contains(i) <==> contains(
                lowercase((#[trigger] themes[i]).label),
                q,
            ) || contains(lowercase(themes[i].id), q)),
    decreases n,
{
    if n > 0 {
        lemma_shown_among(themes, q, n - 1);
        let before = shown_among(themes, q, n - 1);
        let all = shown_among(themes, q, n);
        assert forall|i: int| 0 <= i < n implies (all.contains(i) <==> contains(
            lowercase((#[trigger] themes[i]).label),
            q,
        ) || contains(lowercase(themes[i].id), q)) by {
            if before.contains(i) {
                let k = choose|k: int| 0 <= k < before.len() && before[k] == i;
                assert(all[k] == i);
            }
            if all.contains(i) {
                let k = choose|k: int| 0 <= k < all.len() && all[k] == i;
                if k < before.len() {
                    assert(before[k] == i);
                }
            }
            if i == n - 1 && all.len() > before.len() {
                assert(all[all.len() - 1] == i);
            }
        }
    }
}

/// The theme popup lists, in their order, the themes that have what was typed in their
/// label or their id, in whatever case.
pub proof fn law_themes_are_filtered(themes: Seq<PaletteView>, filter: Seq<char>)
    ensures
        ({
            let shown = shown_themes(themes, filter);
            &&& forall|a: int, b: int|
                0 <= a < b < shown.len() ==> #[trigger] shown[a] < #[trigger] shown[b]
            &&& forall|i: int|
                0 <= i < themes.len() ==> (shown.contains(i) <==> contains(
                    lowercase((#[trigger] themes[i]).label),
                    lowercase(filter),
                ) || contains(lowercase(themes[i].id), lowercase(filter)))
        }),
{
    lemma_shown_among(themes, lowercase(filter), themes.len() as int);
}

/// Enter in the theme popup puts the theme under the cursor in use, with its colours, and
/// has it saved; nothing that was drawn in another theme is kept.
pub proof fn law_enter_chooses_the_theme(app: AppView, out: OutboxView)
    requires
        in_popup(app, Popup::ThemeSelect),
        app.theme_at(app.theme_cursor as int) is Some,
        app.theme_at(app.theme_cursor as int)->0 < app.themes.len() <= usize::MAX,
        0 <= app.theme_at(app.theme_cursor as int)->0,
    ensures
        ({
            let (next, sent, _) = app.on_key(out, pressed(KeyCode::Enter));
            let i = app.theme_at(app.theme_cursor as int)->0;
            &&& next.popup == Popup::Closed
            &&& next.theme.current == i
            &&& next.theme.colors == app.themes[i].colors
            &&& next.themes == app.themes
            &&& sent.save_config
            &&& sent.msgs == out.msgs
            &&& next.card_cache == crate::cards::CardCacheView::empty()
            &&& next.streaming_cache == crate::app::StreamingCacheView::empty()
            &&& next.messages.len() == app.messages.len()
            &&& next.streaming_content == app.streaming_content
            &&& lowercase(app.theme_filter).len() > 0 ==> i == shown_themes(
                app.themes,
                app.theme_filter,
            )[app.theme_cursor as int]
            &&& lowercase(app.theme_filter).len() == 0 ==> i == app.theme_cursor
        }),
{
    reveal(AppView::on_plain_key);
    reveal(AppView::on_theme_key);
}

/// What was said stays when a theme is chosen: entries keep their texts, and the lines of
/// edits and new files are drawn anew from the same texts.
pub proof fn law_new_theme_keeps_the_conversation(app: AppView, i: int)
    requires
        0 <= i < app.messages.len(),
    ensures
        ({
            let e = app.messages[i];
            let d = app.rethemed().messages[i];
            &&& !(e is ToolCall) ==> d == e
            &&& e is ToolCall ==> {
                &&& d is ToolCall
                &&& d->ToolCall_tool_call_id == e->ToolCall_tool_call_id
                &&& d->ToolCall_name == e->ToolCall_name
                &&& d->ToolCall_is_error == e->ToolCall_is_error
                &&& e->ToolCall_detail is Edit ==> {
                    let was = e->ToolCall_detail;
                    let is = d->ToolCall_detail;
                    &&& is is Edit
                    &&& is->Edit_file == was->Edit_file
                    &&& is->Edit_before == was->Edit_before
                    &&& is->Edit_after == was->Edit_after
                    &&& is->Edit_start_line == was->Edit_start_line
                    &&& is->Edit_cached_lines == crate::diff::diff_rows(
                        app.theme,
                        was->Edit_before,
                        was->Edit_after,
                        was->Edit_start_line,
                    )
                }
                &&& e->ToolCall_detail is WriteFile ==> {
                    let was = e->ToolCall_detail;
                    let is = d->ToolCall_detail;
                    &&& is is WriteFile
                    &&& is->WriteFile_path == was->WriteFile_path
                    &&& is->WriteFile_content == was->WriteFile_content
                    &&& is->WriteFile_cached_lines == crate::diff::write_rows(
                        app.theme,
                        was->WriteFile_content,
                    )
                }
                &&& !(e->ToolCall_detail is Edit) && !(e->ToolCall_detail is WriteFile) ==> d == e
            }
        }),
{
}

/// In the theme popup Esc closes it, Up and Down stay on its rows, and what is typed narrows
/// it; the theme in use stays.
pub proof fn law_theme_popup_keys(app: AppView, out: OutboxView, c: char)
    requires
        in_popup(app, Popup::ThemeSelect),
        app.theme_cursor < usize::MAX,
        app.theme_rows() <= usize::MAX,
    ensures
        ({
            let (esc, s1, _) = app.on_key(out, pressed(KeyCode::Esc));
            let (up, s2, _) = app.on_key(out, pressed(KeyCode::Up));
            let (down, s3, _) = app.on_key(out, pressed(KeyCode::Down));
            let (typed, s4, _) = app.on_key(out, pressed(KeyCode::Char(c)));
            let (erased, s5, _) = app.on_key(out, pressed(KeyCode::Backspace));
            let n = app.theme_rows();
            let at = app.theme_cursor as int;
            &&& s1 == out && s2 == out && s3 == out && s4 == out && s5 == out
            &&& esc.popup == Popup::Closed && esc.theme == app.theme
            &&& up.theme_cursor == (if at > 0 {
                at - 1
            } else {
                0
            })
            &&& at + 1 < n ==> down.theme_cursor == at + 1
            &&& n > 0 && at + 1 >= n ==> down.theme_cursor == n - 1
            &&& typed.theme_filter == app.theme_filter.push(c) && typed.theme_cursor == 0
            &&& app.theme_filter.len() > 0 ==> erased.theme_filter == app.theme_filter.drop_last()
            &&& typed.theme == app.theme && up.theme == app.theme
        }),
{
    reveal(AppView::on_plain_key);
    reveal(AppView::on_theme_key);
}

// ── the log ──────────────────────────────────────────────────────────────────

/// The level weighs at least as much as the other.
pub open spec fn at_least(level: LogLevel, least: LogLevel) -> bool {
    match least {
        LogLevel::Trace => true,
        LogLevel::Debug => level != LogLevel::Trace,
        LogLevel::Info => level == LogLevel::Info || level == LogLevel::Warn || level
            == LogLevel::Error,
        LogLevel::Warn => level == LogLevel::Warn || level == LogLevel::Error,
        LogLevel::Error => level == LogLevel::Error,
    }
}

/// The log popup lists, in their order, the entries that weigh enough and have what was
/// typed in their text, their target or their level, in whatever case.
pub proof fn law_logs_are_filtered(app: AppView)
    ensures
        app.shown_logs() == app.logs.filter(
            |e: AppLogEntryView|
                at_least(e.level, app.log_level_filter) && (lowercase(app.log_filter).len() == 0
                    || contains(lowercase(e.message), lowercase(app.log_filter)) || contains(
                    lowercase(e.target),
                    lowercase(app.log_filter),
                ) || contains(lowercase(e.level.name()), lowercase(app.log_filter))),
        ),
{
    let q = lowercase(app.log_filter);
    let p = crate::status::log_shown(app.log_level_filter, q);
    let f = |e: AppLogEntryView|
        at_least(e.level, app.log_level_filter) && (q.len() == 0 || contains(
            lowercase(e.message),
            q,
        ) || contains(lowercase(e.target), q) || contains(lowercase(e.level.name()), q));
    assert forall|e: AppLogEntryView| #[trigger] p(e) == f(e) by {}
    assert(p =~= f);
}

/// A status line is logged with its level and its time, as the last entry; a repeated one is
/// not logged again, and no entry is lost.
pub proof fn law_status_is_logged(
    app: AppView,
    level: LogLevel,
    target: Seq<char>,
    message: Seq<char>,
)
    ensures
        ({
            let next = app.with_status(level, target, message);
            &&& next.status == message
            &&& next.logs.len() > 0
            &&& next.logs.last().level == level
            &&& next.logs.last().target == target
            &&& next.logs.last().message == message
            &&& app.logs.is_prefix_of(next.logs)
            &&& next.logs.len() <= app.logs.len() + 1
            &&& next.logs.len() > app.logs.len() ==> next.logs.last().elapsed == app.now_ns
            &&& next.messages == app.messages
        }),
{
}

/// In the log popup the keys move over the entries that are shown, what is typed narrows
/// them, and Tab asks for the next level; nothing is sent.
pub proof fn law_log_popup_keys(app: AppView, out: OutboxView, c: char)
    requires
        in_popup(app, Popup::Log),
        app.log_cursor < usize::MAX - 10,
        app.shown_logs().len() <= usize::MAX,
    ensures
        ({
            let (esc, s1, _) = app.on_key(out, pressed(KeyCode::Esc));
            let (up, s2, _) = app.on_key(out, pressed(KeyCode::Up));
            let (down, s3, _) = app.on_key(out, pressed(KeyCode::Down));
            let (home, s4, _) = app.on_key(out, pressed(KeyCode::Home));
            let (end, s5, _) = app.on_key(out, pressed(KeyCode::End));
            let (typed, s6, _) = app.on_key(out, pressed(KeyCode::Char(c)));
            let (tab, s7, _) = app.on_key(out, pressed(KeyCode::Tab));
            let n = app.shown_logs().len();
            let at = app.log_cursor as int;
            &&& s1 == out && s2 == out && s3 == out && s4 == out && s5 == out && s6 == out && s7
                == out
            &&& esc.popup == Popup::Closed
            &&& up.log_cursor == (if at > 0 {
                at - 1
            } else {
                0
            })
            &&& at + 1 < n ==> down.log_cursor == at + 1
            &&& n > 0 && at + 1 >= n ==> down.log_cursor == n - 1
            &&& home.log_cursor == 0
            &&& n > 0 ==> end.log_cursor == n - 1
            &&& typed.log_filter == app.log_filter.push(c) && typed.log_cursor == 0
            &&& tab.log_level_filter == app.log_level_filter.next()
            &&& tab.log_filter == app.log_filter
            &&& typed.logs == app.logs && tab.logs == app.logs
        }),
{
    reveal(AppView::on_plain_key);
    reveal(AppView::on_log_key);
}

// ── chords ───────────────────────────────────────────────────────────────────

/// Ctrl+X begins a chord; the key behind it ends the chord and opens the popup it stands
/// for, each with nothing typed in it and the cursor on its first row, or ends the program.
pub proof fn law_chords_open_popups(app: AppView, out: OutboxView)
    requires
        listening(app),
        app.popup == Popup::Closed,
    ensures
        ({
            let (begun, s0, _) = app.on_key(out, with_ctrl('x'));
            let (models, s1, _) = begun.on_key(out, pressed(KeyCode::Char('m')));
            let (themes, s2, _) = begun.on_key(out, pressed(KeyCode::Char('t')));
            let (logs, s3, _) = begun.on_key(out, pressed(KeyCode::Char('l')));
            let (help, s4, _) = begun.on_key(out, pressed(KeyCode::Char('?')));
            let (quit, s5, _) = begun.on_key(out, pressed(KeyCode::Char('q')));
            &&& begun.chord && s0 == out && begun.popup == app.popup
            &&& s1 == out && s2 == out && s3 == out && s4 == out && s5 == out
            &&& models.popup == Popup::ModelSelect && models.model_cursor == 0
                && models.model_filter.len() == 0
            &&& themes.popup == Popup::ThemeSelect && themes.theme_cursor == 0
                && themes.theme_filter.len() == 0
            &&& logs.popup == Popup::Log && logs.log_filter.len() == 0
            &&& help.popup == Popup::Help && help.help_scroll == 0
            &&& quit.should_quit
            &&& !models.chord && !themes.chord && !logs.chord && !help.chord && !quit.chord
            &&& models.input == app.input && themes.input == app.input && logs.input == app.input
        }),
{
    reveal(AppView::chord_ended);
    reveal(AppView::on_chord);
    reveal(AppView::popup_opened);
}

/// With a connection the chord for sessions asks the server for the list.
pub proof fn law_chord_for_the_session_list(app: AppView, out: OutboxView)
    requires
        app.chord,
        app.conn == ConnState::Connected,
    ensures
        ({
            let (list, sent, _) = app.on_key(out, pressed(KeyCode::Char('s')));
            &&& list.popup == Popup::SessionSelect
            &&& list.session_cursor == 0 && list.session_filter.len() == 0
            &&& sent.msgs == out.msgs.push(ClientMsgView::ListSessions)
            &&& !list.chord
        }),
{
    reveal(AppView::chord_ended);
    reveal(AppView::on_chord);
}

/// With a connection the chord for a new session opens its popup on the default directory.
#[verifier::rlimit(40)]
pub proof fn law_chord_for_a_new_session(app: AppView, out: OutboxView)
    requires
        app.chord,
        app.conn == ConnState::Connected,
    ensures
        ({
            let (new, sent, _) = app.on_key(out, pressed(KeyCode::Char('n')));
            &&& new.popup == Popup::NewSession
            &&& sent.msgs == out.msgs && sent.complete_path
            &&& app.default_dir() is Some ==> new.new_session_path == app.default_dir()->0
            &&& app.default_dir() is None ==> new.new_session_path.len() == 0
            &&& !new.chord
        }),
{
    let key = pressed(KeyCode::Char('n'));
    let ready = (AppView { chord: false, ..app.settled_for(key) }).with_status(
        LogLevel::Debug,
        "input"@,
        "ready"@,
    );
    assert(ready.session_id == app.session_id && ready.launch_cwd == app.launch_cwd);
    assert(ready.session_groups == app.session_groups && ready.conn == app.conn);
    assert(ready.default_dir() == app.default_dir());
    let (new, sent, _) = app.on_key(out, key);
    assert((new, sent) == ready.asked_for_new_session(out)) by {
        reveal(AppView::chord_ended);
        reveal(AppView::on_chord);
    }
}

/// The chord for the editor asks the program for it in a conversation, and only there.
pub proof fn law_chord_for_the_editor(app: AppView, out: OutboxView)
    requires
        app.chord,
    ensures
        ({
            let (next, sent, action) = app.on_key(out, pressed(KeyCode::Char('e')));
            &&& app.screen == Screen::Chat <==> action == AppAction::OpenExternalEditor
            &&& sent == out
            &&& next.input == app.input
            &&& !next.chord
        }),
{
    reveal(AppView::chord_ended);
}

// ── the rest ─────────────────────────────────────────────────────────────────

/// Ctrl+T asks the server for the next effort, by its name, and remembers it for the session
/// and its mode.
pub proof fn law_next_effort_is_sent(app: AppView, out: OutboxView)
    requires
        listening(app),
    ensures
        ({
            let (next, sent, _) = app.on_key(out, with_ctrl('t'));
            let level = next.reasoning_effort;
            &&& level == crate::models::next_effort(app.reasoning_effort)
            &&& sent.msgs == out.msgs.push(
                ClientMsgView::SetReasoningEffort {
                    reasoning_effort: if level is Some {
                        level->0
                    } else {
                        "auto"@
                    },
                },
            )
            &&& sent.save_cache
            &&& app.session_id is Some && app.current_provider is Some && app.current_model is Some
                ==> next.remembered() is Some && next.remembered()->0.effort == level
            &&& next.input == app.input && next.messages == app.messages
        }),
{
}

/// Tab goes on to the next mode where no popup is open, and tells the server; what was in use
/// is remembered for the mode that is left.
pub proof fn law_tab_switches_the_mode(app: AppView, out: OutboxView)
    requires
        listening(app),
        app.popup == Popup::Closed,
        app.conn == ConnState::Connected,
    ensures
        ({
            let (next, sent, _) = app.on_key(out, pressed(KeyCode::Tab));
            &&& app.agent_mode == "build"@ ==> next.agent_mode == "plan"@
            &&& app.agent_mode != "build"@ ==> next.agent_mode == "build"@
            &&& sent.msgs.len() > out.msgs.len()
            &&& out.msgs.is_prefix_of(sent.msgs)
            &&& sent.msgs[out.msgs.len() as int] == (ClientMsgView::SetAgentMode {
                mode: next.agent_mode,
            })
            &&& sent.save_config && sent.save_cache
            &&& next.input == app.input && next.messages == app.messages
            &&& app.current_provider is Some && app.current_model is Some
                ==> next.mode_model_preferences.contains_key(app.agent_mode)
                && next.mode_model_preferences[app.agent_mode] == (
                app.current_provider->0,
                app.current_model->0,
            )
        }),
{
    reveal(AppView::on_plain_key);
    reveal(AppView::mode_switched);
    reveal(AppView::mode_left);
    reveal(AppView::mode_entered);
    reveal(AppView::preferred_applied);
}

/// A mode that was never used in the session gets the model that was chosen for it, where
/// that is on offer and another is in use; the server is told.
pub proof fn law_chosen_model_is_applied(
    app: AppView,
    out: OutboxView,
    provider: Seq<char>,
    model: Seq<char>,
    i: int,
)
    requires
        app.session_id is Some,
        app.chosen_model() == Some((provider, model)),
        app.current_provider != Some(provider) || app.current_model != Some(model),
        0 <= i < app.models.len(),
        app.models[i].provider == provider,
        app.models[i].model == model,
        app.models[i].node_id is None,
        forall|j: int|
            0 <= j < i ==> !((#[trigger] app.models[j]).provider == provider && app.models[j].model
                == model && app.models[j].node_id is None),
    ensures
        ({
            let (next, sent) = app.preferred_applied(out);
            &&& next.current_provider == Some(app.models[i].provider)
            &&& next.current_model == Some(app.models[i].model)
            &&& sent.msgs == out.msgs.push(
                ClientMsgView::SetSessionModel {
                    session_id: app.session_id->0,
                    model_id: app.models[i].id,
                    node_id: None,
                },
            )
        }),
{
    reveal(AppView::preferred_applied);
    let p = crate::models::is_local_model(provider, model);
    assert forall|j: int| 0 <= j < i implies !p(#[trigger] app.models[j]) by {}
    crate::seqs::lemma_first_is(app.models, p, i);
}

/// In the help popup Esc closes it and Up and Down scroll it.
pub proof fn law_help_popup_keys(app: AppView, out: OutboxView)
    requires
        in_popup(app, Popup::Help),
        app.help_scroll < usize::MAX,
    ensures
        ({
            let (esc, s1, _) = app.on_key(out, pressed(KeyCode::Esc));
            let (up, s2, _) = app.on_key(out, pressed(KeyCode::Up));
            let (down, s3, _) = app.on_key(out, pressed(KeyCode::Down));
            &&& s1 == out && s2 == out && s3 == out
            &&& esc.popup == Popup::Closed
            &&& down.help_scroll == app.help_scroll + 1
            &&& app.help_scroll > 0 ==> up.help_scroll == app.help_scroll - 1
            &&& app.help_scroll == 0 ==> up.help_scroll == 0
        }),
{
    reveal(AppView::on_plain_key);
    reveal(AppView::on_help_key);
}

/// In the popup for a new session Enter asks for it in the directory that was typed, Esc
/// closes the popup, and a character that is typed stands at the cursor.
pub proof fn law_new_session_popup_keys(app: AppView, out: OutboxView, c: char, k: int)
    requires
        in_popup(app, Popup::NewSession),
        0 <= k <= app.new_session_path.len(),
        app.new_session_cursor == crate::text::bytes(app.new_session_path.take(k)),
        app.new_session_cursor < usize::MAX,
    ensures
        ({
            let (next, sent, _) = app.on_key(out, pressed(KeyCode::Enter));
            let (esc, s1, _) = app.on_key(out, pressed(KeyCode::Esc));
            let (typed, s2, _) = app.on_key(out, pressed(KeyCode::Char(c)));
            &&& app.conn == ConnState::Connected ==> next.popup == Popup::Closed && sent.msgs
                == out.msgs.push(
                ClientMsgView::NewSession {
                    cwd: app.session_path(app.new_session_path),
                    request_id: None,
                },
            )
            &&& app.conn != ConnState::Connected ==> sent == out && next.popup
                == Popup::NewSession && next.new_session_path == app.new_session_path
            &&& esc.popup == Popup::Closed && s1 == out
            &&& typed.new_session_path.len() == app.new_session_path.len() + 1
            &&& typed.new_session_path[k] == c
            &&& typed.new_session_path.take(k) == app.new_session_path.take(k)
            &&& typed.new_session_path.skip(k + 1) == app.new_session_path.skip(k)
            &&& typed.new_session_cursor == app.new_session_cursor + 1
            &&& s2.msgs == out.msgs && s2.complete_path
        }),
{
    reveal(AppView::on_plain_key);
    reveal(AppView::on_new_session_key);
    reveal(AppView::new_session_requested);
    reveal(AppView::path_edited);
    crate::text::lemma_char_pos_of_prefix(app.new_session_path, k);
    let (typed, s2, _) = app.on_key(out, pressed(KeyCode::Char(c)));
    assert(typed.new_session_path.take(k) =~= app.new_session_path.take(k));
    assert(typed.new_session_path.skip(k + 1) =~= app.new_session_path.skip(k));
}

// ── groups ───────────────────────────────────────────────────────────────────

/// The rows of a group stand in a list behind those of the groups before it.
pub open spec fn stands_at<T>(list: Seq<T>, before: nat, rows: Seq<T>) -> bool {
    before + rows.len() <= list.len() && list.subrange(before as int, (before + rows.len()) as int)
        == rows
}

proof fn lemma_start_rows_stand(app: AppView, g: int, n: int)
    requires
        0 <= g < n,
    ensures
        ({
            let group = app.session_groups[g];
            let key = if group.cwd is Some {
                group.cwd->0
            } else {
                Seq::empty()
            };
            stands_at(
                app.start_rows(n),
                app.start_rows(g).len(),
                group_rows(
                    group,
                    g,
                    app.collapsed_groups.contains(key),
                    lowercase(app.session_filter),
                ),
            )
        }),
    decreases n,
{
    let group = app.session_groups[g];
    let key = if group.cwd is Some {
        group.cwd->0
    } else {
        Seq::empty()
    };
    let rows = group_rows(
        group,
        g,
        app.collapsed_groups.contains(key),
        lowercase(app.session_filter),
    );
    let at = app.start_rows(g).len() as int;
    if g < n - 1 {
        lemma_start_rows_stand(app, g, n - 1);
        assert(app.start_rows(n).subrange(at, at + rows.len()) =~= app.start_rows(
            n - 1,
        ).subrange(at, at + rows.len()));
    } else {
        assert(app.start_rows(n).subrange(at, at + rows.len()) =~= rows);
    }
}

/// The start page lists the first three groups, each with its rows and in their order: the
/// rows of one stand behind those of the groups before it.  A last row counts the groups
/// that are left out.
pub proof fn law_start_page_lists_its_groups(app: AppView, g: int)
    requires
        0 <= g < app.session_groups.len(),
        g < 3,
    ensures
        ({
            let group = app.session_groups[g];
            let key = if group.cwd is Some {
                group.cwd->0
            } else {
                Seq::empty()
            };
            let n = app.session_groups.len() as int;
            &&& stands_at(
                app.start_items(),
                app.start_rows(g).len(),
                group_rows(
                    group,
                    g,
                    app.collapsed_groups.contains(key),
                    lowercase(app.session_filter),
                ),
            )
            &&& app.start_rows(0).len() == 0
            &&& n <= 3 ==> app.start_items() == app.start_rows(n)
            &&& n > 3 ==> app.start_items() == app.start_rows(3).push(
                StartPageItemView::ShowMore { remaining: (n - 3) as usize },
            )
        }),
{
    let n = app.session_groups.len() as int;
    let m = if n <= 3 {
        n
    } else {
        3
    };
    lemma_start_rows_stand(app, g, m);
    let group = app.session_groups[g];
    let key = if group.cwd is Some {
        group.cwd->0
    } else {
        Seq::empty()
    };
    let rows = group_rows(
        group,
        g,
        app.collapsed_groups.contains(key),
        lowercase(app.session_filter),
    );
    let at = app.start_rows(g).len() as int;
    assert(app.start_items().subrange(at, at + rows.len()) =~= app.start_rows(m).subrange(
        at,
        at + rows.len(),
    ));
}

proof fn lemma_popup_rows_stand(app: AppView, g: int, n: int)
    requires
        0 <= g < n,
    ensures
        ({
            let group = app.session_groups[g];
            let key = if group.cwd is Some {
                group.cwd->0
            } else {
                Seq::empty()
            };
            stands_at(
                app.popup_rows(n),
                app.popup_rows(g).len(),
                popup_group_rows(
                    group,
                    g,
                    app.popup_collapsed_groups.contains(key),
                    lowercase(app.session_filter),
                ),
            )
        }),
    decreases n,
{
    let group = app.session_groups[g];
    let key = if group.cwd is Some {
        group.cwd->0
    } else {
        Seq::empty()
    };
    let rows = popup_group_rows(
        group,
        g,
        app.popup_collapsed_groups.contains(key),
        lowercase(app.session_filter),
    );
    let at = app.popup_rows(g).len() as int;
    if g < n - 1 {
        lemma_popup_rows_stand(app, g, n - 1);
        assert(app.popup_rows(n).subrange(at, at + rows.len()) =~= app.popup_rows(
            n - 1,
        ).subrange(at, at + rows.len()));
    } else {
        assert(app.popup_rows(n).subrange(at, at + rows.len()) =~= rows);
    }
}

/// The session popup lists every group with its rows, in their order, collapsed by itself.
pub proof fn law_popup_lists_its_groups(app: AppView, g: int)
    requires
        0 <= g < app.session_groups.len(),
    ensures
        ({
            let group = app.session_groups[g];
            let key = if group.cwd is Some {
                group.cwd->0
            } else {
                Seq::empty()
            };
            &&& stands_at(
                app.popup_items(),
                app.popup_rows(g).len(),
                popup_group_rows(
                    group,
                    g,
                    app.popup_collapsed_groups.contains(key),
                    lowercase(app.session_filter),
                ),
            )
            &&& app.popup_rows(0).len() == 0
        }),
{
    lemma_popup_rows_stand(app, g, app.session_groups.len() as int);
}

/// Enter on the header of a group of the start page collapses the group, or opens it again,
/// and leaves the other groups alone.
pub proof fn law_enter_collapses_the_group(app: AppView, other: Seq<char>, cwd: Option<Seq<char>>)
    ensures
        ({
            let key = if cwd is Some {
                cwd->0
            } else {
                Seq::empty()
            };
            let next = app.group_toggled(cwd);
            &&& next.collapsed_groups.contains(key) == !app.collapsed_groups.contains(key)
            &&& other != key ==> next.collapsed_groups.contains(other)
                == app.collapsed_groups.contains(other)
        }),
{
}

} // verus!
