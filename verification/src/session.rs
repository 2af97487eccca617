//! Session lists, and the popup that starts a session.
use crate::app::{
    App, AppView, FileIndexEntryLite, FileIndexEntryLiteView, PathCompletionState,
    PathCompletionStateView, Popup, PopupItem, PopupItemView, SessionActivity,
    SessionActivityView, StartPageItem, StartPageItemView, MAX_RECENT_SESSIONS,
    MAX_VISIBLE_GROUPS,
};
use crate::input::{turn, turned};
use crate::layout::numbers;
use crate::paths::{
    is_rooted, join_path, normal_path, normalize_lexical_path, parent_of, parent_path,
    path_joined, rooted,
};
use crate::protocol::{SessionGroup, SessionGroupView, SessionSummary, SessionSummaryView};
use crate::ranking::{best, file_name, file_name_of, fuzzy_match, fuzzy_score, rank_entries};
use crate::seqs::{least, lemma_filter_step, lemma_take_all, monus};
use crate::text::{
    blank, byte_len, bytes, contains, copy_opt, ends, ends_with, from_chars, has, has_prefix,
    is_blank, lowercase, opt_is, owned, push_char, same, starts, to_chars, to_lower, trim, trimmed,
};
use vstd::prelude::*;

verus! {

// ── which sessions are shown ─────────────────────────────────────────────────

/// The session matches a query in lower case.
pub open spec fn session_matches(s: SessionSummaryView, q: Seq<char>) -> bool {
    ||| q.len() == 0
    ||| contains(
        lowercase(
            match s.title {
                Some(t) => t,
                None => Seq::empty(),
            },
        ),
        q,
    )
    ||| contains(lowercase(s.session_id), q)
}

/// The positions of the sessions that match, in order.
pub open spec fn matching(sessions: Seq<SessionSummaryView>, q: Seq<char>) -> Seq<int>
    decreases sessions.len(),
{
    if sessions.len() == 0 {
        Seq::empty()
    } else {
        let before = matching(sessions.drop_last(), q);
        if session_matches(sessions.last(), q) {
            before.push(sessions.len() - 1)
        } else {
            before
        }
    }
}

proof fn lemma_matching(sessions: Seq<SessionSummaryView>, q: Seq<char>)
    ensures
        matching(sessions, q).len() <= sessions.len(),
        forall|i: int|
            0 <= i < matching(sessions, q).len() ==> 0 <= #[trigger] matching(sessions, q)[i]
                < sessions.len(),
    decreases sessions.len(),
{
    if sessions.len() > 0 {
        lemma_matching(sessions.drop_last(), q);
    }
}

/// The key under which the collapse of a group is kept.
pub open spec fn collapse_key(cwd: Option<Seq<char>>) -> Seq<char> {
    match cwd {
        Some(s) => s,
        None => Seq::empty(),
    }
}

/// The rows of sessions of one group, at most `limit`.
pub open spec fn session_rows(group_idx: int, found: Seq<int>, limit: int) -> Seq<
    StartPageItemView,
> {
    Seq::new(
        least(limit, found.len() as int) as nat,
        |i: int|
            StartPageItemView::Session {
                group_idx: group_idx as usize,
                session_idx: found[i] as usize,
            },
    )
}

/// The rows of a group on the start page: its header and, unless it is
/// collapsed, the first sessions that match and a row for the others; no row
/// where a query matches none.
pub open spec fn group_rows(
    group: SessionGroupView,
    group_idx: int,
    collapsed: bool,
    q: Seq<char>,
) -> Seq<StartPageItemView> {
    let found = matching(group.sessions, q);
    if q.len() > 0 && found.len() == 0 {
        Seq::empty()
    } else {
        let header = seq![
            StartPageItemView::GroupHeader {
                cwd: group.cwd,
                session_count: group.sessions.len() as usize,
                collapsed,
            },
        ];
        if collapsed {
            header
        } else {
            let shown = header + session_rows(group_idx, found, MAX_RECENT_SESSIONS as int);
            if found.len() > MAX_RECENT_SESSIONS {
                shown.push(
                    StartPageItemView::ShowMore {
                        remaining: (found.len() - MAX_RECENT_SESSIONS) as usize,
                    },
                )
            } else {
                shown
            }
        }
    }
}

/// The rows of a group in the popup: its header and, unless it is collapsed,
/// all sessions that match.
pub open spec fn popup_group_rows(
    group: SessionGroupView,
    group_idx: int,
    collapsed: bool,
    q: Seq<char>,
) -> Seq<PopupItemView> {
    let found = matching(group.sessions, q);
    if q.len() > 0 && found.len() == 0 {
        Seq::empty()
    } else {
        let header = seq![
            PopupItemView::GroupHeader {
                cwd: group.cwd,
                session_count: group.sessions.len() as usize,
                collapsed,
            },
        ];
        if collapsed {
            header
        } else {
            header + Seq::new(
                found.len(),
                |i: int|
                    PopupItemView::Session {
                        group_idx: group_idx as usize,
                        session_idx: found[i] as usize,
                    },
            )
        }
    }
}

impl AppView {
    /// The rows of the first `n` groups on the start page.
    pub open spec fn start_rows(self, n: int) -> Seq<StartPageItemView>
        decreases n,
    {
        if n <= 0 {
            Seq::empty()
        } else {
            let g = self.session_groups[n - 1];
            self.start_rows(n - 1) + group_rows(
                g,
                n - 1,
                self.collapsed_groups.contains(collapse_key(g.cwd)),
                lowercase(self.session_filter),
            )
        }
    }

    /// The rows of the session list on the start page: the first groups, and a
    /// row for the others.
    pub open spec fn start_items(self) -> Seq<StartPageItemView> {
        let n = self.session_groups.len() as int;
        let rows = self.start_rows(least(n, MAX_VISIBLE_GROUPS as int));
        if n > MAX_VISIBLE_GROUPS {
            rows.push(
                StartPageItemView::ShowMore { remaining: (n - MAX_VISIBLE_GROUPS) as usize },
            )
        } else {
            rows
        }
    }

    /// The rows of the first `n` groups in the session popup.
    pub open spec fn popup_rows(self, n: int) -> Seq<PopupItemView>
        decreases n,
    {
        if n <= 0 {
            Seq::empty()
        } else {
            let g = self.session_groups[n - 1];
            self.popup_rows(n - 1) + popup_group_rows(
                g,
                n - 1,
                self.popup_collapsed_groups.contains(collapse_key(g.cwd)),
                lowercase(self.session_filter),
            )
        }
    }

    /// The rows of the session popup: every group.
    pub open spec fn popup_items(self) -> Seq<PopupItemView> {
        self.popup_rows(self.session_groups.len() as int)
    }

    /// The sessions of the first `n` groups that match the filter.
    pub open spec fn matching_sessions(self, n: int) -> Seq<SessionSummaryView>
        decreases n,
    {
        if n <= 0 {
            Seq::empty()
        } else {
            let g = self.session_groups[n - 1];
            self.matching_sessions(n - 1) + matching(
                g.sessions,
                lowercase(self.session_filter),
            ).map_values(|i: int| g.sessions[i])
        }
    }

    /// With a group collapsed or opened on the start page.
    pub open spec fn group_toggled(self, cwd: Option<Seq<char>>) -> AppView {
        let key = collapse_key(cwd);
        AppView {
            collapsed_groups: if self.collapsed_groups.contains(key) {
                self.collapsed_groups.remove(key)
            } else {
                self.collapsed_groups.insert(key)
            },
            ..self
        }
    }

    /// With a group collapsed or opened in the session popup.
    pub open spec fn popup_group_toggled(self, cwd: Option<Seq<char>>) -> AppView {
        let key = collapse_key(cwd);
        AppView {
            popup_collapsed_groups: if self.popup_collapsed_groups.contains(key) {
                self.popup_collapsed_groups.remove(key)
            } else {
                self.popup_collapsed_groups.insert(key)
            },
            ..self
        }
    }
}

/// The positions of the sessions of a group that match, in order.
pub fn matching_session_indices(group: &SessionGroup, q: &str) -> (r: Vec<usize>)
    ensures
        numbers(r@) == matching(group.deep_view().sessions, q@),
        forall|i: int| 0 <= i < r@.len() ==> #[trigger] r@[i] < group.sessions@.len(),
{
    let ghost sv = group.deep_view().sessions;
    let mut out: Vec<usize> = Vec::new();
    let mut i: usize = 0;
    assert(numbers(out@) =~= matching(sv.take(0), q@));
    while i < group.sessions.len()
        invariant
            i <= group.sessions@.len(),
            sv == group.deep_view().sessions,
            numbers(out@) == matching(sv.take(i as int), q@),
            forall|k: int| 0 <= k < out@.len() ==> #[trigger] out@[k] < i,
        decreases group.sessions@.len() - i,
    {
        let s = &group.sessions[i];
        let ghost before = numbers(out@);
        proof {
            assert(sv.take(i + 1).drop_last() =~= sv.take(i as int));
            assert(sv.take(i + 1).last() == s.deep_view());
        }
        let title = match &s.title {
            Some(t) => to_lower(t.as_str()),
            None => to_lower(""),
        };
        proof {
            reveal_strlit("");
            assert(""@ =~= Seq::<char>::empty());
        }
        if q.is_empty() || has(title.as_str(), q) || has(
            to_lower(s.session_id.as_str()).as_str(),
            q,
        ) {
            out.push(i);
            assert(numbers(out@) =~= before.push(i as int));
        }
        i = i + 1;
    }
    proof {
        lemma_take_all(sv);
    }
    out
}

/// The key under which the collapse of a group is kept.
fn key_of(cwd: &Option<String>) -> (r: String)
    ensures
        r@ == collapse_key(cwd.deep_view()),
{
    match cwd {
        Some(s) => s.clone(),
        None => String::new(),
    }
}

impl App {
    /// All sessions that match the filter, across the groups.
    pub fn filtered_sessions(&self) -> (r: Vec<&SessionSummary>)
        ensures
            r.deep_view() == self@.matching_sessions(self@.session_groups.len() as int),
    {
        let q = to_lower(self.session_filter.as_str());
        let ghost me = self@;
        let mut out: Vec<&SessionSummary> = Vec::new();
        let mut g: usize = 0;
        assert(out.deep_view() =~= me.matching_sessions(0));
        while g < self.session_groups.len()
            invariant
                g <= self.session_groups@.len(),
                me == self@,
                q@ == lowercase(me.session_filter),
                out.deep_view() == me.matching_sessions(g as int),
            decreases self.session_groups@.len() - g,
        {
            let group = &self.session_groups[g];
            let ghost gv = me.session_groups[g as int];
            assert(gv == group.deep_view());
            let found = matching_session_indices(group, q.as_str());
            let ghost start = out.deep_view();
            let ghost rows = matching(gv.sessions, q@).map_values(|i: int| gv.sessions[i]);
            let mut i: usize = 0;
            assert(start + rows.take(0) =~= start);
            while i < found.len()
                invariant
                    i <= found@.len(),
                    gv == group.deep_view(),
                    numbers(found@) == matching(gv.sessions, q@),
                    forall|k: int|
                        0 <= k < found@.len() ==> #[trigger] found@[k] < group.sessions@.len(),
                    rows == matching(gv.sessions, q@).map_values(|i: int| gv.sessions[i]),
                    out.deep_view() == start + rows.take(i as int),
                decreases found@.len() - i,
            {
                let ghost before = out.deep_view();
                assert(numbers(found@)[i as int] == found@[i as int]);
                let s = &group.sessions[found[i]];
                assert(rows[i as int] == s.deep_view());
                out.push(s);
                assert(out.deep_view() =~= before.push(rows[i as int]));
                assert(out.deep_view() =~= start + rows.take(i + 1));
                i = i + 1;
            }
            assert(rows.take(found@.len() as int) =~= rows);
            g = g + 1;
        }
        out
    }

    fn push_group_rows(
        &self,
        items: &mut Vec<StartPageItem>,
        group: &SessionGroup,
        group_idx: usize,
        q: &str,
    )
        ensures
            final(items).deep_view() == old(items).deep_view() + group_rows(
                group.deep_view(),
                group_idx as int,
                self@.collapsed_groups.contains(collapse_key(group.deep_view().cwd)),
                q@,
            ),
    {
        let ghost start = items.deep_view();
        let ghost gv = group.deep_view();
        let key = key_of(&group.cwd);
        let collapsed = self.collapsed_groups.contains(key.as_str());
        let found = matching_session_indices(group, q);
        let ghost fv = numbers(found@);
        if !q.is_empty() && found.len() == 0 {
            assert(start + Seq::<StartPageItemView>::empty() =~= start);
            return ;
        }
        let header = StartPageItem::GroupHeader {
            cwd: copy_opt(&group.cwd),
            session_count: group.sessions.len(),
            collapsed,
        };
        let ghost hv = seq![header.deep_view()];
        items.push(header);
        assert(items.deep_view() =~= start + hv);
        if !collapsed {
            let n: usize = if found.len() <= MAX_RECENT_SESSIONS {
                found.len()
            } else {
                MAX_RECENT_SESSIONS
            };
            let ghost rows = session_rows(group_idx as int, fv, MAX_RECENT_SESSIONS as int);
            let mut i: usize = 0;
            assert(start + hv + rows.take(0) =~= start + hv);
            while i < n
                invariant
                    i <= n <= found@.len(),
                    n == rows.len(),
                    fv == numbers(found@),
                    rows == session_rows(group_idx as int, fv, MAX_RECENT_SESSIONS as int),
                    items.deep_view() == start + hv + rows.take(i as int),
                decreases n - i,
            {
                let ghost before = items.deep_view();
                let item = StartPageItem::Session { group_idx, session_idx: found[i] };
                assert(fv[i as int] == found@[i as int]);
                assert(rows[i as int] == item.deep_view());
                items.push(item);
                assert(items.deep_view() =~= before.push(rows[i as int]));
                assert(items.deep_view() =~= start + hv + rows.take(i + 1));
                i = i + 1;
            }
            assert(rows.take(n as int) =~= rows);
            if found.len() > MAX_RECENT_SESSIONS {
                let ghost before = items.deep_view();
                let more = StartPageItem::ShowMore { remaining: found.len() - MAX_RECENT_SESSIONS };
                items.push(more);
                assert(items.deep_view() =~= before.push(more.deep_view()));
            }
        }
        assert(items.deep_view() =~= start + group_rows(gv, group_idx as int, collapsed, q@));
    }

    /// The rows of the session list on the start page.
    pub fn visible_start_items(&self) -> (r: Vec<StartPageItem>)
        ensures
            r.deep_view() == self@.start_items(),
    {
        let q = to_lower(self.session_filter.as_str());
        let ghost me = self@;
        let total: usize = self.session_groups.len();
        let n: usize = if total <= MAX_VISIBLE_GROUPS {
            total
        } else {
            MAX_VISIBLE_GROUPS
        };
        let mut items: Vec<StartPageItem> = Vec::new();
        let mut g: usize = 0;
        assert(items.deep_view() =~= me.start_rows(0));
        while g < n
            invariant
                g <= n <= self.session_groups@.len(),
                me == self@,
                q@ == lowercase(me.session_filter),
                items.deep_view() == me.start_rows(g as int),
            decreases n - g,
        {
            assert(me.session_groups[g as int] == self.session_groups@[g as int].deep_view());
            self.push_group_rows(&mut items, &self.session_groups[g], g, q.as_str());
            g = g + 1;
        }
        if total > MAX_VISIBLE_GROUPS {
            let ghost before = items.deep_view();
            let more = StartPageItem::ShowMore { remaining: total - MAX_VISIBLE_GROUPS };
            items.push(more);
            assert(items.deep_view() =~= before.push(more.deep_view()));
        }
        items
    }

    /// Collapses or opens a group on the start page.
    pub fn toggle_group_collapse(&mut self, cwd: &Option<String>)
        ensures
            final(self)@ == old(self)@.group_toggled(cwd.deep_view()),
    {
        let key = key_of(cwd);
        if self.collapsed_groups.contains(key.as_str()) {
            self.collapsed_groups.remove(key.as_str());
        } else {
            self.collapsed_groups.insert(key);
        }
    }

    /// Collapses or opens a group in the session popup.
    pub fn toggle_popup_group_collapse(&mut self, cwd: &Option<String>)
        ensures
            final(self)@ == old(self)@.popup_group_toggled(cwd.deep_view()),
    {
        let key = key_of(cwd);
        if self.popup_collapsed_groups.contains(key.as_str()) {
            self.popup_collapsed_groups.remove(key.as_str());
        } else {
            self.popup_collapsed_groups.insert(key);
        }
    }

    fn push_popup_group_rows(
        &self,
        items: &mut Vec<PopupItem>,
        group: &SessionGroup,
        group_idx: usize,
        q: &str,
    )
        ensures
            final(items).deep_view() == old(items).deep_view() + popup_group_rows(
                group.deep_view(),
                group_idx as int,
                self@.popup_collapsed_groups.contains(collapse_key(group.deep_view().cwd)),
                q@,
            ),
    {
        let ghost start = items.deep_view();
        let ghost gv = group.deep_view();
        let key = key_of(&group.cwd);
        let collapsed = self.popup_collapsed_groups.contains(key.as_str());
        let found = matching_session_indices(group, q);
        let ghost fv = numbers(found@);
        if !q.is_empty() && found.len() == 0 {
            assert(start + Seq::<PopupItemView>::empty() =~= start);
            return ;
        }
        let header = PopupItem::GroupHeader {
            cwd: copy_opt(&group.cwd),
            session_count: group.sessions.len(),
            collapsed,
        };
        let ghost hv = seq![header.deep_view()];
        items.push(header);
        assert(items.deep_view() =~= start + hv);
        if !collapsed {
            let ghost rows = Seq::new(
                fv.len(),
                |i: int|
                    PopupItemView::Session {
                        group_idx: group_idx as usize,
                        session_idx: fv[i] as usize,
                    },
            );
            let mut i: usize = 0;
            assert(start + hv + rows.take(0) =~= start + hv);
            while i < found.len()
                invariant
                    i <= found@.len(),
                    found@.len() == rows.len(),
                    fv == numbers(found@),
                    rows == Seq::new(
                        fv.len(),
                        |i: int|
                            PopupItemView::Session {
                                group_idx: group_idx as usize,
                                session_idx: fv[i] as usize,
                            },
                    ),
                    items.deep_view() == start + hv + rows.take(i as int),
                decreases found@.len() - i,
            {
                let ghost before = items.deep_view();
                let item = PopupItem::Session { group_idx, session_idx: found[i] };
                assert(fv[i as int] == found@[i as int]);
                assert(rows[i as int] == item.deep_view());
                items.push(item);
                assert(items.deep_view() =~= before.push(rows[i as int]));
                assert(items.deep_view() =~= start + hv + rows.take(i + 1));
                i = i + 1;
            }
            assert(rows.take(found@.len() as int) =~= rows);
        }
        assert(items.deep_view() =~= start + popup_group_rows(
            gv,
            group_idx as int,
            collapsed,
            q@,
        ));
    }

    /// The rows of the session popup.
    pub fn visible_popup_items(&self) -> (r: Vec<PopupItem>)
        ensures
            r.deep_view() == self@.popup_items(),
    {
        let q = to_lower(self.session_filter.as_str());
        let ghost me = self@;
        let mut items: Vec<PopupItem> = Vec::new();
        let mut g: usize = 0;
        assert(items.deep_view() =~= me.popup_rows(0));
        while g < self.session_groups.len()
            invariant
                g <= self.session_groups@.len(),
                me == self@,
                q@ == lowercase(me.session_filter),
                items.deep_view() == me.popup_rows(g as int),
            decreases self.session_groups@.len() - g,
        {
            assert(me.session_groups[g as int] == self.session_groups@[g as int].deep_view());
            self.push_popup_group_rows(&mut items, &self.session_groups[g], g, q.as_str());
            g = g + 1;
        }
        items
    }
}

// ── laws of the lists ────────────────────────────────────────────────────────

/// A row of the start page that stands for a session names one that is there.
pub open spec fn start_row_exists(app: AppView, item: StartPageItemView) -> bool {
    match item {
        StartPageItemView::Session { group_idx, session_idx } => group_idx
            < app.session_groups.len() && session_idx
            < app.session_groups[group_idx as int].sessions.len(),
        _ => true,
    }
}

/// A row of the popup that stands for a session names one that is there.
pub open spec fn popup_row_exists(app: AppView, item: PopupItemView) -> bool {
    match item {
        PopupItemView::Session { group_idx, session_idx } => group_idx
            < app.session_groups.len() && session_idx
            < app.session_groups[group_idx as int].sessions.len(),
        _ => true,
    }
}

proof fn lemma_start_rows_exist(app: AppView, n: int)
    requires
        0 <= n <= app.session_groups.len(),
        app.session_groups.len() <= usize::MAX,
        forall|g: int|
            0 <= g < app.session_groups.len() ==> (#[trigger] app.session_groups[g]).sessions.len()
                <= usize::MAX,
    ensures
        forall|i: int|
            0 <= i < app.start_rows(n).len() ==> start_row_exists(
                app,
                #[trigger] app.start_rows(n)[i],
            ),
    decreases n,
{
    if n > 0 {
        lemma_start_rows_exist(app, n - 1);
        let g = app.session_groups[n - 1];
        lemma_matching(g.sessions, lowercase(app.session_filter));
        let before = app.start_rows(n - 1);
        let own = group_rows(
            g,
            n - 1,
            app.collapsed_groups.contains(collapse_key(g.cwd)),
            lowercase(app.session_filter),
        );
        assert forall|i: int| 0 <= i < app.start_rows(n).len() implies start_row_exists(
            app,
            #[trigger] app.start_rows(n)[i],
        ) by {
            if i < before.len() {
                assert(app.start_rows(n)[i] == before[i]);
            } else {
                assert(app.start_rows(n)[i] == own[i - before.len()]);
            }
        }
    }
}

/// Every row of the start page that stands for a session names one that is
/// there.
pub proof fn law_start_items_exist(app: AppView, i: int)
    requires
        0 <= i < app.start_items().len(),
        app.session_groups.len() <= usize::MAX,
        forall|g: int|
            0 <= g < app.session_groups.len() ==> (#[trigger] app.session_groups[g]).sessions.len()
                <= usize::MAX,
    ensures
        start_row_exists(app, app.start_items()[i]),
{
    let n = least(app.session_groups.len() as int, MAX_VISIBLE_GROUPS as int);
    lemma_start_rows_exist(app, n);
    let rows = app.start_rows(n);
    if i < rows.len() {
        assert(app.start_items()[i] == rows[i]);
    }
}

proof fn lemma_popup_rows_exist(app: AppView, n: int)
    requires
        0 <= n <= app.session_groups.len(),
        app.session_groups.len() <= usize::MAX,
        forall|g: int|
            0 <= g < app.session_groups.len() ==> (#[trigger] app.session_groups[g]).sessions.len()
                <= usize::MAX,
    ensures
        forall|i: int|
            0 <= i < app.popup_rows(n).len() ==> popup_row_exists(
                app,
                #[trigger] app.popup_rows(n)[i],
            ),
    decreases n,
{
    if n > 0 {
        lemma_popup_rows_exist(app, n - 1);
        let g = app.session_groups[n - 1];
        lemma_matching(g.sessions, lowercase(app.session_filter));
        let before = app.popup_rows(n - 1);
        let own = popup_group_rows(
            g,
            n - 1,
            app.popup_collapsed_groups.contains(collapse_key(g.cwd)),
            lowercase(app.session_filter),
        );
        assert forall|i: int| 0 <= i < app.popup_rows(n).len() implies popup_row_exists(
            app,
            #[trigger] app.popup_rows(n)[i],
        ) by {
            if i < before.len() {
                assert(app.popup_rows(n)[i] == before[i]);
            } else {
                assert(app.popup_rows(n)[i] == own[i - before.len()]);
            }
        }
    }
}

/// Every row of the popup that stands for a session names one that is there.
pub proof fn law_popup_items_exist(app: AppView, i: int)
    requires
        0 <= i < app.popup_items().len(),
        app.session_groups.len() <= usize::MAX,
        forall|g: int|
            0 <= g < app.session_groups.len() ==> (#[trigger] app.session_groups[g]).sessions.len()
                <= usize::MAX,
    ensures
        popup_row_exists(app, app.popup_items()[i]),
{
    lemma_popup_rows_exist(app, app.session_groups.len() as int);
}

/// A group never takes more rows on the start page than its header, the
/// recent sessions and one row for the others.
pub proof fn law_group_rows_are_capped(
    group: SessionGroupView,
    group_idx: int,
    collapsed: bool,
    q: Seq<char>,
)
    ensures
        group_rows(group, group_idx, collapsed, q).len() <= MAX_RECENT_SESSIONS + 2,
        collapsed ==> group_rows(group, group_idx, collapsed, q).len() <= 1,
{
}

pub proof fn lemma_start_rows_depend(a: AppView, b: AppView, n: int)
    requires
        a.session_groups == b.session_groups,
        a.collapsed_groups == b.collapsed_groups,
        a.session_filter == b.session_filter,
    ensures
        a.start_rows(n) == b.start_rows(n),
    decreases n,
{
    if n > 0 {
        lemma_start_rows_depend(a, b, n - 1);
    }
}

pub proof fn lemma_popup_rows_depend(a: AppView, b: AppView, n: int)
    requires
        a.session_groups == b.session_groups,
        a.popup_collapsed_groups == b.popup_collapsed_groups,
        a.session_filter == b.session_filter,
    ensures
        a.popup_rows(n) == b.popup_rows(n),
    decreases n,
{
    if n > 0 {
        lemma_popup_rows_depend(a, b, n - 1);
    }
}

/// Start page and popup collapse their groups independently, and a group that
/// is toggled twice is as it was.
pub proof fn law_collapse_is_independent(app: AppView, cwd: Option<Seq<char>>)
    ensures
        app.group_toggled(cwd).popup_items() == app.popup_items(),
        app.popup_group_toggled(cwd).start_items() == app.start_items(),
        app.group_toggled(cwd).group_toggled(cwd) == app,
        app.popup_group_toggled(cwd).popup_group_toggled(cwd) == app,
{
    lemma_popup_rows_depend(app.group_toggled(cwd), app, app.session_groups.len() as int);
    lemma_start_rows_depend(
        app.popup_group_toggled(cwd),
        app,
        least(app.session_groups.len() as int, MAX_VISIBLE_GROUPS as int),
    );
    let key = collapse_key(cwd);
    if app.collapsed_groups.contains(key) {
        assert(app.collapsed_groups.remove(key).insert(key) =~= app.collapsed_groups);
    } else {
        assert(app.collapsed_groups.insert(key).remove(key) =~= app.collapsed_groups);
    }
    if app.popup_collapsed_groups.contains(key) {
        assert(app.popup_collapsed_groups.remove(key).insert(key) =~= app.popup_collapsed_groups);
    } else {
        assert(app.popup_collapsed_groups.insert(key).remove(key) =~= app.popup_collapsed_groups);
    }
}


proof fn lemma_matching_step(sessions: Seq<SessionSummaryView>, q: Seq<char>)
    ensures
        forall|a: int, b: int|
            0 <= a < b < matching(sessions, q).len() ==> #[trigger] matching(sessions, q)[a]
                < #[trigger] matching(sessions, q)[b],
        forall|i: int|
            0 <= i < sessions.len() && session_matches(#[trigger] sessions[i], q) ==> matching(
                sessions,
                q,
            ).contains(i),
        forall|k: int|
            0 <= k < matching(sessions, q).len() ==> session_matches(
                sessions[#[trigger] matching(sessions, q)[k]],
                q,
            ),
    decreases sessions.len(),
{
    if sessions.len() > 0 {
        let lead = sessions.drop_last();
        let before = matching(lead, q);
        let all = matching(sessions, q);
        lemma_matching_step(lead, q);
        lemma_matching(lead, q);
        lemma_matching(sessions, q);
        assert forall|i: int|
            0 <= i < sessions.len() && session_matches(#[trigger] sessions[i], q) implies all.contains(
            i,
        ) by {
            if i == sessions.len() - 1 {
                assert(all[all.len() - 1] == i);
            } else {
                assert(lead[i] == sessions[i]);
                let k = choose|k: int| 0 <= k < before.len() && before[k] == i;
                assert(all[k] == i);
            }
        }
        assert forall|k: int| 0 <= k < all.len() implies session_matches(
            sessions[#[trigger] all[k]],
            q,
        ) by {
            if k < before.len() {
                assert(all[k] == before[k]);
                assert(lead[before[k]] == sessions[before[k]]);
            }
        }
        assert forall|a: int, b: int| 0 <= a < b < all.len() implies #[trigger] all[a]
            < #[trigger] all[b] by {
            assert(all[a] == before[a]);
            if b < before.len() {
                assert(all[b] == before[b]);
            }
        }
    }
}

/// A query finds the sessions that have it in their title or in their id, in whatever
/// case, each once and in their order; an empty one finds all.
pub proof fn law_query_finds_by_title_and_id(sessions: Seq<SessionSummaryView>, q: Seq<char>)
    ensures
        ({
            let found = matching(sessions, q);
            &&& forall|a: int, b: int|
                0 <= a < b < found.len() ==> #[trigger] found[a] < #[trigger] found[b]
            &&& forall|k: int|
                0 <= k < found.len() ==> 0 <= #[trigger] found[k] < sessions.len()
            &&& forall|i: int|
                0 <= i < sessions.len() && contains(
                    lowercase((#[trigger] sessions[i]).session_id),
                    q,
                ) ==> found.contains(i)
            &&& forall|i: int|
                0 <= i < sessions.len() && (#[trigger] sessions[i]).title is Some && contains(
                    lowercase(sessions[i].title->0),
                    q,
                ) ==> found.contains(i)
            &&& forall|i: int|
                0 <= i < sessions.len() && q.len() > 0 && (#[trigger] sessions[i]).title is Some
                    && found.contains(i) ==> contains(lowercase(sessions[i].session_id), q)
                    || contains(lowercase(sessions[i].title->0), q)
            &&& q.len() == 0 ==> found.len() == sessions.len()
        }),
{
    lemma_matching(sessions, q);
    lemma_matching_step(sessions, q);
    if q.len() == 0 {
        lemma_matching_all(sessions, q);
    }
}

proof fn lemma_matching_all(sessions: Seq<SessionSummaryView>, q: Seq<char>)
    requires
        q.len() == 0,
    ensures
        matching(sessions, q).len() == sessions.len(),
        forall|i: int| 0 <= i < sessions.len() ==> #[trigger] matching(sessions, q)[i] == i,
    decreases sessions.len(),
{
    if sessions.len() > 0 {
        lemma_matching_all(sessions.drop_last(), q);
    }
}

// ── starting a session ───────────────────────────────────────────────────────

/// How many directories are offered for the path of a new session.
pub const MAX_COMPLETIONS: usize = 6;

/// The text, where it is more than white space.
pub open spec fn unless_blank(s: Option<Seq<char>>) -> Option<Seq<char>> {
    match s {
        Some(t) => if blank(t) {
            None
        } else {
            Some(t)
        },
        None => None,
    }
}

fn filled_in(s: &Option<String>) -> (r: Option<String>)
    ensures
        r.deep_view() == unless_blank(s.deep_view()),
{
    match s {
        Some(t) => if is_blank(t.as_str()) {
            None
        } else {
            Some(t.clone())
        },
        None => None,
    }
}

/// The directory of a session: its own, or that of its group.
pub open spec fn session_dir(g: SessionGroupView, s: SessionSummaryView) -> Option<Seq<char>> {
    match unless_blank(s.cwd) {
        Some(d) => Some(d),
        None => unless_blank(g.cwd),
    }
}

/// The directory of a session among the sessions of a group from `i` on.
pub open spec fn dir_in_group(g: SessionGroupView, sid: Seq<char>, i: int) -> Option<Seq<char>>
    decreases g.sessions.len() - i,
{
    if i < 0 || i >= g.sessions.len() {
        None
    } else if g.sessions[i].session_id == sid && session_dir(g, g.sessions[i]) is Some {
        session_dir(g, g.sessions[i])
    } else {
        dir_in_group(g, sid, i + 1)
    }
}

/// The directory of a session among the groups from `i` on.
pub open spec fn dir_in_groups(
    groups: Seq<SessionGroupView>,
    sid: Seq<char>,
    i: int,
) -> Option<Seq<char>>
    decreases groups.len() - i,
{
    if i < 0 || i >= groups.len() {
        None
    } else if dir_in_group(groups[i], sid, 0) is Some {
        dir_in_group(groups[i], sid, 0)
    } else {
        dir_in_groups(groups, sid, i + 1)
    }
}

/// A path with the home directory in place of a leading `~`, where it is
/// known.
pub open spec fn with_home(path: Seq<char>, home: Option<Seq<char>>) -> Seq<char> {
    match home {
        Some(h) => if path == "~"@ {
            h
        } else if starts(path, "~/"@) {
            path_joined(h, path.skip(2))
        } else {
            path
        },
        None => path,
    }
}

/// The scores of candidates: by the path, else by its last name; all level for
/// an empty query.
pub open spec fn completion_scores(
    entries: Seq<FileIndexEntryLiteView>,
    q: Seq<char>,
) -> Seq<Option<i64>> {
    entries.map_values(
        |e: FileIndexEntryLiteView|
            if q.len() == 0 {
                Some(0i64)
            } else {
                match fuzzy_score(e.path, q) {
                    Some(f) => Some(f),
                    None => fuzzy_score(file_name(e.path), q),
                }
            },
    )
}

/// Being a directory.
pub open spec fn is_directory() -> spec_fn(FileIndexEntryLiteView) -> bool {
    |e: FileIndexEntryLiteView| e.is_dir
}

/// The directories that are offered for a query, the best first.
pub open spec fn completions(
    entries: Seq<FileIndexEntryLiteView>,
    query: Seq<char>,
) -> Seq<FileIndexEntryLiteView> {
    let dirs = entries.filter(is_directory());
    best(dirs, completion_scores(dirs, trimmed(query)), trimmed(query), MAX_COMPLETIONS as nat)
}

impl AppView {
    /// The directory that a new session starts in: that of the active session,
    /// else the one that the program was started in.
    pub open spec fn default_dir(self) -> Option<Seq<char>> {
        let own = match self.session_id {
            Some(sid) => dir_in_groups(self.session_groups, sid, 0),
            None => None,
        };
        match own {
            Some(d) => Some(d),
            None => unless_blank(self.launch_cwd),
        }
    }

    /// The directory that relative paths start from.
    pub open spec fn base_dir(self) -> Seq<char> {
        match self.launch_cwd {
            Some(d) => d,
            None => "."@,
        }
    }

    /// With the popup for a new session open on the default directory.
    pub open spec fn new_session_opened(self) -> AppView {
        let path = match self.default_dir() {
            Some(d) => d,
            None => Seq::empty(),
        };
        AppView {
            popup: Popup::NewSession,
            new_session_path: path,
            new_session_cursor: path.len() as usize,
            ..self
        }
    }

    /// The absolute path that an input stands for; an empty input stands for
    /// the default directory.
    pub open spec fn session_path(self, input: Seq<char>) -> Option<Seq<char>> {
        let t = trimmed(input);
        if t.len() == 0 {
            match self.default_dir() {
                Some(d) => Some(normal_path(d)),
                None => None,
            }
        } else {
            let path = with_home(t, self.home_dir);
            Some(
                normal_path(
                    if rooted(path) {
                        path
                    } else {
                        path_joined(self.base_dir(), path)
                    },
                ),
            )
        }
    }

    /// The directory whose entries complete a query.
    pub open spec fn completion_dir(self, query: Seq<char>) -> Seq<char> {
        let typed = trimmed(query);
        if typed.len() == 0 {
            self.base_dir()
        } else if rooted(typed) {
            match parent_path(typed) {
                Some(p) => p,
                None => "/"@,
            }
        } else {
            match parent_path(path_joined(self.base_dir(), typed)) {
                Some(p) => p,
                None => self.base_dir(),
            }
        }
    }

    /// With the directories that complete the path of the new session, out of
    /// the entries of a directory.
    pub open spec fn completion_refreshed(
        self,
        entries: Seq<FileIndexEntryLiteView>,
    ) -> AppView {
        AppView {
            new_session_completion: Some(
                PathCompletionStateView {
                    query: self.new_session_path,
                    selected_index: 0,
                    results: completions(entries, self.new_session_path),
                },
            ),
            ..self
        }
    }

    /// With the selection among the completions moved.
    pub open spec fn completion_moved(self, delta: int) -> AppView {
        AppView {
            new_session_completion: match self.new_session_completion {
                Some(c) => Some(
                    PathCompletionStateView {
                        selected_index: turn(
                            c.selected_index as int,
                            delta,
                            c.results.len() as int,
                        ) as usize,
                        ..c
                    },
                ),
                None => None,
            },
            ..self
        }
    }

    /// A completion is selected.
    pub open spec fn can_complete(self) -> bool {
        match self.new_session_completion {
            Some(c) => c.selected_index < c.results.len(),
            None => false,
        }
    }

    /// With the selected completion as the path of the new session, a
    /// directory with a slash at its end.
    pub open spec fn completion_accepted(self) -> AppView {
        if self.can_complete() {
            let c = self.new_session_completion->0;
            let e = c.results[c.selected_index as int];
            let path = match self.session_path(e.path) {
                Some(p) => p,
                None => e.path,
            };
            let full = if e.is_dir && !ends(path, '/') {
                path.push('/')
            } else {
                path
            };
            AppView {
                new_session_path: full,
                new_session_cursor: bytes(full) as usize,
                new_session_completion: None,
                ..self
            }
        } else {
            self
        }
    }
}

impl App {
    /// The directory that a new session starts in.
    pub fn resolve_new_session_default_cwd(&self) -> (r: Option<String>)
        ensures
            r.deep_view() == self@.default_dir(),
    {
        if let Some(sid) = &self.session_id {
            let ghost gv = self@.session_groups;
            let mut g: usize = 0;
            while g < self.session_groups.len()
                invariant
                    g <= self.session_groups@.len(),
                    gv == self@.session_groups,
                    self@.session_id == Some(sid@),
                    dir_in_groups(gv, sid@, g as int) == dir_in_groups(gv, sid@, 0),
                decreases self.session_groups@.len() - g,
            {
                let group = &self.session_groups[g];
                assert(gv[g as int] == group.deep_view());
                let mut i: usize = 0;
                while i < group.sessions.len()
                    invariant
                        i <= group.sessions@.len(),
                        g < self.session_groups@.len(),
                        gv == self@.session_groups,
                        gv[g as int] == group.deep_view(),
                        self@.session_id == Some(sid@),
                        dir_in_groups(gv, sid@, g as int) == dir_in_groups(gv, sid@, 0),
                        dir_in_group(gv[g as int], sid@, i as int) == dir_in_group(
                            gv[g as int],
                            sid@,
                            0,
                        ),
                    decreases group.sessions@.len() - i,
                {
                    let session = &group.sessions[i];
                    assert(gv[g as int].sessions[i as int] == session.deep_view());
                    if same(session.session_id.as_str(), sid.as_str()) {
                        let own = filled_in(&session.cwd);
                        if own.is_some() {
                            return own;
                        }
                        let shared = filled_in(&group.cwd);
                        if shared.is_some() {
                            return shared;
                        }
                    }
                    i = i + 1;
                }
                g = g + 1;
            }
        }
        filled_in(&self.launch_cwd)
    }

    /// Opens the popup for a new session.  The completions of its path are
    /// still those of before: they are refreshed with the entries of the
    /// completion root.
    pub fn open_new_session_popup(&mut self)
        ensures
            final(self)@ == old(self)@.new_session_opened(),
    {
        self.popup = Popup::NewSession;
        let path = match self.resolve_new_session_default_cwd() {
            Some(d) => d,
            None => String::new(),
        };
        self.new_session_cursor = path.as_str().unicode_len();
        self.new_session_path = path;
    }

    /// The directory that relative paths start from.
    pub fn new_session_base_dir(&self) -> (r: String)
        ensures
            r@ == self@.base_dir(),
    {
        match &self.launch_cwd {
            Some(d) => d.clone(),
            None => owned("."),
        }
    }

    /// A path with the home directory in place of a leading `~`.
    pub fn expand_user_path(&self, input: &str) -> (r: String)
        ensures
            r@ == with_home(input@, self@.home_dir),
    {
        match &self.home_dir {
            Some(home) => {
                proof {
                    reveal_strlit("~/");
                    assert("~/"@.len() == 2);
                }
                if same(input, "~") {
                    home.clone()
                } else if has_prefix(input, "~/") {
                    let v = to_chars(input);
                    let n: usize = v.len();
                    let rest = from_chars(&v, 2, n);
                    assert(rest@ =~= input@.skip(2));
                    join_path(home.as_str(), rest.as_str())
                } else {
                    owned(input)
                }
            },
            None => owned(input),
        }
    }

    /// The absolute path that an input stands for.
    pub fn normalize_new_session_path(&self, input: &str) -> (r: Option<String>)
        ensures
            r.deep_view() == self@.session_path(input@),
    {
        let t = trim(input);
        if t.as_str().is_empty() {
            return match self.resolve_new_session_default_cwd() {
                Some(d) => Some(normalize_lexical_path(d.as_str())),
                None => None,
            };
        }
        let path = self.expand_user_path(t.as_str());
        if is_rooted(path.as_str()) {
            Some(normalize_lexical_path(path.as_str()))
        } else {
            let base = self.new_session_base_dir();
            Some(normalize_lexical_path(join_path(base.as_str(), path.as_str()).as_str()))
        }
    }

    /// The directory whose entries complete a query.
    pub fn completion_root(&self, query: &str) -> (r: String)
        ensures
            r@ == self@.completion_dir(query@),
    {
        let typed = trim(query);
        let base = self.new_session_base_dir();
        if typed.as_str().is_empty() {
            base
        } else if is_rooted(typed.as_str()) {
            match parent_of(typed.as_str()) {
                Some(p) => p,
                None => owned("/"),
            }
        } else {
            match parent_of(join_path(base.as_str(), typed.as_str()).as_str()) {
                Some(p) => p,
                None => base,
            }
        }
    }

    /// The directories among the entries of a directory.
    pub fn collect_path_completion_candidates(
        &self,
        entries: &Vec<FileIndexEntryLite>,
    ) -> (r: Vec<FileIndexEntryLite>)
        ensures
            r.deep_view() == entries.deep_view().filter(is_directory()),
    {
        let ghost ev = entries.deep_view();
        let ghost p = is_directory();
        let mut out: Vec<FileIndexEntryLite> = Vec::new();
        let mut i: usize = 0;
        assert(out.deep_view() =~= ev.take(0).filter(p)) by {
            reveal(Seq::filter);
        }
        while i < entries.len()
            invariant
                i <= entries@.len(),
                ev == entries.deep_view(),
                p == is_directory(),
                out.deep_view() == ev.take(i as int).filter(p),
            decreases entries@.len() - i,
        {
            let ghost before = out.deep_view();
            proof {
                lemma_filter_step(ev, p, i as int);
                assert(ev[i as int] == entries@[i as int].deep_view());
            }
            if entries[i].is_dir {
                out.push(entries[i].clone());
                assert(out.deep_view() =~= before.push(ev[i as int]));
            }
            i = i + 1;
        }
        proof {
            lemma_take_all(ev);
        }
        out
    }

    /// The directories among the entries that are offered for a query, the
    /// best first.
    pub fn rank_path_completion_matches(
        &self,
        entries: &Vec<FileIndexEntryLite>,
        query: &str,
    ) -> (r: Vec<FileIndexEntryLite>)
        ensures
            r.deep_view() == completions(entries.deep_view(), query@),
    {
        let dirs = self.collect_path_completion_candidates(entries);
        let q = trim(query);
        let ghost dv = dirs.deep_view();
        let mut scores: Vec<Option<i64>> = Vec::new();
        let mut i: usize = 0;
        while i < dirs.len()
            invariant
                i <= dirs@.len(),
                dv == dirs.deep_view(),
                q@ == trimmed(query@),
                scores@ == completion_scores(dv, q@).take(i as int),
            decreases dirs@.len() - i,
        {
            let path = dirs[i].path.as_str();
            let score: Option<i64> = if q.as_str().is_empty() {
                Some(0)
            } else {
                match fuzzy_match(path, q.as_str()) {
                    Some(f) => Some(f),
                    None => fuzzy_match(file_name_of(path).as_str(), q.as_str()),
                }
            };
            assert(completion_scores(dv, q@)[i as int] == score);
            scores.push(score);
            assert(scores@ =~= completion_scores(dv, q@).take(i + 1));
            i = i + 1;
        }
        assert(scores@ =~= completion_scores(dv, q@));
        rank_entries(&dirs, &scores, q.as_str(), MAX_COMPLETIONS)
    }

    /// Offers the directories among `entries` that complete the path of the
    /// new session.
    pub fn refresh_new_session_completion(&mut self, entries: &Vec<FileIndexEntryLite>)
        ensures
            final(self)@ == old(self)@.completion_refreshed(entries.deep_view()),
    {
        let query = self.new_session_path.clone();
        let results = self.rank_path_completion_matches(entries, query.as_str());
        self.new_session_completion = Some(
            PathCompletionState { query, selected_index: 0, results },
        );
    }

    /// Moves the selection among the completions by `delta`, around the ends.
    pub fn move_new_session_completion_selection(&mut self, delta: isize)
        ensures
            final(self)@ == old(self)@.completion_moved(delta as int),
    {
        if let Some(c) = &mut self.new_session_completion {
            c.selected_index = turned(c.selected_index, delta, c.results.len());
        }
    }

    /// Takes the selected completion as the path of the new session.
    pub fn accept_selected_new_session_completion(&mut self) -> (r: bool)
        ensures
            r == old(self)@.can_complete(),
            final(self)@ == old(self)@.completion_accepted(),
    {
        let selected = match &self.new_session_completion {
            Some(c) => {
                if c.selected_index >= c.results.len() {
                    return false;
                }
                c.results[c.selected_index].clone()
            },
            None => {
                return false;
            },
        };
        let mut path = match self.normalize_new_session_path(selected.path.as_str()) {
            Some(p) => p,
            None => selected.path.clone(),
        };
        if selected.is_dir && !ends_with(path.as_str(), '/') {
            push_char(&mut path, '/');
        }
        self.new_session_cursor = byte_len(path.as_str());
        self.new_session_path = path;
        self.new_session_completion = None;
        true
    }
}

// ── activity ─────────────────────────────────────────────────────────────────

/// How long a session counts as active after an event, in nanoseconds.
pub const ACTIVE_SESSION_WINDOW: u64 = 5_000_000_000;

impl AppView {
    /// The session showed activity a moment ago.
    pub open spec fn recently_active(self, a: SessionActivityView) -> bool {
        monus(self.now_ns as int, a.last_event_at as int) <= ACTIVE_SESSION_WINDOW
    }

    /// The sessions that showed activity a moment ago.
    pub open spec fn active_sessions(self) -> Set<Seq<char>> {
        self.session_activity.dom().filter(
            |k: Seq<char>| self.recently_active(self.session_activity[k]),
        )
    }

    /// Those of them that are not the current session.
    pub open spec fn other_active_sessions(self) -> Set<Seq<char>> {
        self.active_sessions().filter(|k: Seq<char>| self.session_id != Some(k))
    }
}

impl App {
    /// Notes that a session shows activity.
    pub fn note_session_activity(&mut self, session_id: &str)
        ensures
            final(self)@ == (AppView {
                session_activity: old(self)@.session_activity.insert(
                    session_id@,
                    SessionActivityView { last_event_at: old(self)@.now_ns },
                ),
                ..old(self)@
            }),
    {
        self.session_activity.insert(
            owned(session_id),
            SessionActivity { last_event_at: self.now_ns },
        );
    }

    fn count_active(&self, others_only: bool) -> (r: usize)
        ensures
            r == (if others_only {
                self@.other_active_sessions().len()
            } else {
                self@.active_sessions().len()
            }),
    {
        let n: usize = self.session_activity.len();
        let ghost keys = self.session_activity.keys();
        let ghost mut seen: Set<Seq<char>> = Set::empty();
        let mut count: usize = 0;
        let mut i: usize = 0;
        let ghost goal = if others_only {
            self@.other_active_sessions()
        } else {
            self@.active_sessions()
        };
        while i < n
            invariant
                i <= n,
                n == keys.len(),
                keys == self.session_activity.keys(),
                keys.no_duplicates(),
                forall|k: Seq<char>| #[trigger]
                    self.session_activity.deep_view().contains_key(k) <==> keys.contains(k),
                goal == (if others_only {
                    self@.other_active_sessions()
                } else {
                    self@.active_sessions()
                }),
                count <= i,
                seen.finite(),
                seen.len() == count,
                forall|k: Seq<char>| #[trigger]
                    seen.contains(k) <==> goal.contains(k) && exists|j: int|
                        0 <= j < i && keys[j] == k,
            decreases n - i,
        {
            let key = self.session_activity.key_at(i);
            let a = self.session_activity.value_at(i);
            let hit = self.now_ns.saturating_sub(a.last_event_at) <= ACTIVE_SESSION_WINDOW && !(
            others_only && opt_is(&self.session_id, key.as_str()));
            proof {
                assert(self@.session_activity.contains_key(key@));
                assert(hit == goal.contains(key@));
                assert(!seen.contains(key@)) by {
                    if seen.contains(key@) {
                        let j = choose|j: int| 0 <= j < i && keys[j] == key@;
                        assert(keys[j] == keys[i as int]);
                    }
                }
                if hit {
                    seen = seen.insert(key@);
                }
                assert forall|k: Seq<char>| #[trigger]
                    seen.contains(k) <==> goal.contains(k) && exists|j: int|
                        0 <= j < i + 1 && keys[j] == k by {
                    if exists|j: int| 0 <= j < i && keys[j] == k {
                        let j = choose|j: int| 0 <= j < i && keys[j] == k;
                        assert(0 <= j < i + 1 && keys[j] == k);
                    }
                    if k == key@ {
                        assert(0 <= i < i + 1 && keys[i as int] == k);
                    }
                }
            }
            if hit {
                count = count + 1;
            }
            i = i + 1;
        }
        proof {
            assert forall|k: Seq<char>| seen.contains(k) <==> goal.contains(k) by {
                if goal.contains(k) {
                    assert(self.session_activity.deep_view().contains_key(k));
                    assert(keys.contains(k));
                }
            }
            assert(seen =~= goal);
        }
        count
    }

    /// How many sessions showed activity a moment ago.
    pub fn active_session_count(&self) -> (r: usize)
        ensures
            r == self@.active_sessions().len(),
    {
        self.count_active(false)
    }

    /// How many sessions beside the current one showed activity a moment ago.
    pub fn other_active_session_count(&self) -> (r: usize)
        ensures
            r == self@.other_active_sessions().len(),
    {
        self.count_active(true)
    }
}

impl App {
    /// Lists of sessions are as long as vectors can be.
    pub proof fn lemma_lists_fit(&self)
        ensures
            self@.session_groups.len() <= usize::MAX,
            forall|g: int|
                0 <= g < self@.session_groups.len() ==> (
                #[trigger] self@.session_groups[g]).sessions.len() <= usize::MAX,
    {
        assert forall|g: int| 0 <= g < self@.session_groups.len() implies (
        #[trigger] self@.session_groups[g]).sessions.len() <= usize::MAX by {
            assert(self@.session_groups[g] == self.session_groups@[g].deep_view());
            assert(self.session_groups@[g].sessions@.len() <= usize::MAX) by {
                vstd::std_specs::vec::axiom_spec_len(&self.session_groups@[g].sessions);
            }
        }
        vstd::std_specs::vec::axiom_spec_len(&self.session_groups);
    }
}

} // verus!
