//! Undo and redo: the stack of reverted turns is the server's, the client
//! keeps a picture of it and the message at which the branch starts.
use crate::app::{
    App, AppView, UndoFrame, UndoFrameStatus, UndoFrameView, UndoState, UndoStateView,
    UndoableTurn, UndoableTurnView,
};
use crate::protocol::{UndoStackFrame, UndoStackFrameView};
use crate::seqs::{final_match, first, first_index, lemma_first_index, lemma_first_is, lemma_first_none};
use crate::text::{copy_opt, opt_is, same};
use vstd::prelude::*;

verus! {

/// Being the turn of a message.
pub open spec fn turn_of(message_id: Seq<char>) -> spec_fn(UndoableTurnView) -> bool {
    |t: UndoableTurnView| t.message_id == message_id
}

/// Having a message.
pub open spec fn has_message() -> spec_fn(UndoableTurnView) -> bool {
    |t: UndoableTurnView| t.message_id.len() > 0
}

/// Being the frame of a message.
pub open spec fn frame_of(message_id: Seq<char>) -> spec_fn(UndoFrameView) -> bool {
    |f: UndoFrameView| f.message_id == message_id
}

/// The stack holds the message.
pub open spec fn on_stack(stack: Seq<UndoFrameView>, message_id: Option<Seq<char>>) -> bool {
    match message_id {
        Some(id) => first_index(stack, frame_of(id)) is Some,
        None => false,
    }
}

impl AppView {
    /// The message at which the branch starts.
    pub open spec fn frontier(self) -> Option<Seq<char>> {
        match self.undo_state {
            Some(state) => state.frontier_message_id,
            None => None,
        }
    }

    /// The reverted turns.
    pub open spec fn undo_stack(self) -> Seq<UndoFrameView> {
        match self.undo_state {
            Some(state) => state.stack,
            None => Seq::empty(),
        }
    }

    /// An undo waits for the server.
    pub open spec fn undo_pending(self) -> bool {
        exists|i: int|
            0 <= i < self.undo_stack().len() && #[trigger] self.undo_stack()[i].status
                == UndoFrameStatus::Pending
    }

    /// How many turns stand before the frontier; all, where the frontier is
    /// not among them.
    pub open spec fn turns_before_frontier(self) -> int {
        match self.frontier() {
            Some(id) => match first_index(self.undoable_turns, turn_of(id)) {
                Some(k) => k,
                None => self.undoable_turns.len() as int,
            },
            None => self.undoable_turns.len() as int,
        }
    }

    /// The turn that an undo reverts: the last one before the frontier that
    /// has a message.
    pub open spec fn undo_target(self) -> Option<UndoableTurnView> {
        final_match(self.undoable_turns.take(self.turns_before_frontier()), has_message())
    }

    /// With an undo of `turn` that waits for the server.
    pub open spec fn undo_pushed(self, turn: UndoableTurnView) -> AppView {
        AppView {
            undo_state: Some(
                UndoStateView {
                    stack: self.undo_stack().push(
                        UndoFrameView {
                            turn_id: turn.turn_id,
                            message_id: turn.message_id,
                            status: UndoFrameStatus::Pending,
                            reverted_files: Seq::empty(),
                        },
                    ),
                    frontier_message_id: Some(turn.message_id),
                },
            ),
            ..self
        }
    }

    /// The confirmed frame of a message: turn and files are those that were
    /// known of it, the files of `preferred` those that were just reverted.
    pub open spec fn confirmed_frame(
        self,
        id: Seq<char>,
        preferred: Option<Seq<char>>,
        files: Option<Seq<Seq<char>>>,
    ) -> UndoFrameView {
        let previous = final_match(self.undo_stack(), frame_of(id));
        UndoFrameView {
            turn_id: match previous {
                Some(f) => f.turn_id,
                None => match first(self.undoable_turns, turn_of(id)) {
                    Some(t) => t.turn_id,
                    None => id,
                },
            },
            message_id: id,
            status: UndoFrameStatus::Confirmed,
            reverted_files: if preferred == Some(id) && files is Some {
                files->0
            } else {
                match previous {
                    Some(f) => f.reverted_files,
                    None => Seq::empty(),
                }
            },
        }
    }

    /// The undo state that the stack of the server stands for.  The branch
    /// starts at `preferred`, or where it started, or at the last frame:
    /// whichever is first on the stack.
    pub open spec fn undo_state_of(
        self,
        server: Seq<UndoStackFrameView>,
        preferred: Option<Seq<char>>,
        files: Option<Seq<Seq<char>>>,
    ) -> Option<UndoStateView> {
        if server.len() == 0 {
            None
        } else {
            let stack = server.map_values(
                |f: UndoStackFrameView| self.confirmed_frame(f.message_id, preferred, files),
            );
            Some(
                UndoStateView {
                    stack,
                    frontier_message_id: if on_stack(stack, preferred) {
                        preferred
                    } else if on_stack(stack, self.frontier()) {
                        self.frontier()
                    } else {
                        Some(stack.last().message_id)
                    },
                },
            )
        }
    }
}

proof fn lemma_final_match_none<T>(s: Seq<T>, p: spec_fn(T) -> bool)
    requires
        forall|j: int| 0 <= j < s.len() ==> !p(#[trigger] s[j]),
    ensures
        final_match(s, p) is None,
    decreases s.len(),
{
    if s.len() > 0 {
        lemma_final_match_none(s.drop_last(), p);
    }
}

proof fn lemma_final_match_is<T>(s: Seq<T>, p: spec_fn(T) -> bool, k: int)
    requires
        0 <= k < s.len(),
        p(s[k]),
        forall|j: int| k < j < s.len() ==> !p(#[trigger] s[j]),
    ensures
        final_match(s, p) == Some(s[k]),
    decreases s.len(),
{
    if k < s.len() - 1 {
        assert(!p(s[s.len() - 1]));
        lemma_final_match_is(s.drop_last(), p, k);
    }
}

proof fn lemma_final_match_found<T>(s: Seq<T>, p: spec_fn(T) -> bool)
    requires
        final_match(s, p) is Some,
    ensures
        p(final_match(s, p)->0),
        s.contains(final_match(s, p)->0),
    decreases s.len(),
{
    if p(s.last()) {
        assert(s[s.len() - 1] == s.last());
    } else {
        lemma_final_match_found(s.drop_last(), p);
        let d = s.drop_last();
        let x = final_match(d, p)->0;
        let i = choose|i: int| 0 <= i < d.len() && d[i] == x;
        assert(s[i] == x);
    }
}

impl App {
    /// An undo waits for the server.
    pub fn has_pending_undo(&self) -> (r: bool)
        ensures
            r == self@.undo_pending(),
    {
        match &self.undo_state {
            Some(state) => {
                let ghost sv = state.stack.deep_view();
                let mut i: usize = 0;
                while i < state.stack.len()
                    invariant
                        i <= state.stack@.len(),
                        sv == state.stack.deep_view(),
                        self@.undo_stack() == sv,
                        forall|j: int|
                            0 <= j < i ==> #[trigger] sv[j].status != UndoFrameStatus::Pending,
                    decreases state.stack@.len() - i,
                {
                    assert(sv[i as int].status == state.stack@[i as int].status);
                    if state.stack[i].status == UndoFrameStatus::Pending {
                        assert(self@.undo_stack()[i as int].status == UndoFrameStatus::Pending);
                        return true;
                    }
                    i = i + 1;
                }
                false
            },
            None => false,
        }
    }

    fn frontier_position(&self) -> (r: usize)
        ensures
            r == self@.turns_before_frontier(),
            r <= self.undoable_turns@.len(),
    {
        match &self.undo_state {
            Some(state) => match &state.frontier_message_id {
                Some(id) => match find_turn(&self.undoable_turns, id.as_str()) {
                    Some(k) => k,
                    None => self.undoable_turns.len(),
                },
                None => self.undoable_turns.len(),
            },
            None => self.undoable_turns.len(),
        }
    }

    /// The turn that an undo reverts.
    pub fn current_undo_target(&self) -> (r: Option<&UndoableTurn>)
        ensures
            r.deep_view() == self@.undo_target(),
    {
        let start = self.frontier_position();
        let ghost tv = self@.undoable_turns.take(start as int);
        let ghost p = has_message();
        let mut i: usize = start;
        while i > 0
            invariant
                i <= start <= self.undoable_turns@.len(),
                tv == self@.undoable_turns.take(start as int),
                p == has_message(),
                forall|j: int| i <= j < start ==> !p(#[trigger] tv[j]),
                self@.undo_target() == final_match(tv, p),
            decreases i,
        {
            i = i - 1;
            assert(tv[i as int] == self.undoable_turns@[i as int].deep_view());
            if !self.undoable_turns[i].message_id.as_str().is_empty() {
                proof {
                    lemma_final_match_is(tv, p, i as int);
                }
                return Some(&self.undoable_turns[i]);
            }
        }
        proof {
            lemma_final_match_none(tv, p);
        }
        None
    }

    /// There is something to redo.
    pub fn can_redo(&self) -> (r: bool)
        ensures
            r == (self@.undo_stack().len() > 0),
    {
        match &self.undo_state {
            Some(state) => state.stack.len() > 0,
            None => false,
        }
    }

    /// Notes an undo of `turn` that waits for the server.
    pub fn push_pending_undo(&mut self, turn: &UndoableTurn)
        ensures
            final(self)@ == old(self)@.undo_pushed(turn.deep_view()),
    {
        let mut stack: Vec<UndoFrame> = match &self.undo_state {
            Some(state) => state.stack.clone(),
            None => Vec::new(),
        };
        assert(stack.deep_view() =~= self@.undo_stack());
        let ghost before = stack.deep_view();
        let frame = UndoFrame {
            turn_id: turn.turn_id.clone(),
            message_id: turn.message_id.clone(),
            status: UndoFrameStatus::Pending,
            reverted_files: Vec::new(),
        };
        assert(frame.deep_view().reverted_files =~= Seq::<Seq<char>>::empty());
        stack.push(frame);
        assert(stack.deep_view() =~= before.push(frame.deep_view()));
        self.undo_state = Some(
            UndoState { stack, frontier_message_id: Some(turn.message_id.clone()) },
        );
    }

    fn confirmed(
        &self,
        id: &String,
        preferred: &Option<String>,
        files: &Option<Vec<String>>,
    ) -> (r: UndoFrame)
        ensures
            r.deep_view() == self@.confirmed_frame(
                id@,
                preferred.deep_view(),
                files.deep_view(),
            ),
    {
        let previous = self.previous_frame(id.as_str());
        let turn_id = match &previous {
            Some(f) => f.turn_id.clone(),
            None => match find_turn(&self.undoable_turns, id.as_str()) {
                Some(k) => self.undoable_turns[k].turn_id.clone(),
                None => id.clone(),
            },
        };
        let known: Vec<String> = match &previous {
            Some(f) => copy_texts(&f.reverted_files),
            None => Vec::new(),
        };
        assert(known.deep_view() =~= (match previous.deep_view() {
            Some(f) => f.reverted_files,
            None => Seq::<Seq<char>>::empty(),
        }));
        let reverted_files = if opt_is(preferred, id.as_str()) {
            match files {
                Some(f) => copy_texts(f),
                None => known,
            }
        } else {
            known
        };
        UndoFrame {
            turn_id,
            message_id: id.clone(),
            status: UndoFrameStatus::Confirmed,
            reverted_files,
        }
    }

    fn previous_frame(&self, id: &str) -> (r: Option<UndoFrame>)
        ensures
            r.deep_view() == final_match(self@.undo_stack(), frame_of(id@)),
    {
        let ghost p = frame_of(id@);
        match &self.undo_state {
            Some(state) => {
                let ghost sv = state.stack.deep_view();
                let n: usize = state.stack.len();
                let mut i: usize = n;
                while i > 0
                    invariant
                        i <= n,
                        n == state.stack@.len(),
                        sv == state.stack.deep_view(),
                        p == frame_of(id@),
                        self@.undo_stack() == sv,
                        forall|j: int| i <= j < n ==> !p(#[trigger] sv[j]),
                    decreases i,
                {
                    i = i - 1;
                    assert(sv[i as int] == state.stack@[i as int].deep_view());
                    if same(state.stack[i].message_id.as_str(), id) {
                        proof {
                            lemma_final_match_is(sv, p, i as int);
                        }
                        return Some(state.stack[i].clone());
                    }
                }
                proof {
                    lemma_final_match_none(sv, p);
                }
                None
            },
            None => None,
        }
    }

    /// The undo state that the stack of the server stands for.
    pub fn build_undo_state_from_server_stack(
        &self,
        undo_stack: &Vec<UndoStackFrame>,
        preferred_frontier_message_id: &Option<String>,
        reverted_files: &Option<Vec<String>>,
    ) -> (r: Option<UndoState>)
        ensures
            r.deep_view() == self@.undo_state_of(
                undo_stack.deep_view(),
                preferred_frontier_message_id.deep_view(),
                reverted_files.deep_view(),
            ),
    {
        if undo_stack.len() == 0 {
            return None;
        }
        let ghost sv = undo_stack.deep_view();
        let ghost pref = preferred_frontier_message_id.deep_view();
        let ghost files = reverted_files.deep_view();
        let ghost goal = sv.map_values(
            |f: UndoStackFrameView| self@.confirmed_frame(f.message_id, pref, files),
        );
        let mut stack: Vec<UndoFrame> = Vec::new();
        let mut i: usize = 0;
        assert(stack.deep_view() =~= goal.take(0));
        while i < undo_stack.len()
            invariant
                i <= undo_stack@.len(),
                sv == undo_stack.deep_view(),
                pref == preferred_frontier_message_id.deep_view(),
                files == reverted_files.deep_view(),
                goal == sv.map_values(
                    |f: UndoStackFrameView| self@.confirmed_frame(f.message_id, pref, files),
                ),
                stack.deep_view() == goal.take(i as int),
            decreases undo_stack@.len() - i,
        {
            let ghost before = stack.deep_view();
            let frame = self.confirmed(
                &undo_stack[i].message_id,
                preferred_frontier_message_id,
                reverted_files,
            );
            assert(sv[i as int].message_id == undo_stack@[i as int].message_id@);
            assert(goal[i as int] == frame.deep_view());
            stack.push(frame);
            assert(stack.deep_view() =~= before.push(goal[i as int]));
            assert(stack.deep_view() =~= goal.take(i + 1));
            i = i + 1;
        }
        assert(stack.deep_view() =~= goal);
        let frontier = match &self.undo_state {
            Some(state) => copy_opt(&state.frontier_message_id),
            None => None,
        };
        let frontier_message_id = if stack_has(&stack, preferred_frontier_message_id) {
            copy_opt(preferred_frontier_message_id)
        } else if stack_has(&stack, &frontier) {
            frontier
        } else {
            Some(stack[stack.len() - 1].message_id.clone())
        };
        Some(UndoState { stack, frontier_message_id })
    }
}

/// A copy of texts.
pub fn copy_texts(v: &Vec<String>) -> (r: Vec<String>)
    ensures
        r.deep_view() == v.deep_view(),
{
    let r = v.clone();
    assert(r.deep_view() =~= v.deep_view());
    r
}

fn stack_has(stack: &Vec<UndoFrame>, message_id: &Option<String>) -> (r: bool)
    ensures
        r == on_stack(stack.deep_view(), message_id.deep_view()),
{
    match message_id {
        Some(id) => {
            let ghost sv = stack.deep_view();
            let ghost p = frame_of(id@);
            let mut i: usize = 0;
            while i < stack.len()
                invariant
                    i <= stack@.len(),
                    sv == stack.deep_view(),
                    p == frame_of(id@),
                    message_id.deep_view() == Some(id@),
                    forall|j: int| 0 <= j < i ==> !p(#[trigger] sv[j]),
                decreases stack@.len() - i,
            {
                assert(sv[i as int] == stack@[i as int].deep_view());
                if same(stack[i].message_id.as_str(), id.as_str()) {
                    proof {
                        lemma_first_is(sv, p, i as int);
                    }
                    return true;
                }
                i = i + 1;
            }
            proof {
                lemma_first_none(sv, p);
            }
            false
        },
        None => false,
    }
}

/// Position of the first turn of a message.
pub fn find_turn(turns: &Vec<UndoableTurn>, id: &str) -> (r: Option<usize>)
    ensures
        match r {
            Some(k) => first_index(turns.deep_view(), turn_of(id@)) == Some(k as int) && k
                < turns@.len(),
            None => first_index(turns.deep_view(), turn_of(id@)) is None,
        },
{
    let ghost tv = turns.deep_view();
    let ghost p = turn_of(id@);
    let mut i: usize = 0;
    while i < turns.len()
        invariant
            i <= turns@.len(),
            tv == turns.deep_view(),
            p == turn_of(id@),
            forall|j: int| 0 <= j < i ==> !p(#[trigger] tv[j]),
        decreases turns@.len() - i,
    {
        assert(tv[i as int] == turns@[i as int].deep_view());
        if same(turns[i].message_id.as_str(), id) {
            proof {
                lemma_first_is(tv, p, i as int);
            }
            return Some(i);
        }
        i = i + 1;
    }
    proof {
        lemma_first_none(tv, p);
    }
    None
}

// ── laws ─────────────────────────────────────────────────────────────────────

/// An undo that was noted waits for the server, its message is the frontier,
/// it can be redone, and the next undo reverts another, earlier turn.
pub proof fn law_undo_moves_back(app: AppView)
    requires
        app.undo_target() is Some,
    ensures
        ({
            let turn = app.undo_target()->0;
            let s = app.undo_pushed(turn);
            &&& s.undo_pending()
            &&& s.undo_stack().len() > 0
            &&& s.frontier() == Some(turn.message_id)
            &&& s.undo_target() is Some ==> s.undo_target()->0.message_id != turn.message_id
            &&& s.turns_before_frontier() < app.turns_before_frontier()
        }),
{
    let turn = app.undo_target()->0;
    let s = app.undo_pushed(turn);
    let n = app.turns_before_frontier();
    match app.frontier() {
        Some(id) => {
            lemma_first_index(app.undoable_turns, turn_of(id));
        },
        None => {},
    }
    let before = app.undoable_turns.take(n);
    lemma_final_match_found(before, has_message());
    let i = choose|i: int| 0 <= i < before.len() && before[i] == turn;
    lemma_first_index(app.undoable_turns, turn_of(turn.message_id));
    assert(app.undoable_turns[i] == turn);
    let k = s.turns_before_frontier();
    assert(k <= i);
    assert(s.undo_stack()[s.undo_stack().len() - 1].status == UndoFrameStatus::Pending);
    if s.undo_target() is Some {
        let rest = s.undoable_turns.take(k);
        lemma_final_match_found(rest, has_message());
        let t = s.undo_target()->0;
        let j = choose|j: int| 0 <= j < rest.len() && rest[j] == t;
        assert(!turn_of(turn.message_id)(s.undoable_turns[j]));
    }
}

/// What the server reports is confirmed, one frame for each of its frames and
/// in its order, and the branch starts at one of them.
pub proof fn law_server_stack_is_mirrored(
    app: AppView,
    server: Seq<UndoStackFrameView>,
    preferred: Option<Seq<char>>,
    files: Option<Seq<Seq<char>>>,
)
    requires
        server.len() > 0,
    ensures
        ({
            let state = app.undo_state_of(server, preferred, files)->0;
            &&& app.undo_state_of(server, preferred, files) is Some
            &&& state.stack.len() == server.len()
            &&& forall|i: int|
                0 <= i < server.len() ==> (#[trigger] state.stack[i]).message_id
                    == server[i].message_id && state.stack[i].status == UndoFrameStatus::Confirmed
            &&& on_stack(state.stack, state.frontier_message_id)
        }),
{
    let state = app.undo_state_of(server, preferred, files)->0;
    let last = state.stack.last().message_id;
    lemma_first_index(state.stack, frame_of(last));
    assert(frame_of(last)(state.stack[state.stack.len() - 1]));
}

/// A frame that the server reports keeps the turn and the files that were known of its
/// message; the files of the message that was just reverted are those that were reverted.
/// A message that was on no frame has the turn that is known of it.
pub proof fn law_confirmed_frames_keep_what_is_known(
    app: AppView,
    id: Seq<char>,
    k: int,
    preferred: Option<Seq<char>>,
    files: Option<Seq<Seq<char>>>,
)
    requires
        0 <= k < app.undo_stack().len(),
        app.undo_stack()[k].message_id == id,
        forall|j: int|
            k < j < app.undo_stack().len() ==> (#[trigger] app.undo_stack()[j]).message_id != id,
    ensures
        ({
            let f = app.confirmed_frame(id, preferred, files);
            &&& f.turn_id == app.undo_stack()[k].turn_id
            &&& f.message_id == id
            &&& preferred == Some(id) && files is Some ==> f.reverted_files == files->0
            &&& preferred != Some(id) || files is None ==> f.reverted_files
                == app.undo_stack()[k].reverted_files
        }),
{
    lemma_final_match_is(app.undo_stack(), frame_of(id), k);
}

/// The branch that the stack of the server stands for starts at the message that was
/// just reverted, where it is on the stack; otherwise where it started before, where
/// that is on the stack; otherwise at the last frame.  An empty stack stands for none.
pub proof fn law_branch_starts_where_it_was_reverted(
    app: AppView,
    server: Seq<UndoStackFrameView>,
    k: int,
    files: Option<Seq<Seq<char>>>,
    other: Option<Seq<char>>,
)
    requires
        0 <= k < server.len(),
        forall|j: int|
            0 <= j < server.len() ==> Some((#[trigger] server[j]).message_id) != other,
    ensures
        app.undo_state_of(Seq::empty(), other, files) is None,
        app.undo_state_of(server, Some(server[k].message_id), files)->0.frontier_message_id == Some(
            server[k].message_id,
        ),
        app.frontier() == Some(server[k].message_id) ==> app.undo_state_of(server, other, files)
            ->0.frontier_message_id == Some(server[k].message_id),
        (forall|j: int|
            0 <= j < server.len() ==> Some((#[trigger] server[j]).message_id) != app.frontier())
            ==> app.undo_state_of(server, other, files)->0.frontier_message_id == Some(
            server.last().message_id,
        ),
{
    let id = server[k].message_id;
    let s1 = app.undo_state_of(server, Some(id), files)->0.stack;
    crate::seqs::lemma_first_index(s1, frame_of(id));
    assert(frame_of(id)(s1[k]));
    let s2 = app.undo_state_of(server, other, files)->0.stack;
    assert(s2.last().message_id == server.last().message_id);
    match other {
        Some(o) => {
            crate::seqs::lemma_first_index(s2, frame_of(o));
            if first_index(s2, frame_of(o)) is Some {
                let j = first_index(s2, frame_of(o))->0;
                assert(s2[j].message_id == server[j].message_id);
            }
        },
        None => {},
    }
    match app.frontier() {
        Some(f) => {
            crate::seqs::lemma_first_index(s2, frame_of(f));
            if f == id {
                assert(frame_of(f)(s2[k]));
            }
            if first_index(s2, frame_of(f)) is Some {
                let j = first_index(s2, frame_of(f))->0;
                assert(s2[j].message_id == server[j].message_id);
            }
        },
        None => {},
    }
}

} // verus!
