//! What the shells behind the panes report, and which window it concerns.

use vstd::prelude::*;
use crate::layout::{SessionId, WindowId};
use crate::text::opt_text;
use crate::windows::{has_close_window, queue_close_window, with_close_window, DeferredWindowAction};

verus! {

broadcast use vstd::seq_lib::group_seq_properties;

/// What a shell reports.
#[derive(Debug, PartialEq, Eq)]
pub enum BackendEvent {
    Title(String),
    Exited,
    Bell,
    /// The program put this text on the clipboard.
    ClipboardSet(String),
    CurrentDir(String),
    Other,
}

/// Reports, each with the session that it comes from, in order.
pub type Reports = [(SessionId, BackendEvent)];

// ---- collecting ------------------------------------------------------------

pub open spec fn sessions_view(v: Seq<SessionId>) -> Seq<Seq<char>> {
    v.map_values(|s: SessionId| s@)
}

pub open spec fn rows_of(v: Seq<(SessionId, String)>) -> Seq<(Seq<char>, Seq<char>)> {
    v.map_values(|r: (SessionId, String)| (r.0@, r.1@))
}

/// The sessions whose shell has ended, in order.
pub open spec fn exited_in(events: Seq<(SessionId, BackendEvent)>) -> Seq<Seq<char>>
    decreases events.len(),
{
    if events.len() == 0 {
        Seq::<Seq<char>>::empty()
    } else {
        let before = exited_in(events.drop_last());
        if events.last().1 is Exited {
            before.push(events.last().0@)
        } else {
            before
        }
    }
}

/// The sessions that rang, in order.
pub open spec fn belled_in(events: Seq<(SessionId, BackendEvent)>) -> Seq<Seq<char>>
    decreases events.len(),
{
    if events.len() == 0 {
        Seq::<Seq<char>>::empty()
    } else {
        let before = belled_in(events.drop_last());
        if events.last().1 is Bell {
            before.push(events.last().0@)
        } else {
            before
        }
    }
}

/// The titles that were set, in order.
pub open spec fn titles_in(events: Seq<(SessionId, BackendEvent)>) -> Seq<(Seq<char>, Seq<char>)>
    decreases events.len(),
{
    if events.len() == 0 {
        Seq::<(Seq<char>, Seq<char>)>::empty()
    } else {
        let before = titles_in(events.drop_last());
        match events.last().1 {
            BackendEvent::Title(t) => before.push((events.last().0@, t@)),
            _ => before,
        }
    }
}

/// The directories that were entered, in order.
pub open spec fn dirs_in(events: Seq<(SessionId, BackendEvent)>) -> Seq<(Seq<char>, Seq<char>)>
    decreases events.len(),
{
    if events.len() == 0 {
        Seq::<(Seq<char>, Seq<char>)>::empty()
    } else {
        let before = dirs_in(events.drop_last());
        match events.last().1 {
            BackendEvent::CurrentDir(d) => before.push((events.last().0@, d@)),
            _ => before,
        }
    }
}

/// The text that was put on the clipboard last.
pub open spec fn clipboard_in(events: Seq<(SessionId, BackendEvent)>) -> Option<Seq<char>>
    decreases events.len(),
{
    if events.len() == 0 {
        None
    } else {
        match events.last().1 {
            BackendEvent::ClipboardSet(t) => Some(t@),
            _ => clipboard_in(events.drop_last()),
        }
    }
}

/// The title that a session set last.
pub open spec fn title_of_in(events: Seq<(SessionId, BackendEvent)>, session: Option<Seq<char>>) -> Option<Seq<char>>
    decreases events.len(),
{
    if events.len() == 0 {
        None
    } else {
        match events.last().1 {
            BackendEvent::Title(t) if session == Some(events.last().0@) => Some(t@),
            _ => title_of_in(events.drop_last(), session),
        }
    }
}

/// What the reports of one turn come to.
#[derive(Debug, PartialEq, Eq)]
pub struct Drained {
    /// The title that the focused session set last.
    pub new_title: Option<String>,
    pub exited: Vec<SessionId>,
    pub belled: Vec<SessionId>,
    pub clipboard: Option<String>,
    pub titles: Vec<(SessionId, String)>,
    pub dirs: Vec<(SessionId, String)>,
}

pub open spec fn opt_session(s: Option<&SessionId>) -> Option<Seq<char>> {
    match s {
        Some(t) => Some(t@),
        None => None,
    }
}

/// Collects the reports of one turn.
pub fn drain(events: &Reports, focused: Option<&SessionId>) -> (r: Drained)
    ensures
        opt_text(r.new_title) == title_of_in(events@, opt_session(focused)),
        sessions_view(r.exited@) == exited_in(events@),
        sessions_view(r.belled@) == belled_in(events@),
        opt_text(r.clipboard) == clipboard_in(events@),
        rows_of(r.titles@) == titles_in(events@),
        rows_of(r.dirs@) == dirs_in(events@),
{
    let mut out = Drained {
        new_title: None,
        exited: Vec::new(),
        belled: Vec::new(),
        clipboard: None,
        titles: Vec::new(),
        dirs: Vec::new(),
    };
    let mut i: usize = 0;
    while i < events.len()
        invariant
            i <= events@.len(),
            opt_text(out.new_title) == title_of_in(
                events@.take(i as int),
                opt_session(focused),
            ),
            sessions_view(out.exited@) == exited_in(events@.take(i as int)),
            sessions_view(out.belled@) == belled_in(events@.take(i as int)),
            opt_text(out.clipboard) == clipboard_in(events@.take(i as int)),
            rows_of(out.titles@) == titles_in(events@.take(i as int)),
            rows_of(out.dirs@) == dirs_in(events@.take(i as int)),
        decreases events@.len() - i,
    {
        let ghost here = events@.take(i + 1);
        assert(here.drop_last() == events@.take(i as int));
        assert(here.last() == events@[i as int]);
        let ghost before = out;
        let id = &events[i].0;
        match &events[i].1 {
            BackendEvent::Title(t) => {
                out.titles.push((id.copy(), t.clone()));
                assert(rows_of(out.titles@) == rows_of(before.titles@).push((id@, t@)));
                if let Some(f) = focused {
                    if f.is(id) {
                        out.new_title = Some(t.clone());
                    }
                }
            },
            BackendEvent::Exited => {
                out.exited.push(id.copy());
                assert(sessions_view(out.exited@) == sessions_view(before.exited@).push(id@));
            },
            BackendEvent::Bell => {
                out.belled.push(id.copy());
                assert(sessions_view(out.belled@) == sessions_view(before.belled@).push(id@));
            },
            BackendEvent::ClipboardSet(t) => {
                out.clipboard = Some(t.clone());
            },
            BackendEvent::CurrentDir(d) => {
                out.dirs.push((id.copy(), d.clone()));
                assert(rows_of(out.dirs@) == rows_of(before.dirs@).push((id@, d@)));
            },
            BackendEvent::Other => {},
        }
        i += 1;
    }
    assert(events@.take(i as int) == events@);
    out
}

/// Reports that come later in the same turn are collected behind the earlier ones, and none gets
/// lost.
pub proof fn law_reports_add_up(a: Seq<(SessionId, BackendEvent)>, b: Seq<(SessionId, BackendEvent)>)
    ensures
        exited_in(a + b) == exited_in(a) + exited_in(b),
        belled_in(a + b) == belled_in(a) + belled_in(b),
        titles_in(a + b) == titles_in(a) + titles_in(b),
        dirs_in(a + b) == dirs_in(a) + dirs_in(b),
    decreases b.len(),
{
    if b.len() == 0 {
        assert(a + b == a);
    } else {
        assert((a + b).drop_last() == a + b.drop_last());
        assert((a + b).last() == b.last());
        law_reports_add_up(a, b.drop_last());
    }
}

// ---- a text for each session -----------------------------------------------

/// The text that is kept for a session.
pub open spec fn kept(rows: Seq<(Seq<char>, Seq<char>)>, session: Seq<char>) -> Option<Seq<char>>
    decreases rows.len(),
{
    if rows.len() == 0 {
        None
    } else {
        match kept(rows.drop_last(), session) {
            Some(t) => Some(t),
            None => if rows.last().0 == session {
                Some(rows.last().1)
            } else {
                None
            },
        }
    }
}

/// No session has two texts.
pub open spec fn no_twins(rows: Seq<(Seq<char>, Seq<char>)>) -> bool {
    forall|i: int, j: int|
        0 <= i < j < rows.len() ==> (#[trigger] rows[i]).0 != (#[trigger] rows[j]).0
}

proof fn lemma_kept(rows: Seq<(Seq<char>, Seq<char>)>, session: Seq<char>)
    ensures
        match kept(rows, session) {
            Some(t) => exists|i: int| 0 <= i < rows.len() && #[trigger] rows[i] == (session, t),
            None => forall|i: int| 0 <= i < rows.len() ==> (#[trigger] rows[i]).0 != session,
        },
    decreases rows.len(),
{
    if rows.len() > 0 {
        let init = rows.drop_last();
        lemma_kept(init, session);
        assert(forall|i: int| 0 <= i < init.len() ==> init[i] == rows[i]);
        match kept(init, session) {
            Some(t) => {
                let i = choose|i: int| 0 <= i < init.len() && #[trigger] init[i] == (session, t);
                assert(rows[i] == (session, t));
            },
            None => {
                if rows.last().0 == session {
                    assert(rows[rows.len() - 1] == (session, rows.last().1));
                }
            },
        }
    }
}

proof fn lemma_kept_is(rows: Seq<(Seq<char>, Seq<char>)>, i: int)
    requires
        no_twins(rows),
        0 <= i < rows.len(),
    ensures
        kept(rows, rows[i].0) == Some(rows[i].1),
{
    lemma_kept(rows, rows[i].0);
    match kept(rows, rows[i].0) {
        Some(t) => {
            let j = choose|j: int| 0 <= j < rows.len() && #[trigger] rows[j] == (rows[i].0, t);
            assert(j == i);
        },
        None => {},
    }
}

proof fn lemma_kept_absent(rows: Seq<(Seq<char>, Seq<char>)>, session: Seq<char>)
    requires
        forall|i: int| 0 <= i < rows.len() ==> (#[trigger] rows[i]).0 != session,
    ensures
        kept(rows, session) is None,
{
    lemma_kept(rows, session);
}

/// A text for each of some sessions, such as the titles that they set.
#[derive(Debug, PartialEq, Eq)]
pub struct SessionTexts {
    pub rows: Vec<(SessionId, String)>,
}

impl SessionTexts {
    pub open spec fn wf(self) -> bool {
        no_twins(rows_of(self.rows@))
    }

    pub open spec fn spec_get(self, session: Seq<char>) -> Option<Seq<char>> {
        kept(rows_of(self.rows@), session)
    }

    pub fn new() -> (r: SessionTexts)
        ensures
            r.wf(),
            forall|s: Seq<char>| r.spec_get(s) is None,
    {
        let r = SessionTexts { rows: Vec::new() };
        assert(rows_of(r.rows@) == Seq::<(Seq<char>, Seq<char>)>::empty());
        r
    }

    fn place_of(&self, session: &SessionId) -> (r: Option<usize>)
        ensures
            match r {
                Some(i) => i < self.rows@.len() && self.rows@[i as int].0@ == session@,
                None => forall|j: int|
                    0 <= j < self.rows@.len() ==> (#[trigger] self.rows@[j]).0@ != session@,
            },
    {
        let mut i: usize = 0;
        while i < self.rows.len()
            invariant
                i <= self.rows@.len(),
                forall|j: int| 0 <= j < i ==> (#[trigger] self.rows@[j]).0@ != session@,
            decreases self.rows@.len() - i,
        {
            if self.rows[i].0.is(session) {
                return Some(i);
            }
            i += 1;
        }
        None
    }

    /// The text of a session.
    pub fn get(&self, session: &SessionId) -> (r: Option<&String>)
        requires
            self.wf(),
        ensures
            match r {
                Some(t) => self.spec_get(session@) == Some(t@),
                None => self.spec_get(session@) is None,
            },
    {
        match self.place_of(session) {
            Some(i) => {
                proof {
                    lemma_kept_is(rows_of(self.rows@), i as int);
                }
                Some(&self.rows[i].1)
            },
            None => {
                proof {
                    lemma_kept_absent(rows_of(self.rows@), session@);
                }
                None
            },
        }
    }

    /// Sets the text of a session, whether or not it had one.
    pub fn insert(&mut self, session: SessionId, text: String)
        requires
            old(self).wf(),
        ensures
            final(self).wf(),
            forall|s: Seq<char>|
                #![trigger final(self).spec_get(s)]
                final(self).spec_get(s) == (if s == session@ {
                    Some(text@)
                } else {
                    old(self).spec_get(s)
                }),
    {
        let ghost before = rows_of(self.rows@);
        let ghost key = session@;
        let ghost value = text@;
        match self.place_of(&session) {
            Some(i) => {
                self.rows.set(i, (session, text));
                let ghost after = rows_of(self.rows@);
                assert(after == before.update(i as int, (key, value)));
                assert(before[i as int].0 == key);
                assert(no_twins(after)) by {
                    assert forall|a: int, b: int| 0 <= a < b < after.len() implies (
                    #[trigger] after[a]).0 != (#[trigger] after[b]).0 by {
                        assert(after[a].0 == before[a].0 && after[b].0 == before[b].0);
                    }
                }
                assert forall|s: Seq<char>| kept(after, s) == (if s == key {
                    Some(value)
                } else {
                    kept(before, s)
                }) by {
                    lemma_kept(before, s);
                    lemma_kept(after, s);
                    if s == key {
                        lemma_kept_is(after, i as int);
                    } else if kept(before, s) is Some {
                        let j = choose|j: int|
                            0 <= j < before.len() && #[trigger] before[j] == (s, kept(before, s)->0);
                        assert(after[j] == before[j]);
                        lemma_kept_is(after, j);
                    } else {
                        assert forall|j: int| 0 <= j < after.len() implies (#[trigger] after[j]).0
                            != s by {
                            assert(j == i || after[j] == before[j]);
                        }
                        lemma_kept_absent(after, s);
                    }
                }
            },
            None => {
                self.rows.push((session, text));
                let ghost after = rows_of(self.rows@);
                assert(after == before.push((key, value)));
                assert(after.drop_last() == before);
                assert forall|j: int| 0 <= j < before.len() implies (#[trigger] before[j]).0
                    != key by {
                    assert(before[j] == after[j]);
                }
                assert forall|s: Seq<char>| kept(after, s) == (if s == key {
                    Some(value)
                } else {
                    kept(before, s)
                }) by {
                    lemma_kept_absent(before, key);
                }
            },
        }
    }

    /// Sets the texts of some sessions, one after another.
    pub fn insert_all(&mut self, rows: Vec<(SessionId, String)>)
        requires
            old(self).wf(),
        ensures
            final(self).wf(),
            forall|s: Seq<char>|
                #![trigger final(self).spec_get(s)]
                final(self).spec_get(s) == (match last_of(rows_of(rows@), s) {
                    Some(t) => Some(t),
                    None => old(self).spec_get(s),
                }),
    {
        let ghost start = *self;
        let mut i: usize = 0;
        while i < rows.len()
            invariant
                i <= rows@.len(),
                self.wf(),
                forall|s: Seq<char>|
                    #![trigger self.spec_get(s)]
                    self.spec_get(s) == (match last_of(rows_of(rows@).take(i as int), s) {
                        Some(t) => Some(t),
                        None => start.spec_get(s),
                    }),
            decreases rows@.len() - i,
        {
            assert(rows_of(rows@).take(i + 1).drop_last() == rows_of(rows@).take(i as int));
            assert(rows_of(rows@).take(i + 1).last() == (
                rows@[i as int].0@,
                rows@[i as int].1@,
            ));
            let session = rows[i].0.copy();
            let text = rows[i].1.clone();
            self.insert(session, text);
            i += 1;
        }
        assert(rows_of(rows@).take(i as int) == rows_of(rows@));
    }

    /// Keeps the texts of the sessions that are still there.
    pub fn retain_live(&mut self, live: &[SessionId])
        requires
            old(self).wf(),
        ensures
            final(self).wf(),
            forall|s: Seq<char>|
                #![trigger final(self).spec_get(s)]
                final(self).spec_get(s) == (if sessions_view(live@).contains(s) {
                    old(self).spec_get(s)
                } else {
                    None
                }),
    {
        let ghost before = rows_of(self.rows@);
        let mut out: Vec<(SessionId, String)> = Vec::new();
        let mut i: usize = 0;
        while i < self.rows.len()
            invariant
                i <= self.rows@.len(),
                before == rows_of(self.rows@),
                no_twins(before),
                no_twins(rows_of(out@)),
                forall|j: int|
                    0 <= j < out@.len() ==> exists|k: int|
                        0 <= k < i && #[trigger] before[k] == #[trigger] rows_of(out@)[j],
                forall|s: Seq<char>|
                    #![trigger kept(rows_of(out@), s)]
                    kept(rows_of(out@), s) == (if sessions_view(live@).contains(s) {
                        kept(before.take(i as int), s)
                    } else {
                        None
                    }),
            decreases self.rows@.len() - i,
        {
            let ghost prior = rows_of(out@);
            let ghost row = before[i as int];
            assert(row.0 == self.rows@[i as int].0@);
            assert(before.take(i + 1).drop_last() == before.take(i as int));
            assert(before.take(i + 1).last() == row);
            if is_live(live, &self.rows[i].0) {
                let session = self.rows[i].0.copy();
                let text = self.rows[i].1.clone();
                out.push((session, text));
                assert(rows_of(out@) == prior.push(row));
                assert(rows_of(out@).drop_last() == prior);
                assert forall|j: int| 0 <= j < out@.len() implies exists|k: int|
                    0 <= k < i + 1 && #[trigger] before[k] == #[trigger] rows_of(out@)[j] by {
                    if j < prior.len() {
                        assert(rows_of(out@)[j] == prior[j]);
                        let k = choose|k: int| 0 <= k < i && before[k] == prior[j];
                        assert(before[k] == rows_of(out@)[j]);
                    } else {
                        assert(before[i as int] == rows_of(out@)[j]);
                    }
                }
                assert(no_twins(rows_of(out@))) by {
                    assert forall|a: int, b: int| 0 <= a < b < rows_of(out@).len() implies (
                    #[trigger] rows_of(out@)[a]).0 != (#[trigger] rows_of(out@)[b]).0 by {
                        let ka = choose|k: int| 0 <= k < i + 1 && before[k] == rows_of(out@)[a];
                        if b < prior.len() {
                            assert(rows_of(out@)[a] == prior[a]);
                            assert(rows_of(out@)[b] == prior[b]);
                        } else {
                            assert(rows_of(out@)[a] == prior[a]);
                            let k = choose|k: int| 0 <= k < i && before[k] == prior[a];
                            assert(before[k].0 != before[i as int].0);
                        }
                    }
                }
            }
            assert forall|s: Seq<char>| #[trigger]
                kept(rows_of(out@), s) == (if sessions_view(live@).contains(s) {
                    kept(before.take(i + 1), s)
                } else {
                    None
                }) by {
                assert(kept(prior, s) == (if sessions_view(live@).contains(s) {
                    kept(before.take(i as int), s)
                } else {
                    None
                }));
            }
            i += 1;
        }
        assert(before.take(i as int) == before);
        self.rows = out;
    }
}

/// The text that comes last for a session.
pub open spec fn last_of(rows: Seq<(Seq<char>, Seq<char>)>, session: Seq<char>) -> Option<Seq<char>>
    decreases rows.len(),
{
    if rows.len() == 0 {
        None
    } else if rows.last().0 == session {
        Some(rows.last().1)
    } else {
        last_of(rows.drop_last(), session)
    }
}

/// Whether a session is among those that are there.
pub fn is_live(live: &[SessionId], session: &SessionId) -> (r: bool)
    ensures
        r == sessions_view(live@).contains(session@),
{
    let mut i: usize = 0;
    while i < live.len()
        invariant
            i <= live@.len(),
            forall|j: int| 0 <= j < i ==> sessions_view(live@)[j] != session@,
        decreases live@.len() - i,
    {
        if live[i].is(session) {
            assert(sessions_view(live@)[i as int] == session@);
            return true;
        }
        i += 1;
    }
    false
}

// ---- owners ----------------------------------------------------------------

/// The window that shows a session; the focused one where that is not known.
pub open spec fn owner(homes: Seq<(Seq<char>, WindowId)>, session: Seq<char>, focused: WindowId) -> WindowId
    decreases homes.len(),
{
    if homes.len() == 0 {
        focused
    } else if homes[0].0 == session {
        homes[0].1
    } else {
        owner(homes.skip(1), session, focused)
    }
}

pub open spec fn homes_view(v: Seq<(SessionId, WindowId)>) -> Seq<(Seq<char>, WindowId)> {
    v.map_values(|h: (SessionId, WindowId)| (h.0@, h.1))
}

/// The window that a report of a session goes to: the one that shows it, else the focused one.
pub fn window_of(homes: &[(SessionId, WindowId)], session: &SessionId, focused: WindowId) -> (r: WindowId)
    ensures
        r == owner(homes_view(homes@), session@, focused),
{
    let ghost all = homes_view(homes@);
    let mut i: usize = 0;
    assert(all.skip(0) == all);
    while i < homes.len()
        invariant
            i <= homes@.len(),
            all == homes_view(homes@),
            owner(all, session@, focused) == owner(all.skip(i as int), session@, focused),
        decreases homes@.len() - i,
    {
        assert(all.skip(i as int).skip(1) == all.skip(i + 1));
        if homes[i].0.is(session) {
            return homes[i].1;
        }
        i += 1;
    }
    focused
}

/// The actions with a close for each window that was emptied, but for the focused one.
pub open spec fn with_closes(v: Seq<DeferredWindowAction>, emptied: Seq<WindowId>, focused: WindowId) -> Seq<DeferredWindowAction>
    decreases emptied.len(),
{
    if emptied.len() == 0 {
        v
    } else {
        let before = with_closes(v, emptied.drop_last(), focused);
        if emptied.last() == focused {
            before
        } else {
            with_close_window(before, emptied.last())
        }
    }
}

/// Puts off closing the windows whose last shell has ended. The focused window is closed on its
/// own account.
pub fn queue_emptied(deferred: &mut Vec<DeferredWindowAction>, emptied: &[WindowId], focused: WindowId)
    ensures
        final(deferred)@ == with_closes(old(deferred)@, emptied@, focused),
{
    let mut i: usize = 0;
    let ghost start = deferred@;
    assert(emptied@.take(0) == Seq::<WindowId>::empty());
    while i < emptied.len()
        invariant
            i <= emptied@.len(),
            deferred@ == with_closes(start, emptied@.take(i as int), focused),
        decreases emptied@.len() - i,
    {
        assert(emptied@.take(i + 1).drop_last() == emptied@.take(i as int));
        assert(emptied@.take(i + 1).last() == emptied@[i as int]);
        if emptied[i] != focused {
            queue_close_window(deferred, emptied[i]);
        }
        i += 1;
    }
    assert(emptied@.take(i as int) == emptied@);
}

/// A window in the background whose last shell has ended is closed, whichever windows were
/// emptied besides it.
pub proof fn law_emptied_windows_close(v: Seq<DeferredWindowAction>, emptied: Seq<WindowId>, focused: WindowId, id: WindowId)
    requires
        emptied.contains(id),
        id != focused,
    ensures
        has_close_window(with_closes(v, emptied, focused), id),
    decreases emptied.len(),
{
    let before = with_closes(v, emptied.drop_last(), focused);
    let after = with_closes(v, emptied, focused);
    if emptied.last() == id {
        if !has_close_window(before, id) {
            assert(after == before.push(DeferredWindowAction::CloseWindow(id)));
            assert(after[before.len() as int] == DeferredWindowAction::CloseWindow(id));
        }
    } else {
        let k = choose|k: int| 0 <= k < emptied.len() && emptied[k] == id;
        assert(emptied.drop_last()[k] == id);
        assert(emptied.drop_last().contains(id));
        law_emptied_windows_close(v, emptied.drop_last(), focused, id);
        let j = choose|j: int|
            0 <= j < before.len() && #[trigger] before[j] == DeferredWindowAction::CloseWindow(id);
        assert(after[j] == before[j]);
    }
}

// ---- telling sessions of the focus -----------------------------------------

/// A change of the focus among sessions.
#[derive(Debug, PartialEq, Eq)]
pub struct FocusChange {
    pub lost: Option<SessionId>,
    pub gained: Option<SessionId>,
    /// The title that the window shows now.
    pub title: String,
}

pub open spec fn opt_id(s: Option<SessionId>) -> Option<Seq<char>> {
    match s {
        Some(t) => Some(t@),
        None => None,
    }
}

/// The title of a window: that of the focused session, or the name of the program.
pub open spec fn window_title(titles: SessionTexts, session: Option<Seq<char>>) -> Seq<char> {
    match session {
        Some(s) => match titles.spec_get(s) {
            Some(t) if t.len() > 0 => t,
            _ => "Ember"@,
        },
        None => "Ember"@,
    }
}

fn copy_id(s: &Option<SessionId>) -> (r: Option<SessionId>)
    ensures
        opt_id(r) == opt_id(*s),
{
    match s {
        Some(t) => Some(t.copy()),
        None => None,
    }
}

/// Notes which session has the focus now: none where the window has not got it. The result tells
/// what changed.
pub fn note_focus(notified: &mut Option<SessionId>, focused: Option<SessionId>, window_focused: bool, titles: &SessionTexts) -> (r: Option<FocusChange>)
    requires
        titles.wf(),
    ensures
        ({
            let now = if window_focused { opt_id(focused) } else { None };
            &&& opt_id(*final(notified)) == now
            &&& if now == opt_id(*old(notified)) {
                r is None
            } else {
                &&& r is Some
                &&& opt_id(r->0.lost) == opt_id(*old(notified))
                &&& opt_id(r->0.gained) == now
                &&& r->0.title@ == window_title(*titles, now)
            }
        }),
{
    let now = if window_focused {
        focused
    } else {
        None
    };
    let same = match (&now, &*notified) {
        (Some(a), Some(b)) => a.is(b),
        (None, None) => true,
        _ => false,
    };
    if same {
        return None;
    }
    let lost = notified.take();
    let gained = copy_id(&now);
    let title = match &now {
        Some(id) => match titles.get(id) {
            Some(t) => if t.as_str().is_empty() {
                "Ember".to_owned()
            } else {
                t.clone()
            },
            None => "Ember".to_owned(),
        },
        None => "Ember".to_owned(),
    };
    *notified = now;
    Some(FocusChange { lost, gained, title })
}

// ---- what is kept of reports -----------------------------------------------

/// Each report is taken for what it is and for the session that it came from, in order; the last
/// text for the clipboard and the last title of the session in focus count.
pub proof fn law_reports_are_taken_for_what_they_are(events: Seq<(SessionId, BackendEvent)>, s: SessionId, e: BackendEvent, focused: Option<Seq<char>>)
    ensures
        ({
            let all = events.push((s, e));
            &&& exited_in(all) == (if e is Exited {
                exited_in(events).push(s@)
            } else {
                exited_in(events)
            })
            &&& belled_in(all) == (if e is Bell {
                belled_in(events).push(s@)
            } else {
                belled_in(events)
            })
            &&& titles_in(all) == (match e {
                BackendEvent::Title(t) => titles_in(events).push((s@, t@)),
                _ => titles_in(events),
            })
            &&& dirs_in(all) == (match e {
                BackendEvent::CurrentDir(d) => dirs_in(events).push((s@, d@)),
                _ => dirs_in(events),
            })
            &&& clipboard_in(all) == (match e {
                BackendEvent::ClipboardSet(t) => Some(t@),
                _ => clipboard_in(events),
            })
            &&& e is Title && focused == Some(s@) ==> title_of_in(all, focused) == Some(e->Title_0@)
            &&& e !is Title || focused != Some(s@) ==> title_of_in(all, focused) == title_of_in(
                events,
                focused,
            )
        }),
        exited_in(Seq::empty()).len() == 0 && belled_in(Seq::empty()).len() == 0,
        titles_in(Seq::empty()).len() == 0 && dirs_in(Seq::empty()).len() == 0,
        clipboard_in(Seq::empty()) is None && title_of_in(Seq::empty(), focused) is None,
{
    assert(events.push((s, e)).drop_last() =~= events);
}

/// The text of a session is the one last written for it.
pub proof fn law_the_last_text_is_kept(texts: &mut SessionTexts, s: SessionId, t: String, other: Seq<char>)
    requires
        old(texts).wf(),
        call_ensures(SessionTexts::insert, (texts, s, t), ()),
    ensures
        final(texts).spec_get(s@) == Some(t@),
        other != s@ ==> final(texts).spec_get(other) == old(texts).spec_get(other),
{
}

/// Only the sessions that live keep their text.
pub proof fn law_only_the_living_are_kept(texts: &mut SessionTexts, live: &[SessionId], s: Seq<char>)
    requires
        old(texts).wf(),
        call_ensures(SessionTexts::retain_live, (texts, live), ()),
    ensures
        sessions_view(live@).contains(s) ==> final(texts).spec_get(s) == old(texts).spec_get(s),
        !sessions_view(live@).contains(s) ==> final(texts).spec_get(s) is None,
{
}

/// Rows are read by their session: of several the last counts in a report, and a row for another
/// session does not matter.
pub proof fn law_rows_are_read_by_session(rows: Seq<(Seq<char>, Seq<char>)>, s: Seq<char>, t: Seq<char>, other: Seq<char>)
    ensures
        last_of(rows.push((s, t)), s) == Some(t),
        other != s ==> last_of(rows.push((s, t)), other) == last_of(rows, other),
        last_of(Seq::empty(), s) is None,
        kept(rows, s) is None ==> kept(rows.push((s, t)), s) == Some(t),
        kept(rows, s) is Some ==> kept(rows.push((s, t)), s) == kept(rows, s),
        other != s ==> kept(rows.push((s, t)), other) == kept(rows, other),
        kept(Seq::empty(), s) is None,
{
    assert(rows.push((s, t)).drop_last() =~= rows);
}

/// A session belongs to the window that it lives in, and one that lives nowhere to the window in
/// focus.
pub proof fn law_sessions_belong_to_their_window(homes: Seq<(Seq<char>, WindowId)>, s: Seq<char>, w: WindowId, focused: WindowId, other: Seq<char>)
    ensures
        owner(seq![(s, w)] + homes, s, focused) == w,
        other != s ==> owner(seq![(s, w)] + homes, other, focused) == owner(homes, other, focused),
        owner(Seq::empty(), s, focused) == focused,
{
    assert((seq![(s, w)] + homes).skip(1) =~= homes);
}

/// The window in focus closes by itself; the others that were emptied are put off, once each.
pub proof fn law_emptied_windows_are_put_off(v: Seq<DeferredWindowAction>, emptied: Seq<WindowId>, id: WindowId, focused: WindowId)
    ensures
        id != focused ==> with_closes(v, emptied.push(id), focused) == with_close_window(
            with_closes(v, emptied, focused),
            id,
        ),
        with_closes(v, emptied.push(focused), focused) == with_closes(v, emptied, focused),
        with_closes(v, Seq::empty(), focused) == v,
{
    assert(emptied.push(id).drop_last() =~= emptied);
    assert(emptied.push(focused).drop_last() =~= emptied);
}

/// A window bears the title of its session, and the program's name where there is none.
pub proof fn law_windows_bear_the_title_of_their_session(titles: SessionTexts, s: Seq<char>, t: Seq<char>)
    ensures
        titles.spec_get(s) == Some(t) && t.len() > 0 ==> window_title(titles, Some(s)) == t,
        titles.spec_get(s) == Some(t) && t.len() == 0 ==> window_title(titles, Some(s)) == "Ember"@,
        titles.spec_get(s) is None ==> window_title(titles, Some(s)) == "Ember"@,
        window_title(titles, None) == "Ember"@,
{
}

/// A change of focus is told once: the session that lost it, and the one that has it now. A
/// window that is not in focus has no session in focus.
pub proof fn law_focus_changes_are_told_once(notified: &mut Option<SessionId>, focused: Option<SessionId>, window: bool, titles: SessionTexts, r: Option<FocusChange>)
    requires
        titles.wf(),
        call_ensures(note_focus, (notified, focused, window, &titles), r),
    ensures
        window ==> opt_id(*final(notified)) == opt_id(focused),
        !window ==> *final(notified) is None,
        r is None <==> opt_id(*final(notified)) == opt_id(*old(notified)),
        r matches Some(c) ==> opt_id(c.lost) == opt_id(*old(notified)) && opt_id(c.gained) == opt_id(
            *final(notified),
        ) && c.title@ == window_title(titles, opt_id(*final(notified))),
{
}

} // verus!
