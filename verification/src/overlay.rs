//! What lies over the panes: the cheat sheet, the about box, the settings, the command palette,
//! the search bar, and the question before something that runs is closed.

use vstd::prelude::*;
use crate::keys::{chord, help_lines, help_rows, parse_chord, rows_view, Key, KeyView, NamedKey};
use crate::layout::{PaneId, TabId, Axis};
use crate::text::{decimal, lowercase_of, opt_text, pop, push_decimal, to_chars, to_lowercase};
use crate::titles::{is_step, step_selectable_row, RowKind};

verus! {

broadcast use vstd::seq_lib::group_seq_properties;

// ---- fuzzy search ----------------------------------------------------------

/// The characters of `q` occur in `s` in order, with gaps allowed.
pub open spec fn is_subsequence(q: Seq<char>, s: Seq<char>) -> bool
    decreases s.len(),
{
    if q.len() == 0 {
        true
    } else if s.len() == 0 {
        false
    } else if q[0] == s[0] {
        is_subsequence(q.skip(1), s.skip(1))
    } else {
        is_subsequence(q, s.skip(1))
    }
}

/// `at` picks the characters of `q` out of `s`, from the left.
pub open spec fn picks(at: Seq<int>, q: Seq<char>, s: Seq<char>) -> bool {
    &&& at.len() == q.len()
    &&& forall|i: int| 0 <= i < at.len() ==> 0 <= #[trigger] at[i] < s.len() && s[at[i]] == q[i]
    &&& forall|i: int, j: int| 0 <= i < j < at.len() ==> #[trigger] at[i] < #[trigger] at[j]
}

/// A text is found exactly when its characters can be picked out from the left.
pub proof fn law_fuzzy_match_picks_characters(q: Seq<char>, s: Seq<char>)
    ensures
        is_subsequence(q, s) <==> exists|at: Seq<int>| picks(at, q, s),
{
    if is_subsequence(q, s) {
        lemma_picks_exist(q, s);
    }
    if exists|at: Seq<int>| picks(at, q, s) {
        let at = choose|at: Seq<int>| picks(at, q, s);
        lemma_picks_suffice(at, q, s);
    }
}

proof fn lemma_picks_exist(q: Seq<char>, s: Seq<char>)
    requires
        is_subsequence(q, s),
    ensures
        exists|at: Seq<int>| picks(at, q, s),
    decreases s.len(),
{
    if q.len() == 0 {
        assert(picks(Seq::<int>::empty(), q, s));
    } else if q[0] == s[0] {
        lemma_picks_exist(q.skip(1), s.skip(1));
        let rest = choose|at: Seq<int>| picks(at, q.skip(1), s.skip(1));
        let at = seq![0int] + rest.map_values(|i: int| i + 1);
        assert forall|i: int| 0 <= i < at.len() implies 0 <= #[trigger] at[i] < s.len() && s[at[i]]
            == q[i] by {
            if i > 0 {
                assert(at[i] == rest[i - 1] + 1);
                assert(s.skip(1)[rest[i - 1]] == q.skip(1)[i - 1]);
            }
        }
        assert forall|i: int, j: int| 0 <= i < j < at.len() implies #[trigger] at[i]
            < #[trigger] at[j] by {
            assert(at[j] == rest[j - 1] + 1);
            if i > 0 {
                assert(at[i] == rest[i - 1] + 1);
            }
        }
        assert(picks(at, q, s));
    } else {
        lemma_picks_exist(q, s.skip(1));
        let rest = choose|at: Seq<int>| picks(at, q, s.skip(1));
        let at = rest.map_values(|i: int| i + 1);
        assert forall|i: int| 0 <= i < at.len() implies 0 <= #[trigger] at[i] < s.len() && s[at[i]]
            == q[i] by {
            assert(at[i] == rest[i] + 1);
            assert(s.skip(1)[rest[i]] == q[i]);
        }
        assert forall|i: int, j: int| 0 <= i < j < at.len() implies #[trigger] at[i]
            < #[trigger] at[j] by {
            assert(at[i] == rest[i] + 1 && at[j] == rest[j] + 1);
        }
        assert(picks(at, q, s));
    }
}

proof fn lemma_picks_suffice(at: Seq<int>, q: Seq<char>, s: Seq<char>)
    requires
        picks(at, q, s),
    ensures
        is_subsequence(q, s),
    decreases s.len(),
{
    if q.len() > 0 {
        assert(0 <= at[0] < s.len());
        if q[0] == s[0] {
            let rest = at.skip(1).map_values(|i: int| i - 1);
            assert forall|i: int| 0 <= i < rest.len() implies 0 <= #[trigger] rest[i] < s.skip(
                1,
            ).len() && s.skip(1)[rest[i]] == q.skip(1)[i] by {
                assert(rest[i] == at[i + 1] - 1);
                assert(at[0] < at[i + 1]);
            }
            assert forall|i: int, j: int| 0 <= i < j < rest.len() implies #[trigger] rest[i]
                < #[trigger] rest[j] by {
                assert(rest[i] == at[i + 1] - 1 && rest[j] == at[j + 1] - 1);
            }
            assert(picks(rest, q.skip(1), s.skip(1)));
            lemma_picks_suffice(rest, q.skip(1), s.skip(1));
        } else {
            let rest = at.map_values(|i: int| i - 1);
            assert(at[0] != 0);
            assert forall|i: int| 0 <= i < rest.len() implies 0 <= #[trigger] rest[i] < s.skip(
                1,
            ).len() && s.skip(1)[rest[i]] == q[i] by {
                assert(rest[i] == at[i] - 1);
                if i > 0 {
                    assert(at[0] < at[i]);
                }
            }
            assert forall|i: int, j: int| 0 <= i < j < rest.len() implies #[trigger] rest[i]
                < #[trigger] rest[j] by {
                assert(rest[i] == at[i] - 1 && rest[j] == at[j] - 1);
            }
            assert(picks(rest, q, s.skip(1)));
            lemma_picks_suffice(rest, q, s.skip(1));
        }
    }
}

fn subsequence(q: &[char], s: &[char]) -> (r: bool)
    ensures
        r == is_subsequence(q@, s@),
{
    let mut i: usize = 0;
    let mut j: usize = 0;
    assert(q@.skip(0) == q@ && s@.skip(0) == s@);
    while i < q.len() && j < s.len()
        invariant
            i <= q@.len(),
            j <= s@.len(),
            is_subsequence(q@, s@) == is_subsequence(q@.skip(i as int), s@.skip(j as int)),
        decreases s@.len() - j,
    {
        assert(s@.skip(j as int).skip(1) == s@.skip(j + 1));
        assert(q@.skip(i as int).skip(1) == q@.skip(i + 1));
        if q[i] == s[j] {
            i += 1;
        }
        j += 1;
    }
    i == q.len()
}

// ---- the rows of the palette -----------------------------------------------

/// Whether a row of the cheat sheet is offered: it has a chord, and the query is found in its
/// text or its keys, whatever the case.
pub open spec fn is_offered(row: (Seq<char>, Seq<char>), query: Seq<char>) -> bool {
    let q = lowercase_of(query);
    &&& row.0.len() > 0
    &&& chord(lowercase_of(row.0)) is Some
    &&& (is_subsequence(q, lowercase_of(row.1)) || is_subsequence(q, lowercase_of(row.0)))
}

/// The rows that are offered, each with its text before its keys.
pub open spec fn offered(rows: Seq<(Seq<char>, Seq<char>)>, query: Seq<char>) -> Seq<(Seq<char>, Seq<char>)>
    decreases rows.len(),
{
    if rows.len() == 0 {
        Seq::<(Seq<char>, Seq<char>)>::empty()
    } else {
        let before = offered(rows.drop_last(), query);
        let row = rows.last();
        if is_offered(row, query) {
            before.push((row.1, row.0))
        } else {
            before
        }
    }
}

/// The commands that the palette offers for a query, each with its keys.
pub fn palette_rows(query: &str, mac: bool) -> (r: Vec<(String, String)>)
    ensures
        rows_view(r@) == offered(help_rows(mac), query@),
{
    let q = to_lowercase(query);
    let q_chars = to_chars(q.as_str());
    let lines = help_lines(mac);
    let ghost all = help_rows(mac);
    let mut out: Vec<(String, String)> = Vec::new();
    assert(rows_view(out@) == Seq::<(Seq<char>, Seq<char>)>::empty());
    let mut i: usize = 0;
    while i < lines.len()
        invariant
            i <= lines@.len(),
            all == rows_view(lines@),
            q_chars@ == lowercase_of(query@),
            rows_view(out@) == offered(all.take(i as int), query@),
        decreases lines@.len() - i,
    {
        assert(all.take(i + 1).drop_last() == all.take(i as int));
        assert(all.take(i + 1).last() == (lines@[i as int].0@, lines@[i as int].1@));
        let keys = lines[i].0.as_str();
        let about = lines[i].1.as_str();
        let keys_lower = to_lowercase(keys);
        let ghost before = out@;
        if !keys.is_empty() && parse_chord(keys_lower.as_str()).is_some() {
            let about_lower = to_lowercase(about);
            let about_chars = to_chars(about_lower.as_str());
            let keys_chars = to_chars(keys_lower.as_str());
            if subsequence(q_chars.as_slice(), about_chars.as_slice()) || subsequence(
                q_chars.as_slice(),
                keys_chars.as_slice(),
            ) {
                out.push((about.to_owned(), keys.to_owned()));
                assert(rows_view(out@) == rows_view(before).push((about@, keys@)));
            }
        }
        i += 1;
    }
    assert(all.take(i as int) == all);
    out
}

// ---- the overlays ----------------------------------------------------------

/// Something to close that may hold a running command.
#[derive(Clone, Copy, Debug, PartialEq, Eq, Structural)]
pub enum PendingClose {
    /// The focused pane.
    Pane,
    Tab(TabId),
    /// The whole program.
    Quit,
    CloseWindow,
}

/// The overlays of a window.
#[derive(Debug, PartialEq, Eq)]
pub struct Overlays {
    pub help: bool,
    pub about: bool,
    pub settings_open: bool,
    pub settings_sel: usize,
    pub palette_open: bool,
    pub palette_query: String,
    pub palette_sel: usize,
    pub search_open: bool,
    pub search_query: String,
    /// Which match is shown, of how many.
    pub search_count: Option<(u64, u64)>,
    pub pending_close: Option<PendingClose>,
    /// The button that has the focus in the question: 0 refuses, 1 closes.
    pub confirm_focus: u8,
}

/// What the overlays show.
#[verifier::ext_equal]
pub struct OverlaysView {
    pub help: bool,
    pub about: bool,
    pub settings_open: bool,
    pub settings_sel: usize,
    pub palette_open: bool,
    pub palette_query: Seq<char>,
    pub palette_sel: usize,
    pub search_open: bool,
    pub search_query: Seq<char>,
    pub search_count: Option<(u64, u64)>,
    pub pending_close: Option<PendingClose>,
    pub confirm_focus: u8,
}

impl OverlaysView {
    /// At most one of the cheat sheet, the about box and the settings is open, and at most one of
    /// the palette and the search bar.
    pub open spec fn exclusive(self) -> bool {
        &&& !(self.palette_open && self.search_open)
        &&& !(self.help && self.about)
        &&& !(self.help && self.settings_open)
        &&& !(self.about && self.settings_open)
    }

    pub open spec fn dismissed(self) -> OverlaysView {
        OverlaysView { help: false, about: false, settings_open: false, ..self }
    }

    pub open spec fn with_help(self) -> OverlaysView {
        OverlaysView { help: true, ..self.dismissed() }
    }

    pub open spec fn with_about(self) -> OverlaysView {
        OverlaysView { about: true, ..self.dismissed() }
    }

    pub open spec fn with_settings(self, rows: Seq<RowKind>) -> OverlaysView {
        OverlaysView {
            settings_open: true,
            settings_sel: selectable(rows, self.settings_sel as int) as usize,
            ..self.dismissed()
        }
    }

    pub open spec fn search_closed(self) -> OverlaysView {
        OverlaysView {
            search_open: false,
            search_query: Seq::<char>::empty(),
            search_count: None,
            ..self
        }
    }

    pub open spec fn with_palette(self) -> OverlaysView {
        OverlaysView {
            palette_open: true,
            palette_query: Seq::<char>::empty(),
            palette_sel: 0,
            ..self.search_closed()
        }
    }

    pub open spec fn with_search(self) -> OverlaysView {
        OverlaysView { palette_open: false, search_open: true, ..self }
    }

    pub open spec fn asking(self, kind: PendingClose) -> OverlaysView {
        OverlaysView { pending_close: Some(kind), confirm_focus: 0, ..self.dismissed() }
    }
}

/// The first row that can be chosen.
pub open spec fn first_setting(rows: Seq<RowKind>) -> Option<int>
    decreases rows.len(),
{
    if rows.len() == 0 {
        None
    } else {
        match first_setting(rows.drop_last()) {
            Some(i) => Some(i),
            None => if rows.last() != RowKind::SectionHeader {
                Some(rows.len() - 1)
            } else {
                None
            },
        }
    }
}

/// The chosen row, or the first that can be chosen where that one cannot, or the first of all.
pub open spec fn selectable(rows: Seq<RowKind>, sel: int) -> int {
    if 0 <= sel < rows.len() && rows[sel] != RowKind::SectionHeader {
        sel
    } else {
        match first_setting(rows) {
            Some(i) => i,
            None => 0,
        }
    }
}

/// Whatever opens, what was exclusive stays so: a key always has one place to go.
pub proof fn law_overlays_stay_exclusive(v: OverlaysView, rows: Seq<RowKind>, kind: PendingClose)
    requires
        v.exclusive(),
    ensures
        v.dismissed().exclusive(),
        v.with_help().exclusive(),
        v.with_about().exclusive(),
        v.with_settings(rows).exclusive(),
        v.with_palette().exclusive(),
        v.search_closed().exclusive(),
        v.with_search().exclusive(),
        v.asking(kind).exclusive(),
{
}

proof fn lemma_first_setting(rows: Seq<RowKind>)
    ensures
        match first_setting(rows) {
            Some(i) => 0 <= i < rows.len() && rows[i] != RowKind::SectionHeader && forall|j: int|
                0 <= j < i ==> rows[j] == RowKind::SectionHeader,
            None => forall|j: int| 0 <= j < rows.len() ==> rows[j] == RowKind::SectionHeader,
        },
    decreases rows.len(),
{
    if rows.len() > 0 {
        let init = rows.drop_last();
        lemma_first_setting(init);
        assert(forall|j: int| 0 <= j < init.len() ==> init[j] == rows[j]);
    }
}

/// Where there is a row that can be chosen, a row that can be chosen is chosen when the settings
/// open.
pub proof fn law_open_settings_choose_a_setting(v: OverlaysView, rows: Seq<RowKind>, i: int)
    requires
        0 <= i < rows.len() <= usize::MAX,
        rows[i] != RowKind::SectionHeader,
    ensures
        v.with_settings(rows).settings_sel < rows.len(),
        rows[v.with_settings(rows).settings_sel as int] != RowKind::SectionHeader,
{
    lemma_first_setting(rows);
}

impl Overlays {
    pub open spec fn view(&self) -> OverlaysView {
        OverlaysView {
            help: self.help,
            about: self.about,
            settings_open: self.settings_open,
            settings_sel: self.settings_sel,
            palette_open: self.palette_open,
            palette_query: self.palette_query@,
            palette_sel: self.palette_sel,
            search_open: self.search_open,
            search_query: self.search_query@,
            search_count: self.search_count,
            pending_close: self.pending_close,
            confirm_focus: self.confirm_focus,
        }
    }

    /// Nothing is open.
    pub fn new() -> (r: Overlays)
        ensures
            r@ == (OverlaysView {
                help: false,
                about: false,
                settings_open: false,
                settings_sel: 0,
                palette_open: false,
                palette_query: Seq::<char>::empty(),
                palette_sel: 0,
                search_open: false,
                search_query: Seq::<char>::empty(),
                search_count: None,
                pending_close: None,
                confirm_focus: 0,
            }),
            r@.exclusive(),
    {
        Overlays {
            help: false,
            about: false,
            settings_open: false,
            settings_sel: 0,
            palette_open: false,
            palette_query: String::new(),
            palette_sel: 0,
            search_open: false,
            search_query: String::new(),
            search_count: None,
            pending_close: None,
            confirm_focus: 0,
        }
    }

    /// Closes the cheat sheet, the about box and the settings. The result tells that one was open.
    pub fn dismiss_overlay(&mut self) -> (r: bool)
        ensures
            final(self)@ == old(self)@.dismissed(),
            r == (old(self).help || old(self).about || old(self).settings_open),
    {
        let shown = self.help || self.about || self.settings_open;
        self.help = false;
        self.about = false;
        self.settings_open = false;
        shown
    }

    pub fn show_help(&mut self)
        ensures
            final(self)@ == old(self)@.with_help(),
    {
        self.dismiss_overlay();
        self.help = true;
    }

    pub fn toggle_help(&mut self)
        ensures
            final(self)@ == (if old(self).help {
                (OverlaysView { help: false, ..old(self)@ })
            } else {
                old(self)@.with_help()
            }),
    {
        if self.help {
            self.help = false;
        } else {
            self.show_help();
        }
    }

    pub fn show_about(&mut self)
        ensures
            final(self)@ == old(self)@.with_about(),
    {
        self.dismiss_overlay();
        self.about = true;
    }

    pub fn toggle_about(&mut self)
        ensures
            final(self)@ == (if old(self).about {
                (OverlaysView { about: false, ..old(self)@ })
            } else {
                old(self)@.with_about()
            }),
    {
        if self.about {
            self.about = false;
        } else {
            self.show_about();
        }
    }

    /// Chooses a row that can be chosen, where the chosen one cannot.
    pub fn ensure_settings_sel_selectable(&mut self, rows: &[RowKind])
        ensures
            final(self)@ == (OverlaysView {
                settings_sel: selectable(rows@, old(self).settings_sel as int) as usize,
                ..old(self)@
            }),
    {
        let valid = self.settings_sel < rows.len() && rows[self.settings_sel]
            != RowKind::SectionHeader;
        if !valid {
            let mut i: usize = 0;
            while i < rows.len() && rows[i] == RowKind::SectionHeader
                invariant
                    i <= rows@.len(),
                    forall|j: int| 0 <= j < i ==> rows@[j] == RowKind::SectionHeader,
                decreases rows@.len() - i,
            {
                i += 1;
            }
            proof {
                lemma_first_setting(rows@);
            }
            self.settings_sel = if i < rows.len() {
                i
            } else {
                0
            };
        }
    }

    pub fn show_settings(&mut self, rows: &[RowKind])
        ensures
            final(self)@ == old(self)@.with_settings(rows@),
    {
        self.dismiss_overlay();
        self.settings_open = true;
        self.ensure_settings_sel_selectable(rows);
    }

    pub fn toggle_settings(&mut self, rows: &[RowKind])
        ensures
            final(self)@ == (if old(self).settings_open {
                (OverlaysView { settings_open: false, ..old(self)@ })
            } else {
                old(self)@.with_settings(rows@)
            }),
    {
        if self.settings_open {
            self.settings_open = false;
        } else {
            self.show_settings(rows);
        }
    }

    /// Closes the search bar and forgets the query.
    pub fn close_search(&mut self)
        ensures
            final(self)@ == old(self)@.search_closed(),
    {
        self.search_open = false;
        self.search_query = String::new();
        self.search_count = None;
    }

    pub fn close_palette(&mut self)
        ensures
            final(self)@ == (OverlaysView { palette_open: false, ..old(self)@ }),
    {
        self.palette_open = false;
    }

    /// Opens the palette, empty, in place of the search bar.
    pub fn open_palette(&mut self)
        ensures
            final(self)@ == old(self)@.with_palette(),
    {
        self.close_search();
        self.palette_open = true;
        self.palette_query = String::new();
        self.palette_sel = 0;
    }

    /// Opens the search bar in place of the palette.
    pub fn open_search(&mut self)
        ensures
            final(self)@ == old(self)@.with_search(),
    {
        self.close_palette();
        self.search_open = true;
    }
}

// ---- keys in the palette ---------------------------------------------------

/// The last row, or the first where there is none.
pub open spec fn last_row(n: nat) -> int {
    if n == 0 {
        0
    } else {
        n - 1
    }
}

pub open spec fn lesser(a: int, b: int) -> int {
    if a < b {
        a
    } else {
        b
    }
}

/// The query without its last character.
pub open spec fn shortened(s: Seq<char>) -> Seq<char> {
    if s.len() == 0 {
        s
    } else {
        s.drop_last()
    }
}

/// The palette after a key, and the chord that was picked.
pub open spec fn palette_after(v: OverlaysView, key: KeyView, mac: bool) -> (OverlaysView, Option<Seq<char>>) {
    let closed = OverlaysView { palette_open: false, ..v };
    let rows = offered(help_rows(mac), v.palette_query);
    match key {
        KeyView::Named(NamedKey::Escape) => (closed, None),
        KeyView::Named(NamedKey::ArrowDown) => (
            OverlaysView {
                palette_sel: lesser(v.palette_sel + 1, last_row(rows.len())) as usize,
                ..v
            },
            None,
        ),
        KeyView::Named(NamedKey::ArrowUp) => (
            OverlaysView {
                palette_sel: lesser(
                    if v.palette_sel == 0 { 0 } else { v.palette_sel - 1 },
                    last_row(rows.len()),
                ) as usize,
                ..v
            },
            None,
        ),
        KeyView::Named(NamedKey::Enter) => (
            closed,
            if v.palette_sel < rows.len() {
                Some(lowercase_of(rows[v.palette_sel as int].1))
            } else {
                None
            },
        ),
        KeyView::Named(NamedKey::Backspace) => (
            OverlaysView { palette_query: shortened(v.palette_query), palette_sel: 0, ..v },
            None,
        ),
        KeyView::Named(NamedKey::Space) => (
            OverlaysView { palette_query: v.palette_query.push(' '), palette_sel: 0, ..v },
            None,
        ),
        KeyView::Character(s) => (
            OverlaysView { palette_query: v.palette_query + s, palette_sel: 0, ..v },
            None,
        ),
        _ => (v, None),
    }
}

impl Overlays {
    fn clamp_palette(&mut self, mac: bool)
        ensures
            final(self)@ == (OverlaysView {
                palette_sel: lesser(
                    old(self).palette_sel as int,
                    last_row(offered(help_rows(mac), old(self).palette_query@).len()),
                ) as usize,
                ..old(self)@
            }),
    {
        let rows = palette_rows(self.palette_query.as_str(), mac);
        assert(rows@.len() == rows_view(rows@).len());
        let last: usize = if rows.len() == 0 {
            0
        } else {
            rows.len() - 1
        };
        if last < self.palette_sel {
            self.palette_sel = last;
        }
    }

    /// A key that goes to the palette. The result is the chord of the command that was picked.
    pub fn palette_key(&mut self, key: &Key, mac: bool) -> (r: Option<String>)
        requires
            old(self).palette_sel < usize::MAX,
        ensures
            final(self)@ == palette_after(old(self)@, key@, mac).0,
            opt_text(r) == palette_after(old(self)@, key@, mac).1,
    {
        match key {
            Key::Named(NamedKey::Escape) => {
                self.close_palette();
            },
            Key::Named(NamedKey::ArrowDown) => {
                self.palette_sel = self.palette_sel + 1;
                self.clamp_palette(mac);
            },
            Key::Named(NamedKey::ArrowUp) => {
                self.palette_sel = if self.palette_sel == 0 {
                    0
                } else {
                    self.palette_sel - 1
                };
                self.clamp_palette(mac);
            },
            Key::Named(NamedKey::Enter) => {
                let rows = palette_rows(self.palette_query.as_str(), mac);
                assert(rows@.len() == rows_view(rows@).len());
                self.close_palette();
                if self.palette_sel < rows.len() {
                    assert(rows_view(rows@)[self.palette_sel as int].1
                        == rows@[self.palette_sel as int].1@);
                    return Some(to_lowercase(rows[self.palette_sel].1.as_str()));
                }
            },
            Key::Named(NamedKey::Backspace) => {
                pop(&mut self.palette_query);
                self.palette_sel = 0;
            },
            Key::Named(NamedKey::Space) => {
                self.palette_query.push(' ');
                self.palette_sel = 0;
            },
            Key::Character(s) => {
                self.palette_query.append(s.as_str());
                self.palette_sel = 0;
            },
            _ => {},
        }
        None
    }
}

// ---- keys in the search bar ------------------------------------------------

/// A search that is asked for.
#[derive(Debug, PartialEq, Eq)]
pub struct SearchRequest {
    pub pattern: String,
    pub forward: bool,
}

/// The search bar after a key, and the direction of the search that is asked for.
pub open spec fn search_after(v: OverlaysView, key: KeyView, shift: bool) -> (OverlaysView, Option<bool>) {
    match key {
        KeyView::Named(NamedKey::Escape) => (v.search_closed(), None),
        KeyView::Named(NamedKey::Enter) => (v, Some(!shift)),
        KeyView::Named(NamedKey::Backspace) => (
            OverlaysView { search_query: shortened(v.search_query), search_count: None, ..v },
            Some(true),
        ),
        KeyView::Named(NamedKey::Space) => (
            OverlaysView { search_query: v.search_query.push(' '), search_count: None, ..v },
            Some(true),
        ),
        KeyView::Character(s) => (
            OverlaysView { search_query: v.search_query + s, search_count: None, ..v },
            Some(true),
        ),
        _ => (v, None),
    }
}

/// A search is asked for in that direction with what the bar holds; never for an empty text.
pub open spec fn asks(r: Option<SearchRequest>, query: Seq<char>, forward: Option<bool>) -> bool {
    match forward {
        Some(f) if query.len() > 0 => r matches Some(q) && q.pattern@ == query && q.forward == f,
        _ => r is None,
    }
}

impl Overlays {
    /// A search for what the bar holds.
    pub fn submit_search(&self, forward: bool) -> (r: Option<SearchRequest>)
        ensures
            asks(r, self.search_query@, Some(forward)),
    {
        if self.search_query.as_str().is_empty() {
            return None;
        }
        Some(SearchRequest { pattern: self.search_query.clone(), forward })
    }

    /// A key that goes to the search bar. The result is the search that it asks for.
    pub fn search_key(&mut self, key: &Key, shift: bool) -> (r: Option<SearchRequest>)
        ensures
            final(self)@ == search_after(old(self)@, key@, shift).0,
            asks(r, final(self).search_query@, search_after(old(self)@, key@, shift).1),
    {
        match key {
            Key::Named(NamedKey::Escape) => {
                self.close_search();
                None
            },
            Key::Named(NamedKey::Enter) => self.submit_search(!shift),
            Key::Named(NamedKey::Backspace) => {
                pop(&mut self.search_query);
                self.search_count = None;
                self.submit_search(true)
            },
            Key::Named(NamedKey::Space) => {
                self.search_query.push(' ');
                self.search_count = None;
                self.submit_search(true)
            },
            Key::Character(s) => {
                self.search_query.append(s.as_str());
                self.search_count = None;
                self.submit_search(true)
            },
            _ => None,
        }
    }

    /// Notes the answer to a search: which match is shown, of how many. While the bar is closed
    /// the answer is too late.
    pub fn on_search_result(&mut self, hit: Option<(u64, u64)>)
        ensures
            final(self)@ == (if old(self).search_open {
                (OverlaysView {
                    search_count: match hit {
                        Some(c) => Some(c),
                        None => if old(self).search_query@.len() > 0 {
                            Some((0, 0))
                        } else {
                            None
                        },
                    },
                    ..old(self)@
                })
            } else {
                old(self)@
            }),
    {
        if self.search_open {
            self.search_count = match hit {
                Some(c) => Some(c),
                None => if self.search_query.as_str().is_empty() {
                    None
                } else {
                    Some((0, 0))
                },
            };
        }
    }
}

/// The line of the search bar.
pub open spec fn search_text(query: Seq<char>, count: Option<(u64, u64)>) -> Seq<char> {
    if query.len() == 0 {
        "find: type to search"@
    } else {
        "find: "@ + query + "\u{2038}"@ + (match count {
            Some((i, n)) => if n == 0 {
                "  no matches"@
            } else {
                "  "@ + decimal(i as nat) + "/"@ + decimal(n as nat)
            },
            None => Seq::<char>::empty(),
        })
    }
}

impl Overlays {
    /// The line of the search bar, while it is open.
    pub fn search_line(&self) -> (r: Option<String>)
        ensures
            opt_text(r) == (if self.search_open {
                Some(search_text(self.search_query@, self.search_count))
            } else {
                None
            }),
    {
        if !self.search_open {
            return None;
        }
        if self.search_query.as_str().is_empty() {
            return Some("find: type to search".to_owned());
        }
        let mut line = "find: ".to_owned();
        line.append(self.search_query.as_str());
        line.append("\u{2038}");
        match self.search_count {
            Some((i, n)) => {
                if n == 0 {
                    line.append("  no matches");
                } else {
                    line.append("  ");
                    push_decimal(&mut line, i);
                    line.append("/");
                    push_decimal(&mut line, n);
                    assert(line@ == "find: "@ + self.search_query@ + "\u{2038}"@ + ("  "@ + decimal(
                        i as nat,
                    ) + "/"@ + decimal(n as nat)));
                }
            },
            None => {},
        }
        assert(line@ == search_text(self.search_query@, self.search_count));
        Some(line)
    }
}

// ---- keys in the settings --------------------------------------------------

/// What a key does in the settings.
#[derive(Clone, Copy, Debug, PartialEq, Eq, Structural)]
pub enum SettingsStep {
    /// The settings are closed.
    Closed,
    /// The rows are shown anew.
    Refresh,
    /// The chosen setting goes up or down.
    Adjust { up: bool },
}

impl Overlays {
    /// A key that goes to the settings.
    pub fn settings_key(&mut self, rows: &[RowKind], key: &Key) -> (r: SettingsStep)
        requires
            old(self).settings_sel < usize::MAX,
        ensures
            match key@ {
                KeyView::Named(NamedKey::Escape) => {
                    &&& r == SettingsStep::Closed
                    &&& final(self)@ == (OverlaysView { settings_open: false, ..old(self)@ })
                },
                KeyView::Named(NamedKey::ArrowUp) => {
                    &&& r == SettingsStep::Refresh
                    &&& is_step(
                        rows@,
                        old(self).settings_sel as int,
                        -1,
                        final(self).settings_sel as int,
                    )
                    &&& final(self)@ == (OverlaysView {
                        settings_sel: final(self).settings_sel,
                        ..old(self)@
                    })
                },
                KeyView::Named(NamedKey::ArrowDown) => {
                    &&& r == SettingsStep::Refresh
                    &&& is_step(
                        rows@,
                        old(self).settings_sel as int,
                        1,
                        final(self).settings_sel as int,
                    )
                    &&& final(self)@ == (OverlaysView {
                        settings_sel: final(self).settings_sel,
                        ..old(self)@
                    })
                },
                KeyView::Named(NamedKey::ArrowRight) | KeyView::Named(NamedKey::Space) => {
                    &&& r == (SettingsStep::Adjust { up: true })
                    &&& final(self)@ == old(self)@
                },
                KeyView::Named(NamedKey::ArrowLeft) => {
                    &&& r == (SettingsStep::Adjust { up: false })
                    &&& final(self)@ == old(self)@
                },
                _ => r == SettingsStep::Refresh && final(self)@ == old(self)@,
            },
    {
        match key {
            Key::Named(NamedKey::Escape) => {
                self.settings_open = false;
                SettingsStep::Closed
            },
            Key::Named(NamedKey::ArrowUp) => {
                self.settings_sel = step_selectable_row(rows, self.settings_sel, false);
                SettingsStep::Refresh
            },
            Key::Named(NamedKey::ArrowDown) => {
                self.settings_sel = step_selectable_row(rows, self.settings_sel, true);
                SettingsStep::Refresh
            },
            Key::Named(NamedKey::ArrowRight) => SettingsStep::Adjust { up: true },
            Key::Named(NamedKey::Space) => SettingsStep::Adjust { up: true },
            Key::Named(NamedKey::ArrowLeft) => SettingsStep::Adjust { up: false },
            _ => SettingsStep::Refresh,
        }
    }
}

// ---- the question before closing -------------------------------------------

/// What becomes of a wish to close something.
#[derive(Clone, Copy, Debug, PartialEq, Eq, Structural)]
pub enum CloseStep {
    /// A command is running there: the user is asked.
    Ask,
    /// It is closed now.
    Close(PendingClose),
}

impl Overlays {
    /// Asks before something is closed; refusing has the focus.
    pub fn show_close_confirm(&mut self, kind: PendingClose)
        ensures
            final(self)@ == old(self)@.asking(kind),
    {
        self.dismiss_overlay();
        self.pending_close = Some(kind);
        self.confirm_focus = 0;
    }

    /// Closes something, or asks first where a command is `running` there.
    pub fn request_close(&mut self, kind: PendingClose, running: bool) -> (r: CloseStep)
        ensures
            r == (if running { CloseStep::Ask } else { CloseStep::Close(kind) }),
            final(self)@ == (if running { old(self)@.asking(kind) } else { old(self)@ }),
    {
        if running {
            self.show_close_confirm(kind);
            return CloseStep::Ask;
        }
        CloseStep::Close(kind)
    }

    /// Answers the question. The result is what is closed.
    pub fn resolve_confirm(&mut self, confirm: bool) -> (r: Option<PendingClose>)
        ensures
            final(self)@ == (OverlaysView { pending_close: None, ..old(self)@ }),
            r == (if confirm { old(self).pending_close } else { None }),
    {
        let kind = self.pending_close;
        self.pending_close = None;
        if confirm {
            kind
        } else {
            None
        }
    }

    /// Moves the focus to the other button of the question.
    pub fn move_confirm_focus(&mut self)
        requires
            old(self).confirm_focus <= 1,
        ensures
            final(self)@ == (OverlaysView {
                confirm_focus: (1 - old(self).confirm_focus) as u8,
                ..old(self)@
            }),
    {
        self.confirm_focus = 1 - self.confirm_focus;
    }

    /// The question and the label of the button that closes.
    pub fn confirm_view(&self) -> (r: Option<(&'static str, &'static str)>)
        ensures
            match r {
                Some((title, label)) => self.pending_close matches Some(kind) && title@
                    == question_title(kind) && label@ == question_label(kind),
                None => self.pending_close is None,
            },
    {
        match self.pending_close {
            Some(PendingClose::Pane) => Some(("Close this pane?", "Close")),
            Some(PendingClose::Tab(_)) => Some(("Close this tab?", "Close")),
            Some(PendingClose::Quit) => Some(("Quit Ember?", "Quit")),
            Some(PendingClose::CloseWindow) => Some(("Close this window?", "Close")),
            None => None,
        }
    }
}

pub open spec fn question_title(kind: PendingClose) -> Seq<char> {
    match kind {
        PendingClose::Pane => "Close this pane?"@,
        PendingClose::Tab(_) => "Close this tab?"@,
        PendingClose::Quit => "Quit Ember?"@,
        PendingClose::CloseWindow => "Close this window?"@,
    }
}

pub open spec fn question_label(kind: PendingClose) -> Seq<char> {
    match kind {
        PendingClose::Quit => "Quit"@,
        _ => "Close"@,
    }
}

/// Nothing that runs is closed without being asked about: whatever is closed was either idle, or
/// was asked about and agreed to.
pub proof fn law_running_commands_are_asked_about(v: OverlaysView, kind: PendingClose)
    ensures
        v.asking(kind).pending_close == Some(kind),
        v.asking(kind).confirm_focus == 0,
        !v.asking(kind).help && !v.asking(kind).about && !v.asking(kind).settings_open,
{
}

// ---- the start of a click --------------------------------------------------

/// A split that a click would make.
#[derive(Clone, Copy, Debug, PartialEq, Eq, Structural)]
pub struct SplitPreview {
    pub pane: PaneId,
    /// Side by side, as opposed to one above the other.
    pub horizontal: bool,
    /// The share of the old pane, as the bits of an IEEE 754 single.
    pub ratio_bits: u32,
}

/// What a click does before anything under the pointer gets it.
#[derive(Debug, PartialEq, Eq)]
pub enum ClickStart {
    /// A link of the about box is opened.
    OpenLink(String),
    /// An overlay was closed.
    Dismissed,
    Split { pane: PaneId, axis: Axis, ratio_bits: u32 },
    /// The click goes on.
    GoOn,
}

impl Overlays {
    /// The start of a click: links of the about box, then overlays, then the preview of a split,
    /// which counts only while its keys are held.
    pub fn begin_click(&mut self, about_link: Option<&str>, preview: &mut Option<SplitPreview>, split_held: bool) -> (r: ClickStart)
        ensures
            if old(self).about && about_link is Some {
                &&& r matches ClickStart::OpenLink(url) && url@ == about_link->0@
                &&& final(self)@ == old(self)@
                &&& *final(preview) == *old(preview)
            } else if old(self).help || old(self).about || old(self).settings_open {
                &&& r is Dismissed
                &&& final(self)@ == old(self)@.dismissed()
                &&& *final(preview) == *old(preview)
            } else {
                &&& final(self)@ == old(self)@
                &&& *final(preview) is None
                &&& match *old(preview) {
                    Some(p) if split_held => r == (ClickStart::Split {
                        pane: p.pane,
                        axis: if p.horizontal { Axis::Horizontal } else { Axis::Vertical },
                        ratio_bits: p.ratio_bits,
                    }),
                    _ => r is GoOn,
                }
            },
    {
        if self.about {
            if let Some(url) = about_link {
                return ClickStart::OpenLink(url.to_owned());
            }
        }
        if self.dismiss_overlay() {
            return ClickStart::Dismissed;
        }
        match preview.take() {
            Some(p) => {
                if split_held {
                    ClickStart::Split {
                        pane: p.pane,
                        axis: if p.horizontal {
                            Axis::Horizontal
                        } else {
                            Axis::Vertical
                        },
                        ratio_bits: p.ratio_bits,
                    }
                } else {
                    ClickStart::GoOn
                }
            },
            None => ClickStart::GoOn,
        }
    }
}

// ---- opening, closing and typing -------------------------------------------

/// The sheet, the box and the settings are shown one at a time, and a second call hides what the
/// first showed. The palette and the search take each other's place.
pub proof fn law_overlays_are_shown_by_name(v: OverlaysView, rows: Seq<RowKind>, kind: PendingClose)
    ensures
        v.with_help().help && !v.with_help().about && !v.with_help().settings_open,
        v.with_about().about && !v.with_about().help && !v.with_about().settings_open,
        v.with_settings(rows).settings_open && !v.with_settings(rows).help && !v.with_settings(
            rows,
        ).about,
        !v.dismissed().help && !v.dismissed().about && !v.dismissed().settings_open,
        v.dismissed().palette_open == v.palette_open && v.dismissed().search_open == v.search_open
            && v.dismissed().pending_close == v.pending_close && v.dismissed().search_query
            == v.search_query && v.dismissed().palette_query == v.palette_query,
        v.with_palette().palette_open && !v.with_palette().search_open
            && v.with_palette().palette_query.len() == 0 && v.with_palette().palette_sel == 0
            && v.with_palette().search_query.len() == 0,
        v.with_search().search_open && !v.with_search().palette_open && v.with_search().search_query
            == v.search_query,
        !v.search_closed().search_open && v.search_closed().search_query.len() == 0
            && v.search_closed().search_count is None && v.search_closed().palette_open
            == v.palette_open,
        v.with_help().palette_open == v.palette_open && v.with_help().pending_close
            == v.pending_close,
        v.asking(kind).palette_open == v.palette_open && v.asking(kind).search_open == v.search_open,
{
}

/// What is toggled is hidden where it was shown, and shown alone where not; hiding changes nothing
/// else. A dismissal says whether there was anything to dismiss.
pub proof fn law_toggling_twice_hides(o: &mut Overlays, rows: &[RowKind], was: bool)
    ensures
        call_ensures(Overlays::toggle_help, (o,), ()) ==> {
            &&& final(o).help == !old(o).help
            &&& old(o).help ==> final(o)@ == (OverlaysView { help: false, ..old(o)@ })
            &&& final(o).help ==> !final(o).about && !final(o).settings_open
        },
        call_ensures(Overlays::toggle_about, (o,), ()) ==> {
            &&& final(o).about == !old(o).about
            &&& old(o).about ==> final(o)@ == (OverlaysView { about: false, ..old(o)@ })
            &&& final(o).about ==> !final(o).help && !final(o).settings_open
        },
        call_ensures(Overlays::toggle_settings, (o, rows), ()) ==> {
            &&& final(o).settings_open == !old(o).settings_open
            &&& old(o).settings_open ==> final(o)@ == (OverlaysView {
                settings_open: false,
                ..old(o)@
            })
            &&& final(o).settings_open ==> !final(o).help && !final(o).about
        },
        call_ensures(Overlays::dismiss_overlay, (o,), was) ==> {
            &&& was <==> old(o).help || old(o).about || old(o).settings_open
            &&& !final(o).help && !final(o).about && !final(o).settings_open
        },
        call_ensures(Overlays::close_palette, (o,), ()) ==> final(o)@ == (OverlaysView {
            palette_open: false,
            ..old(o)@
        }),
{
}

/// A fresh set of overlays shows nothing.
pub proof fn law_nothing_is_shown_at_first(o: Overlays)
    requires
        call_ensures(Overlays::new, (), o),
    ensures
        !o.help && !o.about && !o.settings_open && !o.palette_open && !o.search_open,
        o.pending_close is None && o.palette_query@.len() == 0 && o.search_query@.len() == 0,
        o.settings_sel == 0 && o.palette_sel == 0 && o.search_count is None && o.confirm_focus == 0,
{
}

/// The settings choose the row that was chosen where it can be, and else the first that can.
pub proof fn law_settings_choose_what_can_be(rows: Seq<RowKind>, sel: int, i: int)
    ensures
        0 <= sel < rows.len() && rows[sel] != RowKind::SectionHeader ==> selectable(rows, sel)
            == sel,
        0 <= sel < rows.len() && rows[sel] == RowKind::SectionHeader && 0 <= i < selectable(
            rows,
            sel,
        ) ==> rows[i] == RowKind::SectionHeader,
        (forall|j: int| 0 <= j < rows.len() ==> #[trigger] rows[j] == RowKind::SectionHeader)
            ==> selectable(rows, sel) == 0,
{
    lemma_first_setting(rows);
}

/// The palette offers the shortcuts in order, those that can be run and whose name or keys hold
/// the query's characters in order, whatever their case.
pub proof fn law_the_palette_offers_what_matches(rows: Seq<(Seq<char>, Seq<char>)>, row: (Seq<char>, Seq<char>), query: Seq<char>)
    ensures
        offered(rows.push(row), query) == (if row.0.len() > 0 && chord(lowercase_of(row.0)) is Some
            && (is_subsequence(lowercase_of(query), lowercase_of(row.1)) || is_subsequence(
            lowercase_of(query),
            lowercase_of(row.0),
        )) {
            offered(rows, query).push((row.1, row.0))
        } else {
            offered(rows, query)
        }),
        offered(Seq::empty(), query).len() == 0,
{
    assert(rows.push(row).drop_last() =~= rows);
}

/// The keys of the palette: the arrows choose, Enter runs the chosen shortcut and closes, Escape
/// closes, text is added to the query and Backspace takes its last character; a changed query
/// starts at the first row.
#[verifier::rlimit(40)]
pub proof fn law_palette_keys(v: OverlaysView, s: Seq<char>, mac: bool, key: NamedKey)
    requires
        v.palette_sel < usize::MAX,
    ensures
        ({
            let n = offered(help_rows(mac), v.palette_query).len();
            let after = |k: NamedKey| palette_after(v, KeyView::Named(k), mac);
            let typed = palette_after(v, KeyView::Character(s), mac);
            &&& !after(NamedKey::Escape).0.palette_open && after(NamedKey::Escape).1 is None
            &&& !after(NamedKey::Enter).0.palette_open
            &&& v.palette_sel < n ==> after(NamedKey::Enter).1 == Some(
                lowercase_of(offered(help_rows(mac), v.palette_query)[v.palette_sel as int].1),
            )
            &&& v.palette_sel >= n ==> after(NamedKey::Enter).1 is None
            &&& v.palette_sel + 1 < n ==> after(NamedKey::ArrowDown).0 == (OverlaysView {
                palette_sel: (v.palette_sel + 1) as usize,
                ..v
            })
            &&& v.palette_sel + 1 == n ==> after(NamedKey::ArrowDown).0 == v
            &&& 0 < v.palette_sel < n ==> after(NamedKey::ArrowUp).0 == (OverlaysView {
                palette_sel: (v.palette_sel - 1) as usize,
                ..v
            })
            &&& v.palette_sel == 0 ==> after(NamedKey::ArrowUp).0 == v
            &&& typed.0 == (OverlaysView {
                palette_query: v.palette_query + s,
                palette_sel: 0,
                ..v
            })
            &&& after(NamedKey::Space).0 == (OverlaysView {
                palette_query: v.palette_query.push(' '),
                palette_sel: 0,
                ..v
            })
            &&& v.palette_query.len() > 0 ==> after(NamedKey::Backspace).0 == (OverlaysView {
                palette_query: v.palette_query.drop_last(),
                palette_sel: 0,
                ..v
            })
            &&& after(NamedKey::Backspace).0.palette_query.len() <= v.palette_query.len()
            &&& key !is Enter ==> after(key).1 is None
            &&& typed.1 is None
        }),
{
}

/// The keys of the search: Enter goes to the next match and with Shift to the one before, Escape
/// closes, and a changed query is searched for anew, forward. A query that is empty asks nothing.
pub proof fn law_search_keys(v: OverlaysView, s: Seq<char>, shift: bool, r: Option<SearchRequest>, forward: bool)
    ensures
        ({
            let after = |k: NamedKey| search_after(v, KeyView::Named(k), shift);
            let typed = search_after(v, KeyView::Character(s), shift);
            &&& after(NamedKey::Enter).0 == v && after(NamedKey::Enter).1 == Some(!shift)
            &&& !after(NamedKey::Escape).0.search_open && after(NamedKey::Escape).1 is None
            &&& typed.0 == (OverlaysView {
                search_query: v.search_query + s,
                search_count: None,
                ..v
            }) && typed.1 == Some(true)
            &&& after(NamedKey::Space).0.search_query == v.search_query.push(' ') && after(
                NamedKey::Space,
            ).1 == Some(true)
            &&& v.search_query.len() > 0 ==> after(NamedKey::Backspace).0.search_query
                == v.search_query.drop_last() && after(NamedKey::Backspace).1 == Some(true)
            &&& after(NamedKey::ArrowUp) == (v, None::<bool>)
        }),
        asks(r, s, Some(forward)) ==> (s.len() == 0 ==> r is None) && (s.len() > 0 ==> (r
            matches Some(q) && q.pattern@ == s && q.forward == forward)),
        asks(r, s, None) ==> r is None,
{
}

/// The line of the search shows the query and which match of how many is shown.
pub proof fn law_the_search_line(o: Overlays, q: Seq<char>, i: u64, n: u64, r: Option<String>)
    ensures
        q.len() == 0 ==> search_text(q, Some((i, n))) == "find: type to search"@,
        q.len() > 0 && n == 0 ==> search_text(q, Some((i, n))) == "find: "@ + q + "\u{2038}"@
            + "  no matches"@,
        q.len() > 0 && n > 0 ==> search_text(q, Some((i, n))) == "find: "@ + q + "\u{2038}"@ + (
        "  "@ + decimal(i as nat) + "/"@ + decimal(n as nat)),
        q.len() > 0 ==> search_text(q, None) == "find: "@ + q + "\u{2038}"@,
        call_ensures(Overlays::search_line, (&o,), r) ==> {
            &&& r is Some <==> o.search_open
            &&& r matches Some(t) ==> t@ == search_text(o.search_query@, o.search_count)
        },
{
    assert("find: "@ + q + "\u{2038}"@ + Seq::<char>::empty() =~= "find: "@ + q + "\u{2038}"@);
}

/// A result is taken in only while the search is open; without a match a query counts none.
pub proof fn law_search_results_are_shown(o: &mut Overlays, hit: Option<(u64, u64)>)
    requires
        call_ensures(Overlays::on_search_result, (o, hit), ()),
    ensures
        !old(o).search_open ==> final(o)@ == old(o)@,
        old(o).search_open && hit is Some ==> final(o).search_count == hit,
        old(o).search_open && hit is None && old(o).search_query@.len() > 0 ==> final(o).search_count == Some((0u64, 0u64)),
        final(o).search_query@ == old(o).search_query@ && final(o).search_open == old(o).search_open,
{
}

/// The keys of the settings: the vertical arrows choose, the horizontal ones and the space bar
/// change, up to the right, and Escape closes; the others do nothing.
pub proof fn law_settings_are_changed_by_arrows(o: &mut Overlays, rows: &[RowKind], key: &Key, named: NamedKey, r: SettingsStep)
    requires
        key@ == KeyView::Named(named),
        call_ensures(Overlays::settings_key, (o, rows, key), r),
    ensures
        named is Escape ==> r == SettingsStep::Closed && final(o)@ == (OverlaysView {
            settings_open: false,
            ..old(o)@
        }),
        named is ArrowRight || named is Space ==> r == (SettingsStep::Adjust { up: true }),
        named is ArrowLeft ==> r == (SettingsStep::Adjust { up: false }),
        named is ArrowUp ==> r == SettingsStep::Refresh && is_step(
            rows@,
            old(o).settings_sel as int,
            -1,
            final(o).settings_sel as int,
        ),
        named is ArrowDown ==> r == SettingsStep::Refresh && is_step(
            rows@,
            old(o).settings_sel as int,
            1,
            final(o).settings_sel as int,
        ),
        named !is Escape ==> final(o)@ == (OverlaysView {
            settings_sel: final(o).settings_sel,
            ..old(o)@
        }),
        named !is Escape && named !is ArrowUp && named !is ArrowDown ==> final(o)@ == old(o)@,
{
}

/// Closing where a command runs asks first, and closes what was asked about only if confirmed; the
/// question starts at the button that refuses and names what it would close.
pub proof fn law_closing_is_confirmed(o: &mut Overlays, seen: Overlays, kind: PendingClose, running: bool, step: CloseStep, confirm: bool, r: Option<PendingClose>, words: Option<(&'static str, &'static str)>)
    ensures
        call_ensures(Overlays::request_close, (o, kind, running), step) ==> {
            &&& running ==> step is Ask && final(o).pending_close == Some(kind) && final(o).confirm_focus == 0
            &&& !running ==> step == CloseStep::Close(kind) && final(o)@ == old(o)@
        },
        call_ensures(Overlays::resolve_confirm, (o, confirm), r) ==> {
            &&& final(o).pending_close is None
            &&& confirm ==> r == old(o).pending_close
            &&& !confirm ==> r is None
        },
        old(o).confirm_focus <= 1 && call_ensures(Overlays::move_confirm_focus, (o,), ()) ==> final(o).confirm_focus + old(o).confirm_focus == 1,
        call_ensures(Overlays::confirm_view, (&seen,), words) ==> match seen.pending_close {
            None => words is None,
            Some(PendingClose::Pane) => words matches Some((t, l)) && t@ == "Close this pane?"@ && l@
                == "Close"@,
            Some(PendingClose::Tab(_)) => words matches Some((t, l)) && t@ == "Close this tab?"@
                && l@ == "Close"@,
            Some(PendingClose::Quit) => words matches Some((t, l)) && t@ == "Quit Ember?"@ && l@
                == "Quit"@,
            Some(PendingClose::CloseWindow) => words matches Some((t, l)) && t@
                == "Close this window?"@ && l@ == "Close"@,
        },
{
}

/// A click while an overlay is shown opens the link of the box or closes the overlay. Without one
/// it splits the previewed pane where the modifiers are held, side by side or stacked and in the
/// ratio of the preview, and goes on where not.
pub proof fn law_clicks_meet_overlays_first(o: &mut Overlays, link: Option<&str>, preview: &mut Option<SplitPreview>, held: bool, r: ClickStart)
    requires
        call_ensures(Overlays::begin_click, (o, link, preview, held), r),
    ensures
        old(o).about && link is Some ==> (r matches ClickStart::OpenLink(url) && url@ == link->0@)
            && final(o)@ == old(o)@,
        (old(o).help || old(o).about || old(o).settings_open) && !(old(o).about && link is Some)
            ==> r is Dismissed && !final(o).help && !final(o).about && !final(o).settings_open,
        !old(o).help && !old(o).about && !old(o).settings_open ==> {
            &&& *final(preview) is None && final(o)@ == old(o)@
            &&& r is GoOn <==> *old(preview) is None || !held
            &&& *old(preview) matches Some(p) ==> held ==> (r matches ClickStart::Split {
                pane,
                axis,
                ratio_bits,
            } && pane == p.pane && ratio_bits == p.ratio_bits && (axis == Axis::Horizontal
                <==> p.horizontal))
        },
{
}

/// The overlays are seen as they are.
pub proof fn law_overlays_are_seen_as_they_are(o: Overlays)
    ensures
        o@.help == o.help && o@.about == o.about && o@.settings_open == o.settings_open,
        o@.palette_open == o.palette_open && o@.search_open == o.search_open,
        o@.palette_query == o.palette_query@ && o@.search_query == o.search_query@,
        o@.settings_sel == o.settings_sel && o@.palette_sel == o.palette_sel,
        o@.search_count == o.search_count && o@.pending_close == o.pending_close && o@.confirm_focus
            == o.confirm_focus,
{
}

} // verus!
