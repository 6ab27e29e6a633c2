//! Titles of tabs, links, and rows of the settings.

use vstd::prelude::*;
use crate::text::{
    ascii_lower, contains, contains_text, decimal, lowercase_of, starts_with, starts_with_text, texts,
    to_ascii_lower, to_decimal, to_lowercase,
};

verus! {

broadcast use vstd::seq_lib::group_seq_properties;

/// Whether a link may be handed to the desktop: only `http` and `https`, in any case.
pub open spec fn is_openable(url: Seq<char>) -> bool {
    starts_with_text(ascii_lower(url), "http://"@) || starts_with_text(
        ascii_lower(url),
        "https://"@,
    )
}

/// Whether a link may be handed to the desktop: only `http` and `https`, in any case.
pub fn url_is_openable(url: &str) -> (r: bool)
    ensures
        r == is_openable(url@),
{
    let head = to_ascii_lower(url);
    starts_with(head.as_str(), "http://") || starts_with(head.as_str(), "https://")
}

/// The title that is shown and searched: the tab's own, or its number from 1.
pub open spec fn display_title(title: Seq<char>, index: nat) -> Seq<char> {
    if title.len() == 0 {
        decimal(index + 1)
    } else {
        title
    }
}

/// The title that is shown and searched: the tab's own, or its number from 1.
pub fn tab_display_title(title: &str, index: usize) -> (r: String)
    requires
        index < usize::MAX,
    ensures
        r@ == display_title(title@, index as nat),
{
    if title.is_empty() {
        to_decimal(index as u64 + 1)
    } else {
        title.to_owned()
    }
}

/// Whether a title contains the query, whatever the case of both.
pub open spec fn title_matches(title: Seq<char>, query: Seq<char>) -> bool {
    contains_text(lowercase_of(title), lowercase_of(query))
}

/// The first title that contains the query.
pub open spec fn first_match(titles: Seq<Seq<char>>, query: Seq<char>) -> Option<int>
    decreases titles.len(),
{
    if titles.len() == 0 {
        None
    } else {
        match first_match(titles.drop_last(), query) {
            Some(i) => Some(i),
            None => if title_matches(titles.last(), query) {
                Some(titles.len() - 1)
            } else {
                None
            },
        }
    }
}

/// The first title that contains the query, whatever the case of both.
pub fn match_tab_title(titles: &[String], query: &str) -> (r: Option<usize>)
    ensures
        match r {
            Some(i) => first_match(texts(titles@), query@) == Some(i as int),
            None => first_match(texts(titles@), query@) is None,
        },
{
    let q = to_lowercase(query);
    let mut i: usize = 0;
    while i < titles.len()
        invariant
            i <= titles@.len(),
            q@ == lowercase_of(query@),
            first_match(texts(titles@).take(i as int), query@) is None,
        decreases titles@.len() - i,
    {
        let ghost here = texts(titles@).take(i + 1);
        assert(here.drop_last() == texts(titles@).take(i as int));
        assert(here.last() == titles@[i as int]@);
        let lower = to_lowercase(titles[i].as_str());
        if contains(lower.as_str(), q.as_str()) {
            proof {
                lemma_first_match_found(texts(titles@), query@, i + 1);
            }
            return Some(i);
        }
        i += 1;
    }
    assert(texts(titles@).take(i as int) == texts(titles@));
    None
}

proof fn lemma_first_match_found(titles: Seq<Seq<char>>, query: Seq<char>, k: int)
    requires
        0 <= k <= titles.len(),
        first_match(titles.take(k), query) is Some,
    ensures
        first_match(titles, query) == first_match(titles.take(k), query),
    decreases titles.len(),
{
    if k == titles.len() {
        assert(titles.take(k) == titles);
    } else {
        assert(titles.drop_last().take(k) == titles.take(k));
        lemma_first_match_found(titles.drop_last(), query, k);
    }
}

/// The match is the first: it contains the query and nothing before it does; without a match
/// nothing does.
pub proof fn law_first_match_is_first(titles: Seq<Seq<char>>, query: Seq<char>)
    ensures
        match first_match(titles, query) {
            Some(i) => 0 <= i < titles.len() && title_matches(titles[i], query) && forall|j: int|
                0 <= j < i ==> !title_matches(#[trigger] titles[j], query),
            None => forall|j: int|
                0 <= j < titles.len() ==> !title_matches(#[trigger] titles[j], query),
        },
    decreases titles.len(),
{
    if titles.len() > 0 {
        law_first_match_is_first(titles.drop_last(), query);
        let init = titles.drop_last();
        assert(forall|j: int| 0 <= j < init.len() ==> init[j] == titles[j]);
    }
}

pub open spec fn all_texts(v: Seq<Vec<String>>) -> Seq<Seq<Seq<char>>> {
    v.map_values(|t: Vec<String>| texts(t@))
}

/// The first window with a match, and its first match.
pub open spec fn first_match_across(windows: Seq<Seq<Seq<char>>>, query: Seq<char>) -> Option<
    (int, int),
>
    decreases windows.len(),
{
    if windows.len() == 0 {
        None
    } else {
        match first_match_across(windows.drop_last(), query) {
            Some(m) => Some(m),
            None => match first_match(windows.last(), query) {
                Some(t) => Some((windows.len() - 1, t)),
                None => None,
            },
        }
    }
}

proof fn lemma_match_across_found(windows: Seq<Seq<Seq<char>>>, query: Seq<char>, k: int)
    requires
        0 <= k <= windows.len(),
        first_match_across(windows.take(k), query) is Some,
    ensures
        first_match_across(windows, query) == first_match_across(windows.take(k), query),
    decreases windows.len(),
{
    if k == windows.len() {
        assert(windows.take(k) == windows);
    } else {
        assert(windows.drop_last().take(k) == windows.take(k));
        lemma_match_across_found(windows.drop_last(), query, k);
    }
}

/// The first title of any window that contains the query: the earlier window wins, and in it the
/// earlier tab.
pub fn match_tab_title_across(window_titles: &[Vec<String>], query: &str) -> (r: Option<(usize, usize)>)
    ensures
        match r {
            Some((w, t)) => first_match_across(all_texts(window_titles@), query@) == Some(
                (w as int, t as int),
            ),
            None => first_match_across(all_texts(window_titles@), query@) is None,
        },
{
    let mut w: usize = 0;
    let ghost all = all_texts(window_titles@);
    while w < window_titles.len()
        invariant
            w <= window_titles@.len(),
            all == all_texts(window_titles@),
            first_match_across(all.take(w as int), query@) is None,
        decreases window_titles@.len() - w,
    {
        assert(all.take(w + 1).drop_last() == all.take(w as int));
        assert(all.take(w + 1).last() == texts(window_titles@[w as int]@));
        if let Some(t) = match_tab_title(window_titles[w].as_slice(), query) {
            proof {
                lemma_match_across_found(all, query@, w + 1);
            }
            return Some((w, t));
        }
        w += 1;
    }
    assert(all.take(w as int) == all);
    None
}

/// A match across windows is the first match of the first window that has one.
pub proof fn law_first_window_wins(windows: Seq<Seq<Seq<char>>>, query: Seq<char>)
    ensures
        match first_match_across(windows, query) {
            Some((w, t)) => 0 <= w < windows.len() && first_match(windows[w], query) == Some(t)
                && forall|j: int| 0 <= j < w ==> first_match(#[trigger] windows[j], query) is None,
            None => forall|j: int|
                0 <= j < windows.len() ==> first_match(#[trigger] windows[j], query) is None,
        },
    decreases windows.len(),
{
    if windows.len() > 0 {
        law_first_window_wins(windows.drop_last(), query);
        let init = windows.drop_last();
        assert(forall|j: int| 0 <= j < init.len() ==> init[j] == windows[j]);
    }
}

// ---- rows of the settings --------------------------------------------------

/// What a row of the settings is.
#[derive(Clone, Copy, Debug, PartialEq, Eq, Structural)]
pub enum RowKind {
    /// The heading of a section, which cannot be chosen.
    SectionHeader,
    Setting,
}

/// `r` is the next row from `sel` in the direction `dir` that can be chosen, or `sel` itself
/// where there is none.
pub open spec fn is_step(rows: Seq<RowKind>, sel: int, dir: int, r: int) -> bool {
    ||| {
        &&& 0 <= r < rows.len()
        &&& rows[r] != RowKind::SectionHeader
        &&& dir > 0 ==> sel < r && forall|j: int|
            sel < j < r ==> rows[j] == RowKind::SectionHeader
        &&& dir < 0 ==> r < sel && forall|j: int|
            r < j < sel ==> rows[j] == RowKind::SectionHeader
    }
    ||| {
        &&& r == sel
        &&& dir > 0 ==> forall|j: int| sel < j < rows.len() ==> rows[j] == RowKind::SectionHeader
        &&& dir < 0 ==> sel > rows.len() || forall|j: int|
            0 <= j < sel ==> rows[j] == RowKind::SectionHeader
    }
}

/// Moves the chosen row up or down past headings; it stays where there is nothing further.
pub fn step_selectable_row(rows: &[RowKind], sel: usize, down: bool) -> (r: usize)
    requires
        sel < usize::MAX,
    ensures
        is_step(rows@, sel as int, if down { 1int } else { -1int }, r as int),
{
    if down {
        let mut i: usize = sel + 1;
        while i < rows.len() && rows[i] == RowKind::SectionHeader
            invariant
                sel < i,
                forall|j: int| sel < j < i && j < rows@.len() ==> rows@[j] == RowKind::SectionHeader,
            decreases rows@.len() - i,
        {
            i += 1;
        }
        if i < rows.len() {
            i
        } else {
            sel
        }
    } else {
        if sel > rows.len() {
            return sel;
        }
        let mut i: usize = sel;
        while i > 0 && rows[i - 1] == RowKind::SectionHeader
            invariant
                i <= sel <= rows@.len(),
                forall|j: int| i <= j < sel ==> rows@[j] == RowKind::SectionHeader,
            decreases i,
        {
            i -= 1;
        }
        if i > 0 {
            i - 1
        } else {
            sel
        }
    }
}

// ---- names and rows --------------------------------------------------------

/// Links are opened only to the web: a text that starts with `http://` or `https://`, in any case.
#[verifier::rlimit(40)]
pub proof fn law_links_lead_to_the_web(url: Seq<char>, rest: Seq<char>)
    ensures
        is_openable("http://"@ + rest),
        is_openable("https://"@ + rest),
        is_openable(url) ==> url.len() >= 7 && (url[0] == 'h' || url[0] == 'H') && (url[3] == 'p'
            || url[3] == 'P') && (url[4] == ':' || url[5] == ':'),
{
    reveal_strlit("http://");
    reveal_strlit("https://");
    let (a, b) = ("http://"@ + rest, "https://"@ + rest);
    assert(ascii_lower(a).take(7) =~= "http://"@);
    assert(ascii_lower(b).take(8) =~= "https://"@);
    if is_openable(url) {
        let l = ascii_lower(url);
        assert(l.len() == url.len());
        if starts_with_text(l, "http://"@) {
            assert(l.take(7)[0] == 'h' && l.take(7)[3] == 'p' && l.take(7)[4] == ':');
        } else {
            assert(l.take(8)[0] == 'h' && l.take(8)[3] == 'p' && l.take(8)[5] == ':');
        }
    }
}

/// A tab without a title shows its number, counted from 1; any other shows its title.
pub proof fn law_untitled_tabs_show_their_number(title: Seq<char>, i: nat)
    ensures
        title.len() > 0 ==> display_title(title, i) == title,
        title.len() == 0 ==> display_title(title, i) == decimal(i + 1),
{
}

/// A step goes to the next row that can be chosen in its direction, over any headers, and stays
/// where there is none.
pub proof fn law_steps_skip_headers(rows: Seq<RowKind>, sel: int, r: int, j: int)
    requires
        0 <= sel < rows.len(),
        0 <= j < rows.len(),
    ensures
        is_step(rows, sel, 1, r) ==> sel <= r < rows.len() && (r != sel ==> rows[r]
            == RowKind::Setting) && (sel < j < r ==> rows[j] == RowKind::SectionHeader),
        is_step(rows, sel, 1, sel) ==> (j > sel ==> rows[j] == RowKind::SectionHeader),
        is_step(rows, sel, -1, r) ==> 0 <= r <= sel && (r != sel ==> rows[r] == RowKind::Setting)
            && (r < j < sel ==> rows[j] == RowKind::SectionHeader),
        is_step(rows, sel, -1, sel) ==> (j < sel ==> rows[j] == RowKind::SectionHeader),
{
}

} // verus!
