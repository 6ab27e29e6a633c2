//! Selected text of a pane.

use vstd::prelude::*;
use crate::text::same;

verus! {

/// How a selection grows.
#[derive(Clone, Copy, Debug, PartialEq, Eq, Structural)]
pub enum SelectionMode {
    Simple,
    Word,
    Line,
}

pub open spec fn selection_mode(name: Seq<char>) -> SelectionMode {
    if name == "word"@ {
        SelectionMode::Word
    } else if name == "line"@ {
        SelectionMode::Line
    } else {
        SelectionMode::Simple
    }
}

/// The mode of a name; any other name is the simple one.
pub fn parse_selection_mode(name: &str) -> (r: SelectionMode)
    ensures
        r == selection_mode(name@),
{
    if same(name, "word") {
        SelectionMode::Word
    } else if same(name, "line") {
        SelectionMode::Line
    } else {
        SelectionMode::Simple
    }
}

/// A cell of a pane.
#[derive(Clone, Copy, Debug, PartialEq, Eq, Structural)]
pub struct Point {
    pub row: u16,
    pub col: u16,
}

impl Point {
    pub fn new(row: u16, col: u16) -> (r: Point)
        ensures
            r == (Point { row, col }),
    {
        Point { row, col }
    }
}

/// What is selected: from the anchor to the cell that the pointer has reached.
#[derive(Clone, Copy, Debug, PartialEq, Eq, Structural)]
pub struct Selection {
    pub anchor: Point,
    pub active: Point,
    pub mode: SelectionMode,
}

/// Whether releasing the button clears the selection: after a plain click, which leaves a single
/// cell. A drag, and a word or line chosen by clicks, stay.
pub fn click_selection_should_clear(sel: Option<&Selection>) -> (r: bool)
    ensures
        r == (match sel {
            Some(s) => s.mode == SelectionMode::Simple && s.anchor == s.active,
            None => false,
        }),
{
    match sel {
        Some(s) => s.mode == SelectionMode::Simple && s.anchor == s.active,
        None => false,
    }
}

/// The text that is copied: the one kept from when the selection was in view, or what can be read
/// of it now where none was kept.
pub fn copied(kept: Option<String>, live: Option<String>) -> (r: Option<String>)
    ensures
        r == (match kept {
            Some(text) => if text@.len() > 0 {
                kept
            } else {
                live
            },
            None => live,
        }),
{
    if let Some(text) = kept {
        if text.as_str().unicode_len() > 0 {
            return Some(text);
        }
    }
    live
}

/// The modes of selecting by their names; any other name selects by characters.
pub proof fn law_selection_modes_have_names(name: Seq<char>)
    ensures
        selection_mode(name) == SelectionMode::Word <==> name == "word"@,
        selection_mode(name) == SelectionMode::Line <==> name == "line"@,
        selection_mode(name) == SelectionMode::Simple <==> name != "word"@ && name != "line"@,
{
    reveal_strlit("word");
    reveal_strlit("line");
    assert("word"@[0] != "line"@[0]);
}

/// A click that selected nothing clears the selection: one by characters that ends where it
/// began. Selected words and lines stay.
pub proof fn law_empty_selections_clear(s: Selection, r: bool)
    ensures
        call_ensures(click_selection_should_clear, (Some(&s),), r) ==> (r <==> s.mode
            == SelectionMode::Simple && s.anchor.row == s.active.row && s.anchor.col
            == s.active.col),
        call_ensures(click_selection_should_clear, (None,), r) ==> !r,
{
}

/// The text that was kept is copied where there is any, else the text selected now.
pub proof fn law_kept_text_is_copied_first(kept: String, live: Option<String>, r: Option<String>)
    ensures
        call_ensures(copied, (Some(kept), live), r) ==> r == (if kept@.len() > 0 {
            Some(kept)
        } else {
            live
        }),
        call_ensures(copied, (None, live), r) ==> r == live,
{
}

} // verus!
