//! What the desktop tells a window: focus, covering, drawing, buttons, closing.

use vstd::prelude::*;
use crate::gesture::TabHit;
use crate::layout::{TabId, WindowTree};
use crate::overlay::PendingClose;

verus! {

/// What closing a window by its button means: quitting, for the last one.
pub fn close_requested(open_windows: usize) -> (r: PendingClose)
    ensures
        r == (if open_windows <= 1 { PendingClose::Quit } else { PendingClose::CloseWindow }),
{
    if open_windows <= 1 {
        PendingClose::Quit
    } else {
        PendingClose::CloseWindow
    }
}

/// What a confirmed close means once it was carried out and nothing is left to show.
#[derive(Clone, Copy, Debug, PartialEq, Eq, Structural)]
pub enum ControlClose {
    /// The program ends.
    ExitApp,
    /// The window closes, and the program with it where it is the last.
    CloseWindow,
}

/// What a close means for the window. `emptied` tells that a closed pane or tab was the last.
pub fn after_close(kind: PendingClose, emptied: bool) -> (r: Option<ControlClose>)
    ensures
        r == (match kind {
            PendingClose::Quit => Some(ControlClose::ExitApp),
            PendingClose::CloseWindow => Some(ControlClose::CloseWindow),
            _ => if emptied { Some(ControlClose::CloseWindow) } else { None },
        }),
{
    match kind {
        PendingClose::Quit => Some(ControlClose::ExitApp),
        PendingClose::CloseWindow => Some(ControlClose::CloseWindow),
        _ => if emptied {
            Some(ControlClose::CloseWindow)
        } else {
            None
        },
    }
}

// ---- being seen ------------------------------------------------------------

/// Whether a window has the focus, is covered, and got a surface when it was last drawn.
#[derive(Clone, Copy, Debug, PartialEq, Eq, Structural)]
pub struct WindowFlags {
    pub focused: bool,
    pub occluded: bool,
    pub render_starved: bool,
}

/// How a drawing ended.
#[derive(Clone, Copy, Debug, PartialEq, Eq, Structural)]
pub enum RenderOutcome {
    Presented,
    /// The surface was lost and has been set up again.
    Retry,
    /// There was no surface to draw on.
    Starved,
}

impl WindowFlags {
    /// The window got or lost the focus. With the focus it is not covered, and the result tells
    /// that it is drawn at once.
    pub fn on_focused(&mut self, focused: bool) -> (r: bool)
        ensures
            r == focused,
            *final(self) == (WindowFlags {
                focused,
                occluded: old(self).occluded && !focused,
                ..*old(self)
            }),
    {
        self.focused = focused;
        if focused {
            self.occluded = false;
        }
        focused
    }

    /// The window was covered or uncovered. The result tells that it is drawn at once.
    pub fn on_occluded(&mut self, occluded: bool) -> (r: bool)
        ensures
            r == !occluded,
            *final(self) == (WindowFlags { occluded, ..*old(self) }),
    {
        self.occluded = occluded;
        !occluded
    }

    /// A drawing ended. The result tells that the window is drawn again at once. Without a surface
    /// it is not: that would go round in circles, and the window may be seen all the same.
    pub fn on_render(&mut self, outcome: RenderOutcome) -> (r: bool)
        ensures
            r == (outcome == RenderOutcome::Retry),
            *final(self) == (match outcome {
                RenderOutcome::Presented => WindowFlags {
                    occluded: false,
                    render_starved: false,
                    ..*old(self)
                },
                RenderOutcome::Retry => WindowFlags { render_starved: false, ..*old(self) },
                RenderOutcome::Starved => WindowFlags { render_starved: true, ..*old(self) },
            }),
    {
        match outcome {
            RenderOutcome::Presented => {
                self.occluded = false;
                self.render_starved = false;
                false
            },
            RenderOutcome::Retry => {
                self.render_starved = false;
                true
            },
            RenderOutcome::Starved => {
                self.render_starved = true;
                false
            },
        }
    }
}

// ---- buttons of the mouse --------------------------------------------------

#[derive(Clone, Copy, Debug, PartialEq, Eq, Structural)]
pub enum MouseButton {
    Left,
    Middle,
    Right,
    Other,
}

/// What pressing a button does.
#[derive(Clone, Copy, Debug, PartialEq, Eq, Structural)]
pub enum PressAction {
    Nothing,
    /// The question before closing is answered.
    Answer { close: bool },
    /// A press on what is under the pointer.
    Press,
    /// Closes a tab, asking first where a command runs.
    CloseTab(TabId),
    /// The press goes to the program under the pointer.
    Forward(u8),
}

/// What pressing a button does. The question before closing takes the left button; `answer` is
/// the button of the question under the pointer. The middle button closes the tab under it.
pub open spec fn press_does(button: MouseButton, asking: bool, answer: Option<usize>, hit: Option<TabHit>, tree: WindowTree) -> PressAction {
    match button {
        MouseButton::Left => if asking {
            match answer {
                Some(i) => PressAction::Answer { close: i == 1 },
                None => PressAction::Nothing,
            }
        } else {
            PressAction::Press
        },
        MouseButton::Middle => match hit {
            Some(TabHit::Tab(i)) => if i < tree.tabs@.len() {
                PressAction::CloseTab(tree.tabs@[i as int].id)
            } else {
                PressAction::Nothing
            },
            _ => PressAction::Forward(1),
        },
        MouseButton::Right => PressAction::Forward(2),
        MouseButton::Other => PressAction::Nothing,
    }
}

/// What pressing a button does.
pub fn press(button: MouseButton, asking: bool, answer: Option<usize>, hit: Option<TabHit>, tree: &WindowTree) -> (r: PressAction)
    ensures
        r == press_does(button, asking, answer, hit, *tree),
{
    match button {
        MouseButton::Left => {
            if asking {
                match answer {
                    Some(i) => PressAction::Answer { close: i == 1 },
                    None => PressAction::Nothing,
                }
            } else {
                PressAction::Press
            }
        },
        MouseButton::Middle => match hit {
            Some(TabHit::Tab(i)) => {
                if i < tree.tabs.len() {
                    PressAction::CloseTab(tree.tabs[i].id)
                } else {
                    PressAction::Nothing
                }
            },
            _ => PressAction::Forward(1),
        },
        MouseButton::Right => PressAction::Forward(2),
        MouseButton::Other => PressAction::Nothing,
    }
}

/// The number under which programs know a button when it is released.
pub fn released_button(button: MouseButton) -> (r: u8)
    ensures
        r == (match button {
            MouseButton::Middle => 1u8,
            MouseButton::Right => 2u8,
            _ => 0u8,
        }),
{
    match button {
        MouseButton::Middle => 1,
        MouseButton::Right => 2,
        _ => 0,
    }
}

/// While the question before closing is open, a click does nothing but answer it.
pub proof fn law_questions_hold_the_click(answer: Option<usize>, hit: Option<TabHit>, tree: WindowTree)
    ensures
        press_does(MouseButton::Left, true, answer, hit, tree) matches PressAction::Answer { close }
            ==> (close <==> answer == Some(1usize)),
        press_does(MouseButton::Left, true, answer, hit, tree) is Answer || press_does(
            MouseButton::Left,
            true,
            answer,
            hit,
            tree,
        ) is Nothing,
{
}

/// Closing the last window quits the program, and closing another only that window. A pane or a
/// tab takes its window along where it was the last.
pub proof fn law_the_last_window_quits(n: usize, kind: PendingClose, r: PendingClose, emptied: bool, after: Option<ControlClose>)
    ensures
        call_ensures(close_requested, (n,), r) ==> (r == PendingClose::Quit <==> n <= 1) && (r
            == PendingClose::CloseWindow <==> n >= 2),
        call_ensures(after_close, (kind, emptied), after) ==> {
            &&& after == Some(ControlClose::ExitApp) <==> kind is Quit
            &&& after == Some(ControlClose::CloseWindow) <==> kind is CloseWindow || (emptied && (
            kind is Pane || kind is Tab))
            &&& after is None <==> !emptied && (kind is Pane || kind is Tab)
        },
{
}

/// A focused window is not hidden; a window that is drawn is neither hidden nor starved, and only
/// a drawing to be retried is tried again.
pub proof fn law_windows_follow_what_is_seen(f: &mut WindowFlags, b: bool, outcome: RenderOutcome, r: bool)
    ensures
        call_ensures(WindowFlags::on_focused, (f, b), r) ==> {
            &&& r == b && final(f).focused == b
            &&& final(f).occluded <==> old(f).occluded && !b
            &&& final(f).render_starved == old(f).render_starved
        },
        call_ensures(WindowFlags::on_occluded, (f, b), r) ==> {
            &&& r == !b && final(f).occluded == b
            &&& final(f).focused == old(f).focused && final(f).render_starved == old(f).render_starved
        },
        call_ensures(WindowFlags::on_render, (f, outcome), r) ==> {
            &&& r <==> outcome is Retry
            &&& final(f).render_starved <==> outcome is Starved
            &&& final(f).occluded <==> old(f).occluded && !(outcome is Presented)
            &&& final(f).focused == old(f).focused
        },
{
}

/// The buttons: the left one answers a question or presses, the middle one closes the tab under
/// it or goes to the program as button 1, the right one goes to it as button 2.
pub proof fn law_buttons_do_their_part(hit: Option<TabHit>, tree: WindowTree, asking: bool, answer: Option<usize>, i: usize, b: MouseButton, n: u8)
    ensures
        press_does(MouseButton::Left, false, answer, hit, tree) == PressAction::Press,
        press_does(MouseButton::Left, true, Some(1), hit, tree) == (PressAction::Answer {
            close: true,
        }),
        i != 1 ==> press_does(MouseButton::Left, true, Some(i), hit, tree) == (PressAction::Answer {
            close: false,
        }),
        press_does(MouseButton::Left, true, None, hit, tree) == PressAction::Nothing,
        i < tree.tabs@.len() ==> press_does(
            MouseButton::Middle,
            asking,
            answer,
            Some(TabHit::Tab(i)),
            tree,
        ) == PressAction::CloseTab(tree.tabs@[i as int].id),
        press_does(MouseButton::Middle, asking, answer, None, tree) == PressAction::Forward(1),
        press_does(MouseButton::Right, asking, answer, hit, tree) == PressAction::Forward(2),
        press_does(MouseButton::Other, asking, answer, hit, tree) == PressAction::Nothing,
        call_ensures(released_button, (b,), n) ==> n == (if b is Middle {
            1u8
        } else if b is Right {
            2u8
        } else {
            0u8
        }),
{
}

} // verus!
