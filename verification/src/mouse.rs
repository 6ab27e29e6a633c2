//! The mouse as programs in a pane see it.

use vstd::prelude::*;
use vstd::string::StrSliceExecFns;
use vstd::utf8::encode_utf8;
use crate::keys::Mods;
use crate::layout::SessionId;
use crate::text::{decimal, push_decimal};

verus! {

broadcast use vstd::seq_lib::group_seq_properties;

/// What a program in a pane wants to know of the mouse.
#[derive(Clone, Copy, Debug, PartialEq, Eq, Structural)]
pub struct MouseProto {
    pub click: bool,
    /// Motion while a button is held.
    pub drag: bool,
    /// Any motion.
    pub motion: bool,
    /// Reports are decimal text, as opposed to single bytes.
    pub sgr: bool,
}

/// A report as decimal text, counted from 1; the last letter tells a press from a release.
pub open spec fn sgr_text(btn: nat, col: nat, row: nat, press: bool) -> Seq<char> {
    "\x1b[<"@ + decimal(btn) + ";"@ + decimal(col + 1) + ";"@ + decimal(row + 1) + (if press {
        "M"@
    } else {
        "m"@
    })
}

/// The byte for a coordinate, counted from 1 and limited to 223.
pub open spec fn x10_coord(c: int) -> u8 {
    (32 + (if c + 1 < 223 { c + 1 } else { 223 })) as u8
}

/// A report as the bytes that a program gets. Without decimal text, a release is button 3.
pub open spec fn report(sgr: bool, btn: u8, col: u16, row: u16, press: bool) -> Seq<u8> {
    if sgr {
        encode_utf8(sgr_text(btn as nat, col as nat, row as nat, press))
    } else {
        seq![
            0x1bu8,
            0x5bu8,
            0x4du8,
            (32 + (if press { btn } else { 3 })) as u8,
            x10_coord(col as int),
            x10_coord(row as int),
        ]
    }
}

/// A report of the mouse as the bytes that a program gets.
pub fn mouse_report_bytes(sgr: bool, btn: u8, col: u16, row: u16, press: bool) -> (r: Vec<u8>)
    requires
        col < u16::MAX,
        row < u16::MAX,
        !sgr && press ==> btn <= 223,
    ensures
        r@ == report(sgr, btn, col, row, press),
{
    if sgr {
        let mut out = "\x1b[<".to_owned();
        push_decimal(&mut out, btn as u64);
        out.append(";");
        push_decimal(&mut out, col as u64 + 1);
        out.append(";");
        push_decimal(&mut out, row as u64 + 1);
        out.append(if press {
            "M"
        } else {
            "m"
        });
        out.as_str().as_bytes_vec()
    } else {
        let b: u8 = if press {
            btn
        } else {
            3
        };
        let cx: u8 = if col + 1 < 223 {
            (col + 1) as u8
        } else {
            223
        };
        let cy: u8 = if row + 1 < 223 {
            (row + 1) as u8
        } else {
            223
        };
        let out: Vec<u8> = vec![0x1b, 0x5b, 0x4d, 32 + b, 32 + cx, 32 + cy];
        assert(out@ == report(sgr, btn, col, row, press));
        out
    }
}

/// What the held keys add to a button: 8 for Alt, 16 for Control. Shift is never told.
pub open spec fn mod_bits(mods: Mods) -> u8 {
    ((if mods.alt { 8int } else { 0 }) + (if mods.ctrl { 16int } else { 0 })) as u8
}

/// What the held keys add to a button.
pub fn mouse_mod_bits(mods: Mods) -> (r: u8)
    ensures
        r == mod_bits(mods),
        r <= 24,
{
    (if mods.alt {
        8u8
    } else {
        0
    }) + (if mods.ctrl {
        16u8
    } else {
        0
    })
}

// ---- forwarding ------------------------------------------------------------

/// The pane under the pointer, the cell there, and what its program wants to know.
#[derive(Debug, PartialEq, Eq)]
pub struct PaneUnder {
    pub session: SessionId,
    /// The program listens to the mouse.
    pub reporting: bool,
    pub proto: MouseProto,
    pub col: u16,
    pub row: u16,
}

impl PaneUnder {
    /// The cell can be counted from 1.
    pub open spec fn wf(self) -> bool {
        self.col < u16::MAX && self.row < u16::MAX
    }
}

/// The program under the pointer hears of the mouse: it listens, and Shift is not held.
pub open spec fn is_target(under: Option<PaneUnder>, mods: Mods) -> bool {
    !mods.shift && (under matches Some(u) && u.reporting)
}

/// Which press was forwarded, and the cell of the last report.
#[derive(Debug, PartialEq, Eq)]
pub struct Forwarded {
    pub press: Option<(SessionId, u8)>,
    pub last_cell: Option<(u16, u16)>,
}

/// Bytes for a session.
#[derive(Debug, PartialEq, Eq)]
pub struct Input {
    pub session: SessionId,
    pub bytes: Vec<u8>,
}

pub open spec fn input_is(i: Option<Input>, session: Seq<char>, bytes: Seq<u8>) -> bool {
    i matches Some(i) && i.session@ == session && i.bytes@ == bytes
}

pub open spec fn press_is(p: Option<(SessionId, u8)>, session: Seq<char>, btn: u8) -> bool {
    p matches Some((s, b)) && s@ == session && b == btn
}

/// A button's report has room for the held keys, the mark of a motion and the offset of a byte.
pub open spec fn is_button(btn: u8) -> bool {
    btn + 32 + 24 + 32 <= 255
}

impl Forwarded {
    pub fn new() -> (r: Forwarded)
        ensures
            r == (Forwarded { press: None, last_cell: None }),
    {
        Forwarded { press: None, last_cell: None }
    }

    /// Forwards a press to the program under the pointer if it wants clicks. With a result the
    /// press is used up.
    pub fn forward_mouse_press(&mut self, under: Option<PaneUnder>, btn: u8, mods: Mods) -> (r: Option<Input>)
        requires
            is_button(btn),
            under matches Some(u) ==> u.wf(),
        ensures
            match under {
                Some(u) if is_target(under, mods) && u.proto.click => {
                    &&& input_is(
                        r,
                        u.session@,
                        report(u.proto.sgr, (btn + mod_bits(mods)) as u8, u.col, u.row, true),
                    )
                    &&& press_is(final(self).press, u.session@, btn)
                    &&& final(self).last_cell == Some((u.col, u.row))
                },
                _ => r is None && *final(self) == *old(self),
            },
    {
        let u = match under {
            Some(u) => u,
            None => return None,
        };
        if mods.shift || !u.reporting || !u.proto.click {
            return None;
        }
        let bytes = mouse_report_bytes(u.proto.sgr, btn + mouse_mod_bits(mods), u.col, u.row, true);
        self.press = Some((u.session.copy(), btn));
        self.last_cell = Some((u.col, u.row));
        Some(Input { session: u.session, bytes })
    }

    /// Forwards the release that belongs to a forwarded press. `at` is the cell of the pressed
    /// pane and its protocol, where that pane is still shown.
    pub fn forward_mouse_release(&mut self, at: Option<(MouseProto, u16, u16)>, btn: u8, mods: Mods) -> (r: Option<Input>)
        requires
            is_button(btn),
            at matches Some((_, col, row)) ==> col < u16::MAX && row < u16::MAX,
        ensures
            match old(self).press {
                Some((s, pressed)) if pressed == btn => {
                    &&& final(self).press is None
                    &&& final(self).last_cell is None
                    &&& match at {
                        Some((proto, col, row)) => input_is(
                            r,
                            s@,
                            report(proto.sgr, (btn + mod_bits(mods)) as u8, col, row, false),
                        ),
                        None => r is None,
                    }
                },
                _ => r is None && *final(self) == *old(self),
            },
    {
        let ours = match &self.press {
            Some((_, pressed)) => *pressed == btn,
            None => false,
        };
        if !ours {
            return None;
        }
        let press = self.press.take();
        self.last_cell = None;
        match (press, at) {
            (Some((session, _)), Some((proto, col, row))) => {
                let bytes = mouse_report_bytes(
                    proto.sgr,
                    btn + mouse_mod_bits(mods),
                    col,
                    row,
                    false,
                );
                Some(Input { session, bytes })
            },
            _ => None,
        }
    }

    /// Forwards a motion: to the pressed pane while a forwarded button is held, where `at` is the
    /// cell there, else to the pane under the pointer. Each cell is told once.
    pub fn forward_mouse_motion(&mut self, at: Option<(MouseProto, u16, u16)>, under: Option<PaneUnder>, mods: Mods) -> (r: Option<Input>)
        requires
            old(self).press matches Some((_, btn)) ==> is_button(btn),
            at matches Some((_, col, row)) ==> col < u16::MAX && row < u16::MAX,
            under matches Some(u) ==> u.wf(),
        ensures
            final(self).press == old(self).press,
            match old(self).press {
                Some((s, btn)) => match at {
                    Some((proto, col, row)) if (proto.drag || proto.motion) && old(self).last_cell
                        != Some((col, row)) => {
                        &&& final(self).last_cell == Some((col, row))
                        &&& input_is(
                            r,
                            s@,
                            report(proto.sgr, (btn + 32 + mod_bits(mods)) as u8, col, row, true),
                        )
                    },
                    _ => r is None && final(self).last_cell == old(self).last_cell,
                },
                None => match under {
                    Some(u) if is_target(under, mods) && u.proto.motion && old(self).last_cell
                        != Some((u.col, u.row)) => {
                        &&& final(self).last_cell == Some((u.col, u.row))
                        &&& input_is(
                            r,
                            u.session@,
                            report(u.proto.sgr, (35 + mod_bits(mods)) as u8, u.col, u.row, true),
                        )
                    },
                    _ => r is None && final(self).last_cell == old(self).last_cell,
                },
            },
    {
        if let Some((session, btn)) = &self.press {
            let (proto, col, row) = match at {
                Some(p) => p,
                None => return None,
            };
            if !(proto.drag || proto.motion) {
                return None;
            }
            if let Some((c, w)) = self.last_cell {
                if c == col && w == row {
                    return None;
                }
            }
            let bytes = mouse_report_bytes(
                proto.sgr,
                *btn + 32 + mouse_mod_bits(mods),
                col,
                row,
                true,
            );
            let session = session.copy();
            self.last_cell = Some((col, row));
            return Some(Input { session, bytes });
        }
        let u = match under {
            Some(u) => u,
            None => return None,
        };
        if mods.shift || !u.reporting || !u.proto.motion {
            return None;
        }
        if let Some((c, w)) = self.last_cell {
            if c == u.col && w == u.row {
                return None;
            }
        }
        self.last_cell = Some((u.col, u.row));
        let bytes = mouse_report_bytes(u.proto.sgr, 35 + mouse_mod_bits(mods), u.col, u.row, true);
        Some(Input { session: u.session, bytes })
    }
}

// ---- the wheel -------------------------------------------------------------

/// `s` so many times.
pub open spec fn repeated(s: Seq<u8>, n: nat) -> Seq<u8>
    decreases n,
{
    if n == 0 {
        Seq::<u8>::empty()
    } else {
        repeated(s, (n - 1) as nat) + s
    }
}

fn repeat(s: &[u8], n: u32) -> (r: Vec<u8>)
    ensures
        r@ == repeated(s@, n as nat),
{
    let mut out: Vec<u8> = Vec::new();
    let mut i: u32 = 0;
    while i < n
        invariant
            i <= n,
            out@ == repeated(s@, i as nat),
        decreases n - i,
    {
        let ghost before = out@;
        let mut j: usize = 0;
        while j < s.len()
            invariant
                j <= s@.len(),
                out@ == before + s@.take(j as int),
            decreases s@.len() - j,
        {
            out.push(s[j]);
            j += 1;
            assert(s@.take(j as int) == s@.take(j - 1).push(s@[j - 1]));
        }
        assert(s@.take(j as int) == s@);
        i += 1;
    }
    out
}

/// What a turn of the wheel does in a pane.
#[derive(Debug, PartialEq, Eq)]
pub enum WheelAction {
    Nothing,
    Input(Vec<u8>),
    /// Scrolls the history; up where positive.
    Scroll(i32),
}

/// What the pane has switched on.
#[derive(Clone, Copy, Debug, PartialEq, Eq, Structural)]
pub struct PaneModes {
    pub alt_screen: bool,
    pub mouse_reporting: bool,
    pub sgr: bool,
}

pub open spec fn magnitude(n: int) -> nat {
    if n < 0 {
        (-n) as nat
    } else {
        n as nat
    }
}

/// What a turn of the wheel does: a report for each line where the program listens, arrow keys
/// where it fills the screen, else the history scrolls.
pub open spec fn wheel_does(lines: int, modes: PaneModes, cell: Option<(u16, u16)>, mods: Mods, a: WheelAction) -> bool {
    if lines == 0 {
        a is Nothing
    } else if modes.mouse_reporting && !mods.shift && cell is Some {
        let (col, row) = cell->0;
        a matches WheelAction::Input(b) && b@ == repeated(
            report(
                modes.sgr,
                ((if lines > 0 { 64int } else { 65 }) + mod_bits(mods)) as u8,
                col,
                row,
                true,
            ),
            magnitude(lines),
        )
    } else if modes.alt_screen {
        if modes.mouse_reporting {
            a is Nothing
        } else {
            a matches WheelAction::Input(b) && b@ == repeated(
                seq![0x1bu8, 0x5bu8, if lines > 0 { 0x41u8 } else { 0x42u8 }],
                magnitude(lines),
            )
        }
    } else {
        a == WheelAction::Scroll(lines as i32)
    }
}

/// A turn of the wheel by so many lines, up where positive. `cell` is the cell under the pointer
/// where the pointer is over the pane.
pub fn wheel_scroll(lines: i32, modes: PaneModes, cell: Option<(u16, u16)>, mods: Mods) -> (r: WheelAction)
    requires
        lines > i32::MIN,
        cell matches Some((col, row)) ==> col < u16::MAX && row < u16::MAX,
    ensures
        wheel_does(lines as int, modes, cell, mods, r),
{
    if lines == 0 {
        return WheelAction::Nothing;
    }
    let n: u32 = if lines > 0 {
        lines as u32
    } else {
        (-lines) as u32
    };
    if modes.mouse_reporting && !mods.shift {
        if let Some((col, row)) = cell {
            let wheel: u8 = if lines > 0 {
                64
            } else {
                65
            };
            let one = mouse_report_bytes(modes.sgr, wheel + mouse_mod_bits(mods), col, row, true);
            return WheelAction::Input(repeat(one.as_slice(), n));
        }
    }
    if modes.alt_screen {
        if modes.mouse_reporting {
            return WheelAction::Nothing;
        }
        let letter: u8 = if lines > 0 {
            0x41
        } else {
            0x42
        };
        let one: Vec<u8> = vec![0x1b, 0x5b, letter];
        assert(one@ == seq![0x1bu8, 0x5bu8, letter]);
        return WheelAction::Input(repeat(one.as_slice(), n));
    }
    WheelAction::Scroll(lines)
}

/// With Shift held the wheel never reaches a program as a mouse.
pub proof fn law_shift_keeps_the_wheel(lines: int, modes: PaneModes, cell: Option<(u16, u16)>, mods: Mods, a: WheelAction)
    requires
        mods.shift,
        wheel_does(lines, modes, cell, mods, a),
    ensures
        wheel_does(lines, modes, None, mods, a),
        modes.mouse_reporting ==> !(a is Input),
{
}

// ---- reports ---------------------------------------------------------------

/// A report in text gives the button, the column and the row, counted from 1, and ends in `M` for
/// a press and in `m` for a release.
pub proof fn law_text_reports(btn: u8, col: u16, row: u16)
    ensures
        report(true, btn, col, row, true) == encode_utf8(
            "\x1b[<"@ + decimal(btn as nat) + ";"@ + decimal(col as nat + 1) + ";"@ + decimal(
                row as nat + 1,
            ) + "M"@,
        ),
        report(true, btn, col, row, false) == encode_utf8(
            "\x1b[<"@ + decimal(btn as nat) + ";"@ + decimal(col as nat + 1) + ";"@ + decimal(
                row as nat + 1,
            ) + "m"@,
        ),
{
}

/// A report in bytes is `ESC [ M`, the button, the column and the row, each raised by 32, the
/// places counted from 1 and no greater than a byte can tell; a release is button 3.
pub proof fn law_byte_reports(btn: u8, col: u16, row: u16, press: bool)
    requires
        btn <= 223,
    ensures
        ({
            let r = report(false, btn, col, row, press);
            &&& r.len() == 6
            &&& r[0] == 27 && r[1] == 91 && r[2] == 77
            &&& press ==> r[3] == 32 + btn
            &&& !press ==> r[3] == 35
            &&& col < 222 ==> r[4] == 33 + col
            &&& col >= 222 ==> r[4] == 255
            &&& row < 222 ==> r[5] == 33 + row
            &&& row >= 222 ==> r[5] == 255
        }),
{
}

/// Alt counts 8 and Control 16 in a report; the other modifiers do not count.
pub proof fn law_modifiers_count_in_reports(mods: Mods)
    ensures
        mods.alt && mods.ctrl ==> mod_bits(mods) == 24,
        mods.alt && !mods.ctrl ==> mod_bits(mods) == 8,
        !mods.alt && mods.ctrl ==> mod_bits(mods) == 16,
        !mods.alt && !mods.ctrl ==> mod_bits(mods) == 0,
{
}

/// A press goes to the program under the pointer that listens, unless Shift is held, and is
/// remembered for its release.
pub proof fn law_presses_are_reported(f: &mut Forwarded, u: PaneUnder, btn: u8, mods: Mods, r: Option<Input>)
    requires
        is_button(btn),
        call_ensures(Forwarded::forward_mouse_press, (f, Some(u), btn, mods), r),
    ensures
        u.reporting && u.proto.click && !mods.shift ==> {
            &&& r matches Some(i) && i.session@ == u.session@ && i.bytes@ == report(
                u.proto.sgr,
                (btn + mod_bits(mods)) as u8,
                u.col,
                u.row,
                true,
            )
            &&& final(f).press matches Some((s, b)) && s@ == u.session@ && b == btn
            &&& final(f).last_cell == Some((u.col, u.row))
        },
        !(u.reporting && u.proto.click && !mods.shift) ==> r is None && *final(f) == *old(f),
{
}

/// A release goes to the program that got the press of the same button, and to no other.
pub proof fn law_releases_follow_their_press(f: &mut Forwarded, at: Option<(MouseProto, u16, u16)>, btn: u8, mods: Mods, r: Option<Input>)
    requires
        is_button(btn),
        call_ensures(Forwarded::forward_mouse_release, (f, at, btn, mods), r),
    ensures
        old(f).press matches Some((s, b)) ==> b == btn ==> {
            &&& final(f).press is None && final(f).last_cell is None
            &&& at is None ==> r is None
            &&& at matches Some((proto, col, row)) ==> (r matches Some(i) && i.session@
                == s@ && i.bytes@ == report(
                proto.sgr,
                (btn + mod_bits(mods)) as u8,
                col,
                row,
                false,
            ))
        },
        !(old(f).press matches Some((s, b)) && b == btn) ==> r is None && *final(f) == *old(f),
{
}

/// Motion is reported once for each cell: with a button held to the program that got the press,
/// raised by 32, and without one to a program that wants all motion, as button 35.
pub proof fn law_motion_is_reported(f: &mut Forwarded, at: Option<(MouseProto, u16, u16)>, under: Option<PaneUnder>, mods: Mods, r: Option<Input>)
    requires
        call_ensures(Forwarded::forward_mouse_motion, (f, at, under, mods), r),
    ensures
        final(f).press == old(f).press,
        r is None ==> final(f).last_cell == old(f).last_cell,
        old(f).press matches Some((s, btn)) ==> {
            &&& r is Some <==> (at matches Some((proto, col, row)) && (proto.drag || proto.motion)
                && old(f).last_cell != Some((col, row)))
            &&& r matches Some(i) ==> (at matches Some((proto, col, row)) && i.session@ == s@
                && final(f).last_cell == Some((col, row)) && i.bytes@ == report(
                proto.sgr,
                (btn + 32 + mod_bits(mods)) as u8,
                col,
                row,
                true,
            ))
        },
        old(f).press is None ==> {
            &&& r is Some <==> !mods.shift && (under matches Some(u) && u.reporting && u.proto.motion
                && old(f).last_cell != Some((u.col, u.row)))
            &&& r matches Some(i) ==> i.session@ == under->0.session@ && final(f).last_cell == Some(
                (under->0.col, under->0.row),
            ) && i.bytes@ == report(
                under->0.proto.sgr,
                (35 + mod_bits(mods)) as u8,
                under->0.col,
                under->0.row,
                true,
            )
        },
{
}

proof fn lemma_repeated_len(s: Seq<u8>, n: nat, i: int)
    ensures
        repeated(s, n).len() == n * s.len(),
        0 <= i < n * s.len() ==> repeated(s, n)[i] == s[i % s.len() as int],
    decreases n,
{
    if n > 0 {
        let m = (n - 1) as nat;
        let k = s.len() as int;
        lemma_repeated_len(s, m, i);
        assert(n * k == m * k + k) by (nonlinear_arith)
            requires
                n == m + 1,
        ;
        if m * k <= i < n * k {
            assert(i % k == i - m * k) by (nonlinear_arith)
                requires
                    m * k <= i < m * k + k,
                    k > 0,
            ;
        }
    } else {
        assert(n * s.len() == 0) by (nonlinear_arith)
            requires
                n == 0,
        ;
    }
}

/// The wheel: a program that listens gets button 64 for each line up and 65 for each down; one
/// that fills the screen without listening gets an arrow for each line; else the history scrolls
/// by that many lines.
#[verifier::rlimit(40)]
pub proof fn law_the_wheel(lines: int, modes: PaneModes, col: u16, row: u16, mods: Mods, a: WheelAction, i: int)
    requires
        -0x7fff_ffff <= lines <= 0x7fff_ffff,
        wheel_does(lines, modes, Some((col, row)), mods, a),
    ensures
        lines == 0 ==> a is Nothing,
        !modes.alt_screen && lines != 0 && (mods.shift || !modes.mouse_reporting) ==> (a
            matches WheelAction::Scroll(n) && n == lines),
        modes.alt_screen && modes.mouse_reporting && mods.shift ==> a is Nothing,
        modes.alt_screen && !modes.mouse_reporting && lines > 0 ==> (a matches WheelAction::Input(b)
            && b@.len() == 3 * lines && (0 <= i < b@.len() ==> b@[i] == seq![27u8, 91u8, 65u8][i
            % 3])),
        modes.alt_screen && !modes.mouse_reporting && lines < 0 ==> (a matches WheelAction::Input(b)
            && b@.len() == -3 * lines && (0 <= i < b@.len() ==> b@[i] == seq![27u8, 91u8, 66u8][i
            % 3])),
        modes.mouse_reporting && !mods.shift && lines > 0 ==> ({
            let one = report(modes.sgr, (64 + mod_bits(mods)) as u8, col, row, true);
            a matches WheelAction::Input(b) && b@.len() == lines * one.len() && (0 <= i < b@.len()
                ==> b@[i] == one[i % one.len() as int])
        }),
        modes.mouse_reporting && !mods.shift && lines < 0 ==> ({
            let one = report(modes.sgr, (65 + mod_bits(mods)) as u8, col, row, true);
            a matches WheelAction::Input(b) && b@.len() == -lines * one.len() && (0 <= i < b@.len()
                ==> b@[i] == one[i % one.len() as int])
        }),
{
    let n = magnitude(lines);
    let arrow = seq![0x1bu8, 0x5bu8, if lines > 0 { 0x41u8 } else { 0x42u8 }];
    lemma_repeated_len(arrow, n, i);
    assert(arrow.len() == 3);
    assert(lines > 0 ==> arrow =~= seq![27u8, 91u8, 65u8]);
    assert(lines < 0 ==> arrow =~= seq![27u8, 91u8, 66u8]);
    lemma_repeated_len(
        report(modes.sgr, (64 + mod_bits(mods)) as u8, col, row, true),
        n,
        i,
    );
    lemma_repeated_len(
        report(modes.sgr, (65 + mod_bits(mods)) as u8, col, row, true),
        n,
        i,
    );
}

} // verus!
