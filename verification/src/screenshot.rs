//! Pictures of a scene that is built for the purpose: the options, and the scene.

use vstd::prelude::*;
use crate::json::{coordinate, coordinate_parsed};
use crate::selection::{parse_selection_mode, selection_mode, SelectionMode};
use crate::layout::{Axis, PaneId, SessionId, Tab, TabId, WindowTree};
use crate::tabs::{session_name, session_named};
use crate::text::{
    ascii_lower, concat3, decimal, opt_text, parse_result, parse_up_to, parts, quoted, quoted_of, same, split, texts, to_ascii_lower, to_decimal, trim, trim_of,
};

verus! {

broadcast use vstd::seq_lib::group_seq_properties;

/// The looks of the spark that follows a dragged tab.
#[derive(Clone, Copy, Debug, PartialEq, Eq, Structural)]
pub enum WispStyle {
    Cinder,
    Coal,
    WillOWisp,
    Comet,
    Goo,
    Star,
}

/// A fraction: the usual one, the text it was given as, or the bits of a double.
#[derive(Debug, PartialEq, Eq)]
pub enum Figure {
    Default,
    Text(String),
    Double(u64),
}

pub enum FigureView {
    Default,
    Text(Seq<char>),
    Double(u64),
}

impl Figure {
    pub open spec fn view(&self) -> FigureView {
        match *self {
            Figure::Default => FigureView::Default,
            Figure::Text(s) => FigureView::Text(s@),
            Figure::Double(b) => FigureView::Double(b),
        }
    }
}

/// What a picture is to show.
#[derive(Debug, PartialEq, Eq)]
pub struct Opts {
    pub path: String,
    pub scale: Figure,
    pub width: Figure,
    pub height: Figure,
    /// How the active tab is split, if at all.
    pub split: Option<Axis>,
    /// The commands to run, one per pane.
    pub runs: Vec<String>,
    pub tabs: usize,
    /// The slot of a dragged tab, and the pointer's position.
    pub tab_drag: Option<(usize, String)>,
    pub hover_tab: Option<usize>,
    pub confirm: bool,
    /// Whether a previewed split is side by side, and its ratio.
    pub split_preview: Option<(bool, String)>,
    /// How long the shells may run before the picture is taken.
    pub settle_ms: u64,
    pub backdrop: bool,
    pub ember: bool,
    pub ember_phase: Figure,
    pub bg_image: Option<String>,
    pub bg_fit: String,
    pub select: Option<(u16, u16, u16, u16)>,
    pub select_mode: String,
    pub fps: Option<String>,
    pub bell: Figure,
    pub bell_tab: Option<usize>,
    pub font_size: Figure,
    pub font: Option<String>,
    pub help_overlay: bool,
    pub settings: bool,
    /// Position and progress of the ring shown while a tab is held.
    pub hold_ring: Option<(String, String, String)>,
    /// Show one spark alone, in this style.
    pub wisp_preview: Option<WispStyle>,
}

pub struct OptsView {
    pub path: Seq<char>,
    pub scale: FigureView,
    pub width: FigureView,
    pub height: FigureView,
    pub split: Option<Axis>,
    pub runs: Seq<Seq<char>>,
    pub tabs: usize,
    pub tab_drag: Option<(usize, Seq<char>)>,
    pub hover_tab: Option<usize>,
    pub confirm: bool,
    pub split_preview: Option<(bool, Seq<char>)>,
    pub settle_ms: u64,
    pub backdrop: bool,
    pub ember: bool,
    pub ember_phase: FigureView,
    pub bg_image: Option<Seq<char>>,
    pub bg_fit: Seq<char>,
    pub select: Option<(u16, u16, u16, u16)>,
    pub select_mode: Seq<char>,
    pub fps: Option<Seq<char>>,
    pub bell: FigureView,
    pub bell_tab: Option<usize>,
    pub font_size: FigureView,
    pub font: Option<Seq<char>>,
    pub help_overlay: bool,
    pub settings: bool,
    pub hold_ring: Option<(Seq<char>, Seq<char>, Seq<char>)>,
    pub wisp_preview: Option<WispStyle>,
}

/// The picture that is taken where nothing is said.
pub open spec fn default_opts() -> OptsView {
    OptsView {
        path: "ember.png"@,
        scale: FigureView::Default,
        width: FigureView::Default,
        height: FigureView::Default,
        split: None,
        runs: Seq::empty(),
        tabs: 1,
        tab_drag: None,
        hover_tab: None,
        confirm: false,
        split_preview: None,
        settle_ms: 700,
        backdrop: false,
        ember: false,
        ember_phase: FigureView::Default,
        bg_image: None,
        bg_fit: "cover"@,
        select: None,
        select_mode: "simple"@,
        fps: None,
        bell: FigureView::Default,
        bell_tab: None,
        font_size: FigureView::Default,
        font: None,
        help_overlay: false,
        settings: false,
        hold_ring: None,
        wisp_preview: None,
    }
}

impl Opts {
    pub open spec fn view(&self) -> OptsView {
        OptsView {
            path: self.path@,
            scale: self.scale@,
            width: self.width@,
            height: self.height@,
            split: self.split,
            runs: texts(self.runs@),
            tabs: self.tabs,
            tab_drag: match self.tab_drag {
                Some(t) => Some((t.0, t.1@)),
                None => None,
            },
            hover_tab: self.hover_tab,
            confirm: self.confirm,
            split_preview: match self.split_preview {
                Some(t) => Some((t.0, t.1@)),
                None => None,
            },
            settle_ms: self.settle_ms,
            backdrop: self.backdrop,
            ember: self.ember,
            ember_phase: self.ember_phase@,
            bg_image: opt_text(self.bg_image),
            bg_fit: self.bg_fit@,
            select: self.select,
            select_mode: self.select_mode@,
            fps: opt_text(self.fps),
            bell: self.bell@,
            bell_tab: self.bell_tab,
            font_size: self.font_size@,
            font: opt_text(self.font),
            help_overlay: self.help_overlay,
            settings: self.settings,
            hold_ring: match self.hold_ring {
                Some(t) => Some((t.0@, t.1@, t.2@)),
                None => None,
            },
            wisp_preview: self.wisp_preview,
        }
    }
}

impl Default for Opts {
    fn default() -> (r: Opts)
        ensures
            r@ == default_opts(),
    {
        let r = Opts {
            path: "ember.png".to_owned(),
            scale: Figure::Default,
            width: Figure::Default,
            height: Figure::Default,
            split: None,
            runs: Vec::new(),
            tabs: 1,
            tab_drag: None,
            hover_tab: None,
            confirm: false,
            split_preview: None,
            settle_ms: 700,
            backdrop: false,
            ember: false,
            ember_phase: Figure::Default,
            bg_image: None,
            bg_fit: "cover".to_owned(),
            select: None,
            select_mode: "simple".to_owned(),
            fps: None,
            bell: Figure::Default,
            bell_tab: None,
            font_size: Figure::Default,
            font: None,
            help_overlay: false,
            settings: false,
            hold_ring: None,
            wisp_preview: None,
        };
        assert(texts(r.runs@) == Seq::<Seq<char>>::empty());
        r
    }
}

// ---- reading the options ---------------------------------------------------

/// The style of a name, whatever its case; `None` for any other name.
pub open spec fn wisp_style(name: Seq<char>) -> Option<WispStyle> {
    let s = ascii_lower(name);
    if s == "cinder"@ || s == "ember"@ {
        Some(WispStyle::Cinder)
    } else if s == "coal"@ {
        Some(WispStyle::Coal)
    } else if s == "willowisp"@ {
        Some(WispStyle::WillOWisp)
    } else if s == "comet"@ {
        Some(WispStyle::Comet)
    } else if s == "goo"@ {
        Some(WispStyle::Goo)
    } else if s == "star"@ {
        Some(WispStyle::Star)
    } else {
        None
    }
}

pub open spec fn wisp_error(name: Seq<char>) -> Seq<char> {
    "--wisp-preview: unknown style "@ + quoted_of(ascii_lower(name))
        + " (expected cinder|coal|willowisp|comet|goo|star)"@
}

/// Reads the name of a style.
pub fn parse_wisp_style(s: &str) -> (r: Result<WispStyle, String>)
    ensures
        match r {
            Ok(style) => wisp_style(s@) == Some(style),
            Err(e) => wisp_style(s@) is None && e@ == wisp_error(s@),
        },
{
    let lower_text = to_ascii_lower(s);
    let lower = lower_text.as_str();
    if same(lower, "cinder") || same(lower, "ember") {
        Ok(WispStyle::Cinder)
    } else if same(lower, "coal") {
        Ok(WispStyle::Coal)
    } else if same(lower, "willowisp") {
        Ok(WispStyle::WillOWisp)
    } else if same(lower, "comet") {
        Ok(WispStyle::Comet)
    } else if same(lower, "goo") {
        Ok(WispStyle::Goo)
    } else if same(lower, "star") {
        Ok(WispStyle::Star)
    } else {
        Err(
            concat3(
                "--wisp-preview: unknown style ",
                quoted(lower).as_str(),
                " (expected cinder|coal|willowisp|comet|goo|star)",
            ),
        )
    }
}

/// The value at `i`, or that the option needs one.
pub open spec fn value_at(args: Seq<Seq<char>>, i: int) -> Result<Seq<char>, Seq<char>> {
    if i < args.len() {
        Ok(args[i])
    } else {
        Err(args[0] + " needs a value"@)
    }
}

/// The value at `i` where it is a fraction.
pub open spec fn figure_at(args: Seq<Seq<char>>, i: int, label: Seq<char>) -> Result<
    Seq<char>,
    Seq<char>,
> {
    match value_at(args, i) {
        Ok(v) => match coordinate_parsed(v) {
            Ok(_) => Ok(v),
            Err(e) => Err(label + ": "@ + e),
        },
        Err(e) => Err(e),
    }
}

/// The value at `i` where it is a whole number up to `max`.
pub open spec fn whole_at(args: Seq<Seq<char>>, i: int, max: nat, label: Seq<char>) -> Result<
    nat,
    Seq<char>,
> {
    match value_at(args, i) {
        Ok(v) => match parse_result(v, max) {
            Ok(n) => Ok(n),
            Err(e) => Err(label + ": "@ + e.spec_text()),
        },
        Err(e) => Err(e),
    }
}

/// The numbers that `pieces` spell, blanks around them left out; the first that is none decides.
pub open spec fn cells(pieces: Seq<Seq<char>>) -> Result<Seq<u16>, Seq<char>>
    decreases pieces.len(),
{
    if pieces.len() == 0 {
        Ok(Seq::empty())
    } else {
        match cells(pieces.drop_last()) {
            Err(e) => Err(e),
            Ok(before) => match parse_result(trim_of(pieces.last()), u16::MAX as nat) {
                Ok(n) => Ok(before.push(n as u16)),
                Err(e) => Err(e.spec_text()),
            },
        }
    }
}

pub open spec fn selection_at(args: Seq<Seq<char>>) -> Result<(u16, u16, u16, u16), Seq<char>> {
    match value_at(args, 1) {
        Err(e) => Err(e),
        Ok(v) => match cells(parts(v, ',')) {
            Err(e) => Err("--select expects r1,c1,r2,c2: "@ + e),
            Ok(nums) => if nums.len() == 4 {
                Ok((nums[0], nums[1], nums[2], nums[3]))
            } else {
                Err("--select expects r1,c1,r2,c2"@)
            },
        },
    }
}

/// The effect of a switch; `None` for anything else.
pub open spec fn switch_step(args: Seq<Seq<char>>, o: OptsView) -> Option<
    Result<(OptsView, int), Seq<char>>,
> {
    let flag = args[0];
    if flag == "--confirm"@ {
        Some(
            Ok((OptsView { confirm: true, ..o }, 1int))
        )
    } else if flag == "--help-overlay"@ {
        Some(
            Ok((OptsView { help_overlay: true, ..o }, 1int))
        )
    } else if flag == "--settings"@ {
        Some(
            Ok((OptsView { settings: true, ..o }, 1int))
        )
    } else if flag == "--backdrop"@ {
        Some(
            Ok((OptsView { backdrop: true, ..o }, 1int))
        )
    } else if flag == "--ember"@ {
        Some(
            Ok((OptsView { backdrop: true, ember: true, ..o }, 1int))
        )
    } else {
        None
    }
}

/// The effect of an option with a text; `None` for anything else.
pub open spec fn text_step(args: Seq<Seq<char>>, o: OptsView) -> Option<
    Result<(OptsView, int), Seq<char>>,
> {
    let flag = args[0];
    if flag == "--screenshot"@ {
        Some(
            match value_at(args, 1) {
                Ok(v) => Ok((OptsView { path: v, ..o }, 2int)),
                Err(e) => Err(e),
            }
        )
    } else if flag == "--font"@ {
        Some(
            match value_at(args, 1) {
                Ok(v) => Ok((OptsView { font: Some(v), ..o }, 2int)),
                Err(e) => Err(e),
            }
        )
    } else if flag == "--bg-image"@ {
        Some(
            match value_at(args, 1) {
                Ok(v) => Ok((OptsView { bg_image: Some(v), ..o }, 2int)),
                Err(e) => Err(e),
            }
        )
    } else if flag == "--bg-fit"@ {
        Some(
            match value_at(args, 1) {
                Ok(v) => Ok((OptsView { bg_fit: v, ..o }, 2int)),
                Err(e) => Err(e),
            }
        )
    } else if flag == "--select-mode"@ {
        Some(
            match value_at(args, 1) {
                Ok(v) => Ok((OptsView { select_mode: v, ..o }, 2int)),
                Err(e) => Err(e),
            }
        )
    } else if flag == "--fps"@ {
        Some(
            match value_at(args, 1) {
                Ok(v) => Ok((OptsView { fps: Some(v), ..o }, 2int)),
                Err(e) => Err(e),
            }
        )
    } else if flag == "--run"@ {
        Some(
            match value_at(args, 1) {
                Ok(v) => Ok((OptsView { runs: o.runs.push(v), ..o }, 2int)),
                Err(e) => Err(e),
            }
        )
    } else {
        None
    }
}

/// The effect of an option with a fraction; `None` for anything else.
pub open spec fn figure_step(args: Seq<Seq<char>>, o: OptsView) -> Option<
    Result<(OptsView, int), Seq<char>>,
> {
    let flag = args[0];
    if flag == "--scale"@ {
        Some(
            match figure_at(args, 1, flag) {
                Ok(v) => Ok((OptsView { scale: FigureView::Text(v), ..o }, 2int)),
                Err(e) => Err(e),
            }
        )
    } else if flag == "--font-size"@ {
        Some(
            match figure_at(args, 1, flag) {
                Ok(v) => Ok((OptsView { font_size: FigureView::Text(v), ..o }, 2int)),
                Err(e) => Err(e),
            }
        )
    } else if flag == "--width"@ {
        Some(
            match figure_at(args, 1, flag) {
                Ok(v) => Ok((OptsView { width: FigureView::Text(v), ..o }, 2int)),
                Err(e) => Err(e),
            }
        )
    } else if flag == "--height"@ {
        Some(
            match figure_at(args, 1, flag) {
                Ok(v) => Ok((OptsView { height: FigureView::Text(v), ..o }, 2int)),
                Err(e) => Err(e),
            }
        )
    } else if flag == "--ember-phase"@ {
        Some(
            match figure_at(args, 1, flag) {
                Ok(v) => Ok((OptsView { ember_phase: FigureView::Text(v), ..o }, 2int)),
                Err(e) => Err(e),
            }
        )
    } else if flag == "--bell"@ {
        Some(
            match figure_at(args, 1, flag) {
                Ok(v) => Ok((OptsView { bell: FigureView::Text(v), ..o }, 2int)),
                Err(e) => Err(e),
            }
        )
    } else {
        None
    }
}

/// The effect of an option with a whole number; `None` for anything else.
pub open spec fn number_step(args: Seq<Seq<char>>, o: OptsView) -> Option<
    Result<(OptsView, int), Seq<char>>,
> {
    let flag = args[0];
    if flag == "--tabs"@ {
        Some(
            match whole_at(args, 1, usize::MAX as nat, flag) {
                Ok(n) => Ok((OptsView { tabs: n as usize, ..o }, 2int)),
                Err(e) => Err(e),
            }
        )
    } else if flag == "--hover-tab"@ {
        Some(
            match whole_at(args, 1, usize::MAX as nat, flag) {
                Ok(n) => Ok((OptsView { hover_tab: Some(n as usize), ..o }, 2int)),
                Err(e) => Err(e),
            }
        )
    } else if flag == "--settle"@ {
        Some(
            match whole_at(args, 1, u64::MAX as nat, flag) {
                Ok(n) => Ok((OptsView { settle_ms: n as u64, ..o }, 2int)),
                Err(e) => Err(e),
            }
        )
    } else if flag == "--bell-tab"@ {
        Some(
            match whole_at(args, 1, usize::MAX as nat, flag) {
                Ok(n) => Ok((OptsView { bell_tab: Some(n as usize), ..o }, 2int)),
                Err(e) => Err(e),
            }
        )
    } else {
        None
    }
}

/// The effect of an option with a value of its own form; `None` for anything else.
pub open spec fn shape_step(args: Seq<Seq<char>>, o: OptsView) -> Option<
    Result<(OptsView, int), Seq<char>>,
> {
    let flag = args[0];
    if flag == "--tab-drag"@ {
        Some(
            match whole_at(args, 1, usize::MAX as nat, "--tab-drag slot"@) {
                Ok(slot) => match figure_at(args, 2, "--tab-drag x"@) {
                    Ok(x) => Ok((OptsView { tab_drag: Some((slot as usize, x)), ..o }, 3int)),
                    Err(e) => Err(e),
                },
                Err(e) => Err(e),
            }
        )
    } else if flag == "--split-preview"@ {
        Some(
            match value_at(args, 1) {
                Ok(h) => match figure_at(args, 2, "--split-preview ratio"@) {
                    Ok(ratio) => Ok((OptsView { split_preview: Some((h == "h"@, ratio)), ..o }, 3int)),
                    Err(e) => Err(e),
                },
                Err(e) => Err(e),
            }
        )
    } else if flag == "--wisp-preview"@ {
        Some(
            match value_at(args, 1) {
                Ok(name) => match wisp_style(name) {
                    Some(style) => Ok((OptsView { wisp_preview: Some(style), ..o }, 2int)),
                    None => Err(wisp_error(name)),
                },
                Err(e) => Err(e),
            }
        )
    } else if flag == "--hold-ring"@ {
        Some(
            match figure_at(args, 1, "--hold-ring x"@) {
                Ok(x) => match figure_at(args, 2, "--hold-ring y"@) {
                    Ok(y) => match figure_at(args, 3, "--hold-ring progress"@) {
                        Ok(p) => Ok((OptsView { hold_ring: Some((x, y, p)), ..o }, 4int)),
                        Err(e) => Err(e),
                    },
                    Err(e) => Err(e),
                },
                Err(e) => Err(e),
            }
        )
    } else if flag == "--split"@ {
        Some(
            match value_at(args, 1) {
                Ok(v) => if v == "h"@ || v == "horizontal"@ {
                    Ok((OptsView { split: Some(Axis::Horizontal), ..o }, 2int))
                } else if v == "v"@ || v == "vertical"@ {
                    Ok((OptsView { split: Some(Axis::Vertical), ..o }, 2int))
                } else {
                    Err("--split expects h|v, got "@ + v)
                },
                Err(e) => Err(e),
            }
        )
    } else if flag == "--select"@ {
        Some(
            match selection_at(args) {
                Ok(s) => Ok((OptsView { select: Some(s), ..o }, 2int)),
                Err(e) => Err(e),
            }
        )
    } else {
        None
    }
}

/// The options after the option at the front of `args`, and how many arguments it takes.
pub open spec fn step(args: Seq<Seq<char>>, o: OptsView) -> Result<(OptsView, int), Seq<char>> {
    match switch_step(args, o) {
        Some(r) => r,
        None => match text_step(args, o) {
            Some(r) => r,
            None => match figure_step(args, o) {
                Some(r) => r,
                None => match number_step(args, o) {
                    Some(r) => r,
                    None => match shape_step(args, o) {
                        Some(r) => r,
                        None => Ok((o, 1int)),
                    },
                },
            },
        },
    }
}

/// The options that `args` add to `o`, read from the left.
pub open spec fn scan(args: Seq<Seq<char>>, o: OptsView) -> Result<OptsView, Seq<char>>
    decreases args.len(),
{
    if args.len() == 0 {
        Ok(o)
    } else {
        match step(args, o) {
            Ok((next, taken)) => if 1 <= taken <= args.len() {
                scan(args.skip(taken), next)
            } else {
                Ok(next)
            },
            Err(e) => Err(e),
        }
    }
}

/// The value at `i`; `flag` is the option that needs it.
fn take_value<'a>(args: &'a [String], at: usize, k: usize) -> (r: Result<&'a str, String>)
    requires
        at < args@.len(),
        1 <= k <= 3,
    ensures
        match r {
            Ok(v) => value_at(texts(args@).skip(at as int), k as int) == Ok::<Seq<char>, Seq<char>>(
                v@,
            ),
            Err(e) => value_at(texts(args@).skip(at as int), k as int) == Err::<
                Seq<char>,
                Seq<char>,
            >(e@),
        },
        r is Ok <==> at + k < args@.len(),
{
    let left: usize = args.len() - at;
    if k < left {
        Ok(args[at + k].as_str())
    } else {
        let mut msg = args[at].clone();
        msg.append(" needs a value");
        Err(msg)
    }
}

fn take_figure(args: &[String], at: usize, k: usize, label: &str) -> (r: Result<String, String>)
    requires
        at < args@.len(),
        1 <= k <= 3,
    ensures
        match r {
            Ok(v) => figure_at(texts(args@).skip(at as int), k as int, label@) == Ok::<
                Seq<char>,
                Seq<char>,
            >(v@),
            Err(e) => figure_at(texts(args@).skip(at as int), k as int, label@) == Err::<
                Seq<char>,
                Seq<char>,
            >(e@),
        },
        r is Ok ==> at + k < args@.len(),
{
    match take_value(args, at, k) {
        Ok(v) => match coordinate(v) {
            Ok(_) => Ok(v.to_owned()),
            Err(e) => Err(concat3(label, ": ", e.as_str())),
        },
        Err(e) => Err(e),
    }
}

fn take_whole(args: &[String], at: usize, k: usize, max: u64, label: &str) -> (r: Result<
    u64,
    String,
>)
    requires
        at < args@.len(),
        1 <= k <= 3,
    ensures
        match r {
            Ok(n) => whole_at(texts(args@).skip(at as int), k as int, max as nat, label@) == Ok::<
                nat,
                Seq<char>,
            >(n as nat),
            Err(e) => whole_at(texts(args@).skip(at as int), k as int, max as nat, label@)
                == Err::<nat, Seq<char>>(e@),
        },
        r is Ok ==> at + k < args@.len(),
{
    match take_value(args, at, k) {
        Ok(v) => match parse_up_to(v, max) {
            Ok(n) => Ok(n),
            Err(e) => Err(concat3(label, ": ", e.text())),
        },
        Err(e) => Err(e),
    }
}

fn read_cells(parts: &[String]) -> (r: Result<Vec<u16>, String>)
    ensures
        match r {
            Ok(v) => cells(texts(parts@)) == Ok::<Seq<u16>, Seq<char>>(v@),
            Err(e) => cells(texts(parts@)) == Err::<Seq<u16>, Seq<char>>(e@),
        },
{
    let mut out: Vec<u16> = Vec::new();
    let mut i: usize = 0;
    while i < parts.len()
        invariant
            i <= parts@.len(),
            cells(texts(parts@).take(i as int)) == Ok::<Seq<u16>, Seq<char>>(out@),
        decreases parts@.len() - i,
    {
        let ghost here = texts(parts@).take(i + 1);
        assert(here.drop_last() == texts(parts@).take(i as int));
        assert(here.last() == parts@[i as int]@);
        match parse_up_to(trim(parts[i].as_str()).as_str(), u16::MAX as u64) {
            Ok(n) => {
                out.push(n as u16);
            },
            Err(e) => {
                proof {
                    lemma_cells_error(texts(parts@), i + 1);
                }
                return Err(e.text().to_owned());
            },
        }
        i += 1;
    }
    assert(texts(parts@).take(i as int) == texts(parts@));
    Ok(out)
}

proof fn lemma_cells_error(parts: Seq<Seq<char>>, k: int)
    requires
        0 <= k <= parts.len(),
        cells(parts.take(k)) is Err,
    ensures
        cells(parts) == cells(parts.take(k)),
    decreases parts.len(),
{
    if k == parts.len() {
        assert(parts.take(k) == parts);
    } else {
        assert(parts.drop_last().take(k) == parts.take(k));
        lemma_cells_error(parts.drop_last(), k);
    }
}

fn take_selection(args: &[String], at: usize) -> (r: Result<(u16, u16, u16, u16), String>)
    requires
        at < args@.len(),
    ensures
        match r {
            Ok(s) => selection_at(texts(args@).skip(at as int)) == Ok::<
                (u16, u16, u16, u16),
                Seq<char>,
            >(s),
            Err(e) => selection_at(texts(args@).skip(at as int)) == Err::<
                (u16, u16, u16, u16),
                Seq<char>,
            >(e@),
        },
        r is Ok ==> at + 1 < args@.len(),
{
    match take_value(args, at, 1) {
        Err(e) => Err(e),
        Ok(v) => {
            let parts = split(v, ',');
            match read_cells(parts.as_slice()) {
                Err(e) => {
                    let mut msg = "--select expects r1,c1,r2,c2: ".to_owned();
                    msg.append(e.as_str());
                    Err(msg)
                },
                Ok(nums) => {
                    if nums.len() == 4 {
                        Ok((nums[0], nums[1], nums[2], nums[3]))
                    } else {
                        Err("--select expects r1,c1,r2,c2".to_owned())
                    }
                },
            }
        },
    }
}

/// `r` is what the step at `at` comes to.
pub open spec fn stepped(
    args: Seq<Seq<char>>,
    before: OptsView,
    after: OptsView,
    r: Result<usize, String>,
) -> bool {
    match r {
        Ok(taken) => 1 <= taken <= args.len() && step(args, before) == Ok::<
            (OptsView, int),
            Seq<char>,
        >((after, taken as int)),
        Err(e) => step(args, before) == Err::<(OptsView, int), Seq<char>>(e@),
    }
}

/// `r` is what a group of options makes of the one at the front.
pub open spec fn taken_by(
    group: Option<Result<(OptsView, int), Seq<char>>>,
    args: Seq<Seq<char>>,
    before: OptsView,
    after: OptsView,
    r: Option<Result<usize, String>>,
) -> bool {
    match r {
        Some(Ok(taken)) => 1 <= taken <= args.len() && group == Some(
            Ok::<(OptsView, int), Seq<char>>((after, taken as int)),
        ),
        Some(Err(e)) => group == Some(Err::<(OptsView, int), Seq<char>>(e@)),
        None => group is None && after == before,
    }
}

fn take_switch_option(args: &[String], at: usize, o: &mut Opts) -> (r: Option<Result<usize, String>>)
    requires
        at < args@.len(),
    ensures
        taken_by(
            switch_step(texts(args@).skip(at as int), old(o)@),
            texts(args@).skip(at as int),
            old(o)@,
            final(o)@,
            r,
        ),
{
    let flag = args[at].as_str();
    let ghost words = texts(args@).skip(at as int);
    assert(words[0] == flag@);
    assert(words.len() == args@.len() - at);
    if same(flag, "--confirm") {
        o.confirm = true;
        return Some(Ok(1));
    }
    if same(flag, "--help-overlay") {
        o.help_overlay = true;
        return Some(Ok(1));
    }
    if same(flag, "--settings") {
        o.settings = true;
        return Some(Ok(1));
    }
    if same(flag, "--backdrop") {
        o.backdrop = true;
        return Some(Ok(1));
    }
    if same(flag, "--ember") {
        o.backdrop = true;
        o.ember = true;
        return Some(Ok(1));
    }
    None
}

fn take_text_option(args: &[String], at: usize, o: &mut Opts) -> (r: Option<Result<usize, String>>)
    requires
        at < args@.len(),
    ensures
        taken_by(
            text_step(texts(args@).skip(at as int), old(o)@),
            texts(args@).skip(at as int),
            old(o)@,
            final(o)@,
            r,
        ),
{
    let flag = args[at].as_str();
    let ghost words = texts(args@).skip(at as int);
    assert(words[0] == flag@);
    assert(words.len() == args@.len() - at);
    if same(flag, "--screenshot") {
        o.path = match take_value(args, at, 1) {
            Ok(v) => v.to_owned(),
            Err(e) => return Some(Err(e)),
        };
        return Some(Ok(2));
    }
    if same(flag, "--font") {
        o.font = match take_value(args, at, 1) {
            Ok(v) => Some(v.to_owned()),
            Err(e) => return Some(Err(e)),
        };
        return Some(Ok(2));
    }
    if same(flag, "--bg-image") {
        o.bg_image = match take_value(args, at, 1) {
            Ok(v) => Some(v.to_owned()),
            Err(e) => return Some(Err(e)),
        };
        return Some(Ok(2));
    }
    if same(flag, "--bg-fit") {
        o.bg_fit = match take_value(args, at, 1) {
            Ok(v) => v.to_owned(),
            Err(e) => return Some(Err(e)),
        };
        return Some(Ok(2));
    }
    if same(flag, "--select-mode") {
        o.select_mode = match take_value(args, at, 1) {
            Ok(v) => v.to_owned(),
            Err(e) => return Some(Err(e)),
        };
        return Some(Ok(2));
    }
    if same(flag, "--fps") {
        o.fps = match take_value(args, at, 1) {
            Ok(v) => Some(v.to_owned()),
            Err(e) => return Some(Err(e)),
        };
        return Some(Ok(2));
    }
    if same(flag, "--run") {
        let v = match take_value(args, at, 1) {
            Ok(v) => v.to_owned(),
            Err(e) => return Some(Err(e)),
        };
        let ghost before = o.runs@;
        let ghost run = v@;
        o.runs.push(v);
        assert(texts(o.runs@) == texts(before).push(run));
        return Some(Ok(2));
    }
    None
}

fn take_figure_option(args: &[String], at: usize, o: &mut Opts) -> (r: Option<Result<usize, String>>)
    requires
        at < args@.len(),
    ensures
        taken_by(
            figure_step(texts(args@).skip(at as int), old(o)@),
            texts(args@).skip(at as int),
            old(o)@,
            final(o)@,
            r,
        ),
{
    let flag = args[at].as_str();
    let ghost words = texts(args@).skip(at as int);
    assert(words[0] == flag@);
    assert(words.len() == args@.len() - at);
    if same(flag, "--scale") {
        o.scale = match take_figure(args, at, 1, flag) {
            Ok(v) => Figure::Text(v),
            Err(e) => return Some(Err(e)),
        };
        return Some(Ok(2));
    }
    if same(flag, "--font-size") {
        o.font_size = match take_figure(args, at, 1, flag) {
            Ok(v) => Figure::Text(v),
            Err(e) => return Some(Err(e)),
        };
        return Some(Ok(2));
    }
    if same(flag, "--width") {
        o.width = match take_figure(args, at, 1, flag) {
            Ok(v) => Figure::Text(v),
            Err(e) => return Some(Err(e)),
        };
        return Some(Ok(2));
    }
    if same(flag, "--height") {
        o.height = match take_figure(args, at, 1, flag) {
            Ok(v) => Figure::Text(v),
            Err(e) => return Some(Err(e)),
        };
        return Some(Ok(2));
    }
    if same(flag, "--ember-phase") {
        o.ember_phase = match take_figure(args, at, 1, flag) {
            Ok(v) => Figure::Text(v),
            Err(e) => return Some(Err(e)),
        };
        return Some(Ok(2));
    }
    if same(flag, "--bell") {
        o.bell = match take_figure(args, at, 1, flag) {
            Ok(v) => Figure::Text(v),
            Err(e) => return Some(Err(e)),
        };
        return Some(Ok(2));
    }
    None
}

fn take_number_option(args: &[String], at: usize, o: &mut Opts) -> (r: Option<Result<usize, String>>)
    requires
        at < args@.len(),
    ensures
        taken_by(
            number_step(texts(args@).skip(at as int), old(o)@),
            texts(args@).skip(at as int),
            old(o)@,
            final(o)@,
            r,
        ),
{
    let flag = args[at].as_str();
    let ghost words = texts(args@).skip(at as int);
    assert(words[0] == flag@);
    assert(words.len() == args@.len() - at);
    if same(flag, "--tabs") {
        o.tabs = match take_whole(args, at, 1, usize::MAX as u64, flag) {
            Ok(n) => n as usize,
            Err(e) => return Some(Err(e)),
        };
        return Some(Ok(2));
    }
    if same(flag, "--hover-tab") {
        o.hover_tab = match take_whole(args, at, 1, usize::MAX as u64, flag) {
            Ok(n) => Some(n as usize),
            Err(e) => return Some(Err(e)),
        };
        return Some(Ok(2));
    }
    if same(flag, "--settle") {
        o.settle_ms = match take_whole(args, at, 1, u64::MAX, flag) {
            Ok(n) => n,
            Err(e) => return Some(Err(e)),
        };
        return Some(Ok(2));
    }
    if same(flag, "--bell-tab") {
        o.bell_tab = match take_whole(args, at, 1, usize::MAX as u64, flag) {
            Ok(n) => Some(n as usize),
            Err(e) => return Some(Err(e)),
        };
        return Some(Ok(2));
    }
    None
}

fn take_shape_option(args: &[String], at: usize, o: &mut Opts) -> (r: Option<Result<usize, String>>)
    requires
        at < args@.len(),
    ensures
        taken_by(
            shape_step(texts(args@).skip(at as int), old(o)@),
            texts(args@).skip(at as int),
            old(o)@,
            final(o)@,
            r,
        ),
{
    let flag = args[at].as_str();
    let ghost words = texts(args@).skip(at as int);
    assert(words[0] == flag@);
    assert(words.len() == args@.len() - at);
    if same(flag, "--tab-drag") {
        let slot: u64 = match take_whole(args, at, 1, usize::MAX as u64, "--tab-drag slot") {
            Ok(n) => n,
            Err(e) => return Some(Err(e)),
        };
        o.tab_drag = match take_figure(args, at, 2, "--tab-drag x") {
            Ok(x) => Some((slot as usize, x)),
            Err(e) => return Some(Err(e)),
        };
        return Some(Ok(3));
    }
    if same(flag, "--split-preview") {
        let h = match take_value(args, at, 1) {
            Ok(v) => same(v, "h"),
            Err(e) => return Some(Err(e)),
        };
        o.split_preview = match take_figure(args, at, 2, "--split-preview ratio") {
            Ok(ratio) => Some((h, ratio)),
            Err(e) => return Some(Err(e)),
        };
        return Some(Ok(3));
    }
    if same(flag, "--wisp-preview") {
        o.wisp_preview = match take_value(args, at, 1) {
            Ok(name) => match parse_wisp_style(name) {
                Ok(style) => Some(style),
                Err(e) => return Some(Err(e)),
            },
            Err(e) => return Some(Err(e)),
        };
        return Some(Ok(2));
    }
    if same(flag, "--hold-ring") {
        let x = match take_figure(args, at, 1, "--hold-ring x") {
            Ok(v) => v,
            Err(e) => return Some(Err(e)),
        };
        let y = match take_figure(args, at, 2, "--hold-ring y") {
            Ok(v) => v,
            Err(e) => return Some(Err(e)),
        };
        o.hold_ring = match take_figure(args, at, 3, "--hold-ring progress") {
            Ok(p) => Some((x, y, p)),
            Err(e) => return Some(Err(e)),
        };
        return Some(Ok(4));
    }
    if same(flag, "--split") {
        let v = match take_value(args, at, 1) {
            Ok(v) => v,
            Err(e) => return Some(Err(e)),
        };
        if same(v, "h") || same(v, "horizontal") {
            o.split = Some(Axis::Horizontal);
        } else if same(v, "v") || same(v, "vertical") {
            o.split = Some(Axis::Vertical);
        } else {
            let mut msg = "--split expects h|v, got ".to_owned();
            msg.append(v);
            return Some(Err(msg));
        }
        return Some(Ok(2));
    }
    if same(flag, "--select") {
        o.select = match take_selection(args, at) {
            Ok(s) => Some(s),
            Err(e) => return Some(Err(e)),
        };
        return Some(Ok(2));
    }
    None
}

fn take_option(args: &[String], at: usize, o: &mut Opts) -> (r: Result<usize, String>)
    requires
        at < args@.len(),
    ensures
        stepped(texts(args@).skip(at as int), old(o)@, final(o)@, r),
{
    assert(texts(args@).skip(at as int).len() == args@.len() - at);
    if let Some(r) = take_switch_option(args, at, o) {
        return r;
    }
    if let Some(r) = take_text_option(args, at, o) {
        return r;
    }
    if let Some(r) = take_figure_option(args, at, o) {
        return r;
    }
    if let Some(r) = take_number_option(args, at, o) {
        return r;
    }
    if let Some(r) = take_shape_option(args, at, o) {
        return r;
    }
    Ok(1)
}

/// The options that the arguments stand for: at least one tab.
pub open spec fn parsed(args: Seq<Seq<char>>) -> Result<OptsView, Seq<char>> {
    match scan(args, default_opts()) {
        Ok(o) => Ok(OptsView { tabs: if o.tabs < 1 { 1 } else { o.tabs }, ..o }),
        Err(e) => Err(e),
    }
}

/// Reads the options of `--screenshot`. What is no option is passed over.
pub fn parse(args: &[String]) -> (r: Result<Opts, String>)
    ensures
        match r {
            Ok(o) => parsed(texts(args@)) == Ok::<OptsView, Seq<char>>(o@),
            Err(e) => parsed(texts(args@)) == Err::<OptsView, Seq<char>>(e@),
        },
{
    let mut opts = Opts::default();
    let mut i: usize = 0;
    let ghost all = texts(args@);
    assert(all.skip(0) == all);
    while i < args.len()
        invariant
            i <= args@.len(),
            all == texts(args@),
            scan(all, default_opts()) == scan(all.skip(i as int), opts@),
        decreases args@.len() - i,
    {
        let ghost rest = all.skip(i as int);
        match take_option(args, i, &mut opts) {
            Ok(taken) => {
                assert(rest.skip(taken as int) == all.skip(i + taken));
                i += taken;
            },
            Err(e) => return Err(e),
        }
    }
    assert(all.skip(i as int).len() == 0);
    if opts.tabs < 1 {
        opts.tabs = 1;
    }
    Ok(opts)
}

// ---- the scene -------------------------------------------------------------

/// One step of laying out the scene.
#[derive(Debug, PartialEq, Eq)]
pub enum SceneStep {
    /// The first tab with its pane.
    Seed { pane: PaneId, session: SessionId },
    /// Split the first pane in half.
    Split { target: PaneId, axis: Axis, pane: PaneId, session: SessionId },
    /// A further tab.
    NewTab { id: TabId, pane: PaneId, session: SessionId },
}

pub enum SceneStepView {
    Seed { pane: PaneId, session: Seq<char> },
    Split { target: PaneId, axis: Axis, pane: PaneId, session: Seq<char> },
    NewTab { id: TabId, pane: PaneId, session: Seq<char> },
}

impl SceneStep {
    pub open spec fn view(&self) -> SceneStepView {
        match *self {
            SceneStep::Seed { pane, session } => SceneStepView::Seed { pane, session: session@ },
            SceneStep::Split { target, axis, pane, session } => SceneStepView::Split {
                target,
                axis,
                pane,
                session: session@,
            },
            SceneStep::NewTab { id, pane, session } => SceneStepView::NewTab {
                id,
                pane,
                session: session@,
            },
        }
    }
}

/// The `k`-th step: the panes and sessions are numbered from 1 in the order they are made, and
/// so are the tabs.
pub open spec fn scene_step(split: Option<Axis>, k: int) -> SceneStepView {
    let pane = PaneId((k + 1) as u64);
    let session = session_name((k + 1) as nat);
    if k == 0 {
        SceneStepView::Seed { pane, session }
    } else {
        match split {
            Some(axis) => if k == 1 {
                SceneStepView::Split { target: PaneId(1), axis, pane, session }
            } else {
                SceneStepView::NewTab { id: TabId(k as u64), pane, session }
            },
            None => SceneStepView::NewTab { id: TabId((k + 1) as u64), pane, session },
        }
    }
}

/// How the scene is laid out: one tab, split where that is asked for, and the other tabs.
pub fn scene_steps(opts: &Opts) -> (r: Vec<SceneStep>)
    requires
        1 <= opts.tabs < usize::MAX,
    ensures
        r@.len() == opts.tabs + (if opts.split is Some { 1int } else { 0 }),
        forall|k: int| 0 <= k < r@.len() ==> (#[trigger] r@[k])@ == scene_step(opts.split, k),
{
    let mut out: Vec<SceneStep> = Vec::new();
    out.push(SceneStep::Seed { pane: PaneId(1), session: session_named(1) });
    let mut made: u64 = 1;
    if let Some(axis) = opts.split {
        out.push(
            SceneStep::Split {
                target: PaneId(1),
                axis,
                pane: PaneId(2),
                session: session_named(2),
            },
        );
        made = 2;
    }
    let mut t: usize = 1;
    while t < opts.tabs
        invariant
            1 <= t <= opts.tabs < usize::MAX,
            made == out@.len(),
            made == t + (if opts.split is Some { 1int } else { 0 }),
            forall|k: int|
                0 <= k < out@.len() ==> (#[trigger] out@[k])@ == scene_step(opts.split, k),
        decreases opts.tabs - t,
    {
        made += 1;
        out.push(
            SceneStep::NewTab {
                id: TabId((t + 1) as u64),
                pane: PaneId(made),
                session: session_named(made),
            },
        );
        t += 1;
    }
    out
}

/// No two steps make the same pane or the same session.
pub proof fn law_scene_ids_are_fresh(split: Option<Axis>, i: int, j: int)
    requires
        0 <= i < j < u64::MAX,
    ensures
        scene_pane(scene_step(split, i)) != scene_pane(scene_step(split, j)),
        scene_session(scene_step(split, i)) != scene_session(scene_step(split, j)),
{
    let (a, b) = (session_name((i + 1) as nat), session_name((j + 1) as nat));
    crate::text::lemma_decimal((i + 1) as nat);
    crate::text::lemma_decimal((j + 1) as nat);
    reveal_strlit("s");
    assert(a.skip(1) == decimal((i + 1) as nat));
    assert(b.skip(1) == decimal((j + 1) as nat));
}

pub open spec fn scene_pane(s: SceneStepView) -> PaneId {
    match s {
        SceneStepView::Seed { pane, .. } => pane,
        SceneStepView::Split { pane, .. } => pane,
        SceneStepView::NewTab { pane, .. } => pane,
    }
}

pub open spec fn scene_session(s: SceneStepView) -> Seq<char> {
    match s {
        SceneStepView::Seed { session, .. } => session,
        SceneStepView::Split { session, .. } => session,
        SceneStepView::NewTab { session, .. } => session,
    }
}

/// A pane of the picture: what is typed into its shell, and whether it has the focus.
#[derive(Debug, PartialEq, Eq)]
pub struct PanePlan {
    pub pane: PaneId,
    pub line: Option<String>,
    pub focused: bool,
}

/// A tab of the strip.
#[derive(Debug, PartialEq, Eq)]
pub struct TabLabel {
    pub title: String,
    pub active: bool,
    pub bell: bool,
}

/// The picture, apart from its measures.
#[derive(Debug, PartialEq, Eq)]
pub struct ScenePlan {
    pub panes: Vec<PanePlan>,
    pub tabs: Vec<TabLabel>,
    /// The selection on the focused pane.
    pub selection: Option<((u16, u16, u16, u16), SelectionMode)>,
    /// Whether the background is darkened under the text.
    pub scrim: bool,
}

pub open spec fn pane_planned(
    p: PanePlan,
    leaf: (PaneId, Seq<char>),
    i: int,
    runs: Seq<Seq<char>>,
    focus: Option<Seq<char>>,
) -> bool {
    &&& p.pane == leaf.0
    &&& p.focused == (focus == Some(leaf.1))
    &&& opt_text(p.line) == if i < runs.len() && runs[i].len() > 0 {
        Some(runs[i].push('\n'))
    } else {
        None
    }
}

pub open spec fn label_planned(l: TabLabel, tab: Tab, i: int, active: usize, bell: Option<usize>) -> bool {
    &&& l.title@ == if tab.title@.len() == 0 { decimal((i + 1) as nat) } else { tab.title@ }
    &&& l.active == (i == active)
    &&& l.bell == (bell is Some && bell->0 == i)
}

pub open spec fn scene_planned(o: OptsView, tree: WindowTree, plan: ScenePlan) -> bool {
    let root = tree.tabs@[0].root;
    let focus = root.spec_session_of(tree.tabs@[0].focus);
    &&& plan.panes@.len() == root.spec_panes().len()
    &&& forall|i: int|
        0 <= i < plan.panes@.len() ==> pane_planned(
            #[trigger] plan.panes@[i],
            root.spec_panes()[i],
            i,
            o.runs,
            focus,
        )
    &&& plan.tabs@.len() == tree.tabs@.len()
    &&& forall|i: int|
        0 <= i < plan.tabs@.len() ==> label_planned(
            #[trigger] plan.tabs@[i],
            tree.tabs@[i],
            i,
            tree.active,
            o.bell_tab,
        )
    &&& plan.selection == match o.select {
        Some(s) => Some((s, selection_mode(o.select_mode))),
        None => None,
    }
    &&& plan.scrim == (o.backdrop || o.bg_image is Some)
}

fn plan_panes(opts: &Opts, tree: &WindowTree) -> (r: Vec<PanePlan>)
    requires
        tree.tabs@.len() > 0,
    ensures
        ({
            let root = tree.tabs@[0].root;
            let focus = root.spec_session_of(tree.tabs@[0].focus);
            &&& r@.len() == root.spec_panes().len()
            &&& forall|i: int|
                0 <= i < r@.len() ==> pane_planned(
                    #[trigger] r@[i],
                    root.spec_panes()[i],
                    i,
                    opts@.runs,
                    focus,
                )
        }),
{
    let tab = &tree.tabs[0];
    let leaves = tab.root.leaves();
    let focus_session = tab.root.session_of(tab.focus);
    let ghost root = tree.tabs@[0].root;
    let ghost focus = root.spec_session_of(tree.tabs@[0].focus);
    let mut out: Vec<PanePlan> = Vec::new();
    let mut i: usize = 0;
    assert(crate::layout::panes_view(leaves@).len() == leaves@.len());
    while i < leaves.len()
        invariant
            i <= leaves@.len(),
            i == out@.len(),
            crate::layout::panes_view(leaves@) == root.spec_panes(),
            match focus_session {
                Some(s) => focus == Some(s@),
                None => focus is None,
            },
            forall|j: int|
                0 <= j < out@.len() ==> pane_planned(
                    #[trigger] out@[j],
                    root.spec_panes()[j],
                    j,
                    opts@.runs,
                    focus,
                ),
        decreases leaves@.len() - i,
    {
        let leaf = &leaves[i];
        assert(root.spec_panes()[i as int] == (leaf.0, leaf.1@));
        let focused = match focus_session {
            Some(s) => s.is(&leaf.1),
            None => false,
        };
        let mut line: Option<String> = None;
        if i < opts.runs.len() {
            assert(opts@.runs[i as int] == opts.runs@[i as int]@);
            if !opts.runs[i].as_str().is_empty() {
                let mut text = opts.runs[i].clone();
                text.push('\n');
                line = Some(text);
            }
        }
        out.push(PanePlan { pane: leaf.0, line, focused });
        i += 1;
    }
    out
}

fn plan_labels(opts: &Opts, tree: &WindowTree) -> (r: Vec<TabLabel>)
    ensures
        r@.len() == tree.tabs@.len(),
        forall|i: int|
            0 <= i < r@.len() ==> label_planned(
                #[trigger] r@[i],
                tree.tabs@[i],
                i,
                tree.active,
                opts.bell_tab,
            ),
{
    let mut out: Vec<TabLabel> = Vec::new();
    let mut i: usize = 0;
    while i < tree.tabs.len()
        invariant
            i <= tree.tabs@.len(),
            i == out@.len(),
            forall|j: int|
                0 <= j < out@.len() ==> label_planned(
                    #[trigger] out@[j],
                    tree.tabs@[j],
                    j,
                    tree.active,
                    opts.bell_tab,
                ),
        decreases tree.tabs@.len() - i,
    {
        let title = if tree.tabs[i].title.as_str().is_empty() {
            to_decimal(i as u64 + 1)
        } else {
            tree.tabs[i].title.clone()
        };
        let bell = match opts.bell_tab {
            Some(b) => b == i,
            None => false,
        };
        out.push(TabLabel { title, active: i == tree.active, bell });
        i += 1;
    }
    out
}

/// The picture of a laid out scene. A background image that was asked for and could not be
/// loaded is an error.
pub fn compose(opts: &Opts, tree: &WindowTree, image_loaded: bool) -> (r: Result<ScenePlan, String>)
    requires
        tree.tabs@.len() > 0,
    ensures
        match r {
            Ok(plan) => (opts.bg_image is None || image_loaded) && scene_planned(
                opts@,
                *tree,
                plan,
            ),
            Err(e) => opts.bg_image is Some && !image_loaded && e@ == "--bg-image: could not load "@
                + quoted_of(opts.bg_image->0@) + " as a PNG"@,
        },
{
    let panes = plan_panes(opts, tree);
    let tabs = plan_labels(opts, tree);
    let selection = match opts.select {
        Some(s) => Some((s, parse_selection_mode(opts.select_mode.as_str()))),
        None => None,
    };
    match &opts.bg_image {
        Some(image) => {
            if !image_loaded {
                return Err(
                    concat3(
                        "--bg-image: could not load ",
                        quoted(image.as_str()).as_str(),
                        " as a PNG",
                    ),
                );
            }
        },
        None => {},
    }
    let scrim = opts.backdrop || opts.bg_image.is_some();
    Ok(ScenePlan { panes, tabs, selection, scrim })
}

/// The settings row that a picture of the settings highlights: the font, or the second row.
pub fn settings_highlight(labels: &[String]) -> (r: usize)
    ensures
        r == (match crate::layout::first_index(texts(labels@), "Font family"@) {
            Some(i) => i,
            None => 1,
        }),
{
    let ghost all = texts(labels@);
    let mut i: usize = 0;
    proof {
        crate::layout::lemma_first_index(all, "Font family"@);
    }
    while i < labels.len()
        invariant
            i <= labels@.len(),
            all == texts(labels@),
            forall|j: int| 0 <= j < i ==> all[j] != "Font family"@,
        decreases labels@.len() - i,
    {
        if same(labels[i].as_str(), "Font family") {
            proof {
                crate::layout::lemma_first_index_is(all, "Font family"@, i as int);
            }
            return i;
        }
        assert(all[i as int] == labels@[i as int]@);
        i += 1;
    }
    1
}

// ---- flags -----------------------------------------------------------------

proof fn lemma_flags_differ()
    ensures
        "--fps"@.len() == 5,
        "--run"@.len() == 5,
        "--fps"@[2] == 'f',
        "--run"@[2] == 'r',
        "--font"@.len() == 6,
        "--bell"@.len() == 6,
        "--tabs"@.len() == 6,
        "--bell"@[2] == 'b',
        "--font"@[2] == 'f',
        "--tabs"@[2] == 't',
        "--ember"@.len() == 7,
        "--scale"@.len() == 7,
        "--width"@.len() == 7,
        "--split"@.len() == 7,
        "--ember"@[2] == 'e',
        "--scale"@[2] == 's',
        "--scale"@[3] == 'c',
        "--split"@[2] == 's',
        "--split"@[3] == 'p',
        "--width"@[2] == 'w',
        "--bg-fit"@.len() == 8,
        "--height"@.len() == 8,
        "--settle"@.len() == 8,
        "--select"@.len() == 8,
        "--bg-fit"@[2] == 'b',
        "--height"@[2] == 'h',
        "--select"@[2] == 's',
        "--select"@[4] == 'l',
        "--settle"@[2] == 's',
        "--settle"@[4] == 't',
        "--confirm"@.len() == 9,
        "--settings"@.len() == 10,
        "--backdrop"@.len() == 10,
        "--bg-image"@.len() == 10,
        "--bell-tab"@.len() == 10,
        "--tab-drag"@.len() == 10,
        "--backdrop"@[2] == 'b',
        "--backdrop"@[3] == 'a',
        "--bell-tab"@[2] == 'b',
        "--bell-tab"@[3] == 'e',
        "--bg-image"@[2] == 'b',
        "--bg-image"@[3] == 'g',
        "--settings"@[2] == 's',
        "--tab-drag"@[2] == 't',
        "--font-size"@.len() == 11,
        "--hover-tab"@.len() == 11,
        "--hold-ring"@.len() == 11,
        "--font-size"@[2] == 'f',
        "--hold-ring"@[2] == 'h',
        "--hold-ring"@[4] == 'l',
        "--hover-tab"@[2] == 'h',
        "--hover-tab"@[4] == 'v',
        "--screenshot"@.len() == 12,
        "--select-mode"@.len() == 13,
        "--ember-phase"@.len() == 13,
        "--ember-phase"@[2] == 'e',
        "--select-mode"@[2] == 's',
        "--help-overlay"@.len() == 14,
        "--wisp-preview"@.len() == 14,
        "--help-overlay"@[2] == 'h',
        "--wisp-preview"@[2] == 'w',
        "--split-preview"@.len() == 15,
{
    reveal_strlit("--confirm");
    reveal_strlit("--help-overlay");
    reveal_strlit("--settings");
    reveal_strlit("--backdrop");
    reveal_strlit("--ember");
    reveal_strlit("--screenshot");
    reveal_strlit("--font");
    reveal_strlit("--bg-image");
    reveal_strlit("--bg-fit");
    reveal_strlit("--select-mode");
    reveal_strlit("--fps");
    reveal_strlit("--run");
    reveal_strlit("--scale");
    reveal_strlit("--font-size");
    reveal_strlit("--width");
    reveal_strlit("--height");
    reveal_strlit("--ember-phase");
    reveal_strlit("--bell");
    reveal_strlit("--tabs");
    reveal_strlit("--hover-tab");
    reveal_strlit("--settle");
    reveal_strlit("--bell-tab");
    reveal_strlit("--tab-drag");
    reveal_strlit("--split-preview");
    reveal_strlit("--wisp-preview");
    reveal_strlit("--hold-ring");
    reveal_strlit("--split");
    reveal_strlit("--select");
}

/// The switches take no value: each turns on what it names, and the ember a backdrop too.
#[verifier::rlimit(50)]
pub proof fn law_switches_turn_on(rest: Seq<Seq<char>>, o: OptsView)
    ensures
        scan(seq!["--confirm"@] + rest, o) == scan(rest, OptsView { confirm: true, ..o }),
        scan(seq!["--help-overlay"@] + rest, o) == scan(rest, OptsView { help_overlay: true, ..o }),
        scan(seq!["--settings"@] + rest, o) == scan(rest, OptsView { settings: true, ..o }),
        scan(seq!["--backdrop"@] + rest, o) == scan(rest, OptsView { backdrop: true, ..o }),
        scan(seq!["--ember"@] + rest, o) == scan(rest, OptsView { backdrop: true, ember: true, ..o }),
{
    lemma_flags_differ();
    assert((seq!["--confirm"@] + rest).skip(1) =~= rest);
    assert((seq!["--help-overlay"@] + rest).skip(1) =~= rest);
    assert((seq!["--settings"@] + rest).skip(1) =~= rest);
    assert((seq!["--backdrop"@] + rest).skip(1) =~= rest);
    assert((seq!["--ember"@] + rest).skip(1) =~= rest);
}

/// The flags that take a text keep it as it is; each line to run is kept, in order.
#[verifier::rlimit(50)]
pub proof fn law_texts_are_kept(rest: Seq<Seq<char>>, o: OptsView, v: Seq<char>)
    ensures
        scan(seq!["--screenshot"@, v] + rest, o) == scan(rest, OptsView { path: v, ..o }),
        scan(seq!["--font"@, v] + rest, o) == scan(rest, OptsView { font: Some(v), ..o }),
        scan(seq!["--bg-image"@, v] + rest, o) == scan(rest, OptsView { bg_image: Some(v), ..o }),
        scan(seq!["--bg-fit"@, v] + rest, o) == scan(rest, OptsView { bg_fit: v, ..o }),
        scan(seq!["--select-mode"@, v] + rest, o) == scan(rest, OptsView { select_mode: v, ..o }),
        scan(seq!["--fps"@, v] + rest, o) == scan(rest, OptsView { fps: Some(v), ..o }),
        scan(seq!["--run"@, v] + rest, o) == scan(rest, OptsView { runs: o.runs.push(v), ..o }),
        scan(seq!["--screenshot"@], o) is Err,
        scan(seq!["--run"@], o) is Err,
{
    lemma_flags_differ();
    assert((seq!["--screenshot"@, v] + rest).skip(2) =~= rest);
    assert((seq!["--font"@, v] + rest).skip(2) =~= rest);
    assert((seq!["--bg-image"@, v] + rest).skip(2) =~= rest);
    assert((seq!["--bg-fit"@, v] + rest).skip(2) =~= rest);
    assert((seq!["--select-mode"@, v] + rest).skip(2) =~= rest);
    assert((seq!["--fps"@, v] + rest).skip(2) =~= rest);
    assert((seq!["--run"@, v] + rest).skip(2) =~= rest);
}

/// The flags that take a figure keep its text, where it is one.
#[verifier::rlimit(50)]
pub proof fn law_figures_are_kept(rest: Seq<Seq<char>>, o: OptsView, v: Seq<char>)
    requires
        coordinate_parsed(v) is Ok,
    ensures
        scan(seq!["--scale"@, v] + rest, o) == scan(
            rest,
            OptsView { scale: FigureView::Text(v), ..o },
        ),
        scan(seq!["--font-size"@, v] + rest, o) == scan(
            rest,
            OptsView { font_size: FigureView::Text(v), ..o },
        ),
        scan(seq!["--width"@, v] + rest, o) == scan(
            rest,
            OptsView { width: FigureView::Text(v), ..o },
        ),
        scan(seq!["--height"@, v] + rest, o) == scan(
            rest,
            OptsView { height: FigureView::Text(v), ..o },
        ),
        scan(seq!["--ember-phase"@, v] + rest, o) == scan(
            rest,
            OptsView { ember_phase: FigureView::Text(v), ..o },
        ),
        scan(seq!["--bell"@, v] + rest, o) == scan(
            rest,
            OptsView { bell: FigureView::Text(v), ..o },
        ),
{
    lemma_flags_differ();
    assert((seq!["--scale"@, v] + rest).skip(2) =~= rest);
    assert((seq!["--font-size"@, v] + rest).skip(2) =~= rest);
    assert((seq!["--width"@, v] + rest).skip(2) =~= rest);
    assert((seq!["--height"@, v] + rest).skip(2) =~= rest);
    assert((seq!["--ember-phase"@, v] + rest).skip(2) =~= rest);
    assert((seq!["--bell"@, v] + rest).skip(2) =~= rest);
}

/// The flags that take a whole number read it.
#[verifier::rlimit(50)]
pub proof fn law_whole_numbers_are_read(rest: Seq<Seq<char>>, o: OptsView, n: usize, ms: u64)
    ensures
        scan(seq!["--tabs"@, decimal(n as nat)] + rest, o) == scan(rest, OptsView { tabs: n, ..o }),
        scan(seq!["--hover-tab"@, decimal(n as nat)] + rest, o) == scan(rest, OptsView { hover_tab: Some(n), ..o }),
        scan(seq!["--bell-tab"@, decimal(n as nat)] + rest, o) == scan(rest, OptsView { bell_tab: Some(n), ..o }),
        scan(seq!["--settle"@, decimal(ms as nat)] + rest, o) == scan(rest, OptsView { settle_ms: ms, ..o }),
{
    lemma_flags_differ();
    crate::text::law_written_numbers_are_read(n as nat, usize::MAX as nat);
    crate::text::law_written_numbers_are_read(ms as nat, u64::MAX as nat);
    assert((seq!["--tabs"@, decimal(n as nat)] + rest).skip(2) =~= rest);
    assert((seq!["--hover-tab"@, decimal(n as nat)] + rest).skip(2) =~= rest);
    assert((seq!["--bell-tab"@, decimal(n as nat)] + rest).skip(2) =~= rest);
    assert((seq!["--settle"@, decimal(ms as nat)] + rest).skip(2) =~= rest);
}

proof fn lemma_axes_differ()
    ensures
        "h"@.len() == 1 && "v"@.len() == 1 && "h"@[0] == 'h' && "v"@[0] == 'v',
        "horizontal"@.len() == 10 && "vertical"@.len() == 8,
{
    reveal_strlit("h");
    reveal_strlit("v");
    reveal_strlit("horizontal");
    reveal_strlit("vertical");
}

/// A split is side by side for `h` and stacked for `v`, also by their full names; a preview of
/// one, a dragged tab and a ring keep their figures in order.
#[verifier::rlimit(50)]
pub proof fn law_shapes_are_read(rest: Seq<Seq<char>>, o: OptsView, a: Seq<char>, b: Seq<char>, c: Seq<char>, n: usize)
    requires
        coordinate_parsed(a) is Ok && coordinate_parsed(b) is Ok && coordinate_parsed(c) is Ok,
    ensures
        scan(seq!["--split"@, "h"@] + rest, o) == scan(
            rest,
            OptsView { split: Some(Axis::Horizontal), ..o },
        ),
        scan(seq!["--split"@, "horizontal"@] + rest, o) == scan(
            rest,
            OptsView { split: Some(Axis::Horizontal), ..o },
        ),
        scan(seq!["--split"@, "v"@] + rest, o) == scan(
            rest,
            OptsView { split: Some(Axis::Vertical), ..o },
        ),
        scan(seq!["--split"@, "vertical"@] + rest, o) == scan(
            rest,
            OptsView { split: Some(Axis::Vertical), ..o },
        ),
        scan(seq!["--split-preview"@, "h"@, a] + rest, o) == scan(
            rest,
            OptsView { split_preview: Some((true, a)), ..o },
        ),
        scan(seq!["--split-preview"@, "v"@, a] + rest, o) == scan(
            rest,
            OptsView { split_preview: Some((false, a)), ..o },
        ),
        scan(seq!["--tab-drag"@, decimal(n as nat), a] + rest, o) == scan(
            rest,
            OptsView { tab_drag: Some((n, a)), ..o },
        ),
        scan(seq!["--hold-ring"@, a, b, c] + rest, o) == scan(
            rest,
            OptsView { hold_ring: Some((a, b, c)), ..o },
        ),
{
    lemma_flags_differ();
    lemma_axes_differ();
    crate::text::law_written_numbers_are_read(n as nat, usize::MAX as nat);
    assert((seq!["--split"@, "h"@] + rest).skip(2) =~= rest);
    assert((seq!["--split"@, "horizontal"@] + rest).skip(2) =~= rest);
    assert((seq!["--split"@, "v"@] + rest).skip(2) =~= rest);
    assert((seq!["--split"@, "vertical"@] + rest).skip(2) =~= rest);
    assert((seq!["--split-preview"@, "h"@, a] + rest).skip(3) =~= rest);
    assert((seq!["--split-preview"@, "v"@, a] + rest).skip(3) =~= rest);
    assert((seq!["--tab-drag"@, decimal(n as nat), a] + rest).skip(3) =~= rest);
    assert((seq!["--hold-ring"@, a, b, c] + rest).skip(4) =~= rest);
}

/// The styles of wisps by their names, in any case; `ember` is another name for the cinder.
#[verifier::rlimit(50)]
pub proof fn law_wisps_have_names(name: Seq<char>, rest: Seq<Seq<char>>, o: OptsView, style: WispStyle)
    ensures
        ascii_lower(name) == "cinder"@ || ascii_lower(name) == "ember"@ <==> wisp_style(name)
            == Some(WispStyle::Cinder),
        ascii_lower(name) == "coal"@ <==> wisp_style(name) == Some(WispStyle::Coal),
        ascii_lower(name) == "willowisp"@ <==> wisp_style(name) == Some(WispStyle::WillOWisp),
        ascii_lower(name) == "comet"@ <==> wisp_style(name) == Some(WispStyle::Comet),
        ascii_lower(name) == "goo"@ <==> wisp_style(name) == Some(WispStyle::Goo),
        ascii_lower(name) == "star"@ <==> wisp_style(name) == Some(WispStyle::Star),
        wisp_style(name) == Some(style) ==> scan(seq!["--wisp-preview"@, name] + rest, o) == scan(
            rest,
            OptsView { wisp_preview: Some(style), ..o },
        ),
        wisp_style(name) is None ==> scan(seq!["--wisp-preview"@, name] + rest, o) is Err,
{
    lemma_flags_differ();
    reveal_strlit("cinder");
    reveal_strlit("ember");
    reveal_strlit("coal");
    reveal_strlit("willowisp");
    reveal_strlit("comet");
    reveal_strlit("goo");
    reveal_strlit("star");
    let l = ascii_lower(name);
    assert("cinder"@.len() == 6 && "ember"@.len() == 5 && "coal"@.len() == 4 && "willowisp"@.len()
        == 9 && "comet"@.len() == 5 && "goo"@.len() == 3 && "star"@.len() == 4);
    assert("coal"@[0] != "star"@[0] && "ember"@[0] != "comet"@[0]);
    assert(l == "coal"@ ==> wisp_style(name) == Some(WispStyle::Coal));
    assert(l == "willowisp"@ ==> wisp_style(name) == Some(WispStyle::WillOWisp));
    assert((seq!["--wisp-preview"@, name] + rest).skip(2) =~= rest);
}

/// Cells are read one by one, in order, with white space around them left out.
pub proof fn law_cells_are_read(pieces: Seq<Seq<char>>, piece: Seq<char>, before: Seq<u16>, n: u16)
    ensures
        cells(Seq::empty()) == Ok::<Seq<u16>, Seq<char>>(Seq::empty()),
        cells(pieces) == Ok::<Seq<u16>, Seq<char>>(before) && trim_of(piece) == decimal(n as nat)
            ==> cells(pieces.push(piece)) == Ok::<Seq<u16>, Seq<char>>(before.push(n)),
{
    crate::text::law_written_numbers_are_read(n as nat, u16::MAX as nat);
    assert(pieces.push(piece).drop_last() =~= pieces);
}

/// A selection is four cells with commas between them: the row and column where it starts and
/// those where it ends.
#[verifier::rlimit(50)]
pub proof fn law_selections_are_read(rest: Seq<Seq<char>>, o: OptsView, v: Seq<char>, s: Seq<u16>)
    requires
        cells(parts(v, ',')) == Ok::<Seq<u16>, Seq<char>>(s),
    ensures
        s.len() == 4 ==> scan(seq!["--select"@, v] + rest, o) == scan(
            rest,
            OptsView { select: Some((s[0], s[1], s[2], s[3])), ..o },
        ),
        s.len() != 4 ==> scan(seq!["--select"@, v] + rest, o) is Err,
{
    let args = seq!["--select"@, v] + rest;
    lemma_flags_differ();
    assert(args.skip(2) =~= rest);
    assert(args[0] == "--select"@ && args[1] == v);
    assert(switch_step(args, o) is None && text_step(args, o) is None);
    assert(figure_step(args, o) is None && number_step(args, o) is None);
    assert(step(args, o) == shape_step(args, o)->0);
}

/// What is not said is as it is by default; a scene has at least one tab.
pub proof fn law_defaults_of_a_scene(args: Seq<Seq<char>>, o: OptsView)
    ensures
        args.len() == 0 ==> (parsed(args) matches Ok(d) && d.path == "ember.png"@ && d.tabs == 1
            && d.split is None && d.runs.len() == 0 && d.settle_ms == 700 && d.bg_fit == "cover"@
            && d.select_mode == "simple"@ && !d.confirm && !d.backdrop && !d.ember
            && !d.help_overlay && !d.settings && d.scale == FigureView::Default && d.width
            == FigureView::Default && d.height == FigureView::Default && d.bg_image is None
            && d.select is None && d.fps is None && d.font is None && d.wisp_preview is None),
        scan(args, default_opts()) == Ok::<OptsView, Seq<char>>(o) ==> (parsed(args) matches Ok(d)
            && d.tabs >= 1 && (o.tabs >= 1 ==> d == o)),
{
}

/// A scene starts with one pane, splits it along the axis asked for, and then opens tabs; each
/// has its own number and session.
pub proof fn law_scenes_are_built_in_order(axis: Axis, k: int)
    requires
        1 <= k < u64::MAX - 1,
    ensures
        scene_step(Some(axis), 0) == (SceneStepView::Seed {
            pane: PaneId(1),
            session: seq!['s'] + decimal(1),
        }),
        scene_step(None, 0) == scene_step(Some(axis), 0),
        scene_step(Some(axis), 1) == (SceneStepView::Split {
            target: PaneId(1),
            axis,
            pane: PaneId(2),
            session: seq!['s'] + decimal(2),
        }),
        scene_step(None, k) == (SceneStepView::NewTab {
            id: TabId((k + 1) as u64),
            pane: PaneId((k + 1) as u64),
            session: seq!['s'] + decimal((k + 1) as nat),
        }),
        k >= 2 ==> scene_step(Some(axis), k) == (SceneStepView::NewTab {
            id: TabId(k as u64),
            pane: PaneId((k + 1) as u64),
            session: seq!['s'] + decimal((k + 1) as nat),
        }),
{
    reveal_strlit("s");
    assert("s"@ =~= seq!['s']);
}

/// A scene's panes run the lines in order, each with a line end, the focused one marked; its tabs
/// show their titles or numbers, the one on show and the one that rang; the selection is made in
/// the mode of its name.
pub proof fn law_scenes_show_what_was_asked(o: OptsView, tree: WindowTree, plan: ScenePlan, i: int)
    requires
        scene_planned(o, tree, plan),
    ensures
        plan.panes@.len() == tree.tabs@[0].root.spec_panes().len(),
        0 <= i < plan.panes@.len() ==> {
            let (pane, session) = tree.tabs@[0].root.spec_panes()[i];
            &&& plan.panes@[i].pane == pane
            &&& plan.panes@[i].focused <==> tree.tabs@[0].root.spec_session_of(tree.tabs@[0].focus)
                == Some(session)
            &&& i < o.runs.len() && o.runs[i].len() > 0 ==> (plan.panes@[i].line matches Some(l)
                && l@ == o.runs[i].push('\n'))
            &&& i >= o.runs.len() ==> plan.panes@[i].line is None
        },
        plan.tabs@.len() == tree.tabs@.len(),
        0 <= i < plan.tabs@.len() ==> {
            &&& plan.tabs@[i].active <==> i == tree.active
            &&& plan.tabs@[i].bell <==> (o.bell_tab matches Some(b) && b == i)
            &&& tree.tabs@[i].title@.len() > 0 ==> plan.tabs@[i].title@ == tree.tabs@[i].title@
            &&& tree.tabs@[i].title@.len() == 0 ==> plan.tabs@[i].title@ == decimal((i + 1) as nat)
        },
        o.select is None ==> plan.selection is None,
        o.select matches Some(s) ==> (plan.selection matches Some((t, m)) && t == s && (m is Word
            <==> o.select_mode == "word"@) && (m is Line <==> o.select_mode == "line"@)),
        plan.scrim <==> o.backdrop || o.bg_image is Some,
{
    crate::selection::law_selection_modes_have_names(o.select_mode);
    if 0 <= i < plan.panes@.len() {
        assert(pane_planned(
            plan.panes@[i],
            tree.tabs@[0].root.spec_panes()[i],
            i,
            o.runs,
            tree.tabs@[0].root.spec_session_of(tree.tabs@[0].focus),
        ));
    }
    if 0 <= i < plan.tabs@.len() {
        assert(label_planned(plan.tabs@[i], tree.tabs@[i], i, tree.active, o.bell_tab));
    }
}

/// The options are those that were read, one by one.
pub proof fn law_options_are_those_read(args: &[String], o: Opts, v: OptsView)
    requires
        call_ensures(parse, (args,), Ok::<Opts, String>(o)),
        parsed(texts(args@)) == Ok::<OptsView, Seq<char>>(v),
    ensures
        o.path@ == v.path && texts(o.runs@) == v.runs && o.bg_fit@ == v.bg_fit && o.select_mode@
            == v.select_mode,
        o.split == v.split && o.tabs == v.tabs && o.hover_tab == v.hover_tab && o.confirm
            == v.confirm && o.settle_ms == v.settle_ms,
        o.backdrop == v.backdrop && o.ember == v.ember && o.select == v.select && o.bell_tab
            == v.bell_tab && o.help_overlay == v.help_overlay && o.settings == v.settings
            && o.wisp_preview == v.wisp_preview,
        opt_text(o.bg_image) == v.bg_image && opt_text(o.fps) == v.fps && opt_text(o.font) == v.font,
        o.scale@ == v.scale && o.width@ == v.width && o.height@ == v.height && o.ember_phase@
            == v.ember_phase && o.bell@ == v.bell && o.font_size@ == v.font_size,
        o.tab_drag is Some <==> v.tab_drag is Some,
        o.hold_ring is Some <==> v.hold_ring is Some,
        o.split_preview is Some <==> v.split_preview is Some,
        o.split_preview matches Some((h, t)) ==> v.split_preview == Some((h, t@)),
        o.tab_drag matches Some((k, t)) ==> v.tab_drag == Some((k, t@)),
        o.hold_ring matches Some((x, y, p)) ==> v.hold_ring == Some((x@, y@, p@)),
{
}

} // verus!
