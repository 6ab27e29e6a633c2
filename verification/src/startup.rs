//! Starting the program: what its arguments ask for, and what it says of itself.

use vstd::prelude::*;
use crate::text::{same, texts};

verus! {

broadcast use vstd::seq_lib::group_seq_properties;

/// What the arguments ask for.
#[derive(Debug, PartialEq, Eq)]
pub enum Launch {
    /// The versions of the program and its parts.
    Version,
    Usage,
    /// An argument that is not known: the program ends with an error.
    Unrecognized(String),
    /// A client that drives a running program.
    Client,
    /// A server of tools.
    ToolServer,
    /// A picture without a window.
    Screenshot,
    /// The terminal.
    Terminal,
}

pub enum LaunchView {
    Version,
    Usage,
    Unrecognized(Seq<char>),
    Client,
    ToolServer,
    Screenshot,
    Terminal,
}

impl Launch {
    pub open spec fn view(&self) -> LaunchView {
        match *self {
            Launch::Version => LaunchView::Version,
            Launch::Usage => LaunchView::Usage,
            Launch::Unrecognized(a) => LaunchView::Unrecognized(a@),
            Launch::Client => LaunchView::Client,
            Launch::ToolServer => LaunchView::ToolServer,
            Launch::Screenshot => LaunchView::Screenshot,
            Launch::Terminal => LaunchView::Terminal,
        }
    }
}

/// What the arguments ask for. The first is the name of the program.
pub open spec fn launched(args: Seq<Seq<char>>) -> LaunchView {
    if args.contains("--version"@) || args.contains("-V"@) {
        LaunchView::Version
    } else if args.contains("--help"@) || args.contains("-h"@) {
        LaunchView::Usage
    } else if args.len() > 1 && args[1] == "ctl"@ {
        LaunchView::Client
    } else if args.len() > 1 && args[1] == "mcp"@ {
        LaunchView::ToolServer
    } else if args.contains("--screenshot"@) {
        LaunchView::Screenshot
    } else if args.len() > 1 {
        LaunchView::Unrecognized(args[1])
    } else {
        LaunchView::Terminal
    }
}

fn has(args: &[String], arg: &str) -> (r: bool)
    ensures
        r == texts(args@).contains(arg@),
{
    let mut i: usize = 0;
    while i < args.len()
        invariant
            i <= args@.len(),
            forall|j: int| 0 <= j < i ==> texts(args@)[j] != arg@,
        decreases args@.len() - i,
    {
        if same(args[i].as_str(), arg) {
            assert(texts(args@)[i as int] == arg@);
            return true;
        }
        i += 1;
    }
    false
}

/// What the arguments ask for. The first is the name of the program.
pub fn launch(args: &[String]) -> (r: Launch)
    ensures
        r@ == launched(texts(args@)),
{
    if has(args, "--version") || has(args, "-V") {
        return Launch::Version;
    }
    if has(args, "--help") || has(args, "-h") {
        return Launch::Usage;
    }
    let screenshot = has(args, "--screenshot");
    if args.len() > 1 {
        assert(texts(args@)[1] == args@[1]@);
        let first = args[1].as_str();
        if same(first, "ctl") {
            return Launch::Client;
        }
        if same(first, "mcp") {
            return Launch::ToolServer;
        }
        if !screenshot {
            return Launch::Unrecognized(first.to_owned());
        }
    }
    if screenshot {
        return Launch::Screenshot;
    }
    Launch::Terminal
}

/// An argument never opens a terminal: a mistyped one is an error.
pub proof fn law_arguments_open_no_terminal(args: Seq<Seq<char>>)
    ensures
        launched(args) is Terminal ==> args.len() <= 1,
        launched(args) matches LaunchView::Unrecognized(a) ==> args.len() > 1 && a == args[1],
{
}

/// How the program is called.
pub open spec fn usage_text() -> Seq<char> {
    "usage: ember-term [--version|-V] [--help|-h]\n\n  ember-term                     launch the terminal\n  ember-term ctl <cmd> \u{2026}         drive a running instance (EMBER_CONTROL)\n  ember-term mcp                 MCP stdio server over the control surface\n  ember-term --screenshot <png>  headless render to a PNG (see screenshot flags)\n\nenv: EMBER_CONTROL=1|<path>  bind the debug control socket"@
}

/// How the program is called.
pub fn usage() -> (r: &'static str)
    ensures
        r@ == usage_text(),
{
    "usage: ember-term [--version|-V] [--help|-h]\n\n  ember-term                     launch the terminal\n  ember-term ctl <cmd> \u{2026}         drive a running instance (EMBER_CONTROL)\n  ember-term mcp                 MCP stdio server over the control surface\n  ember-term --screenshot <png>  headless render to a PNG (see screenshot flags)\n\nenv: EMBER_CONTROL=1|<path>  bind the debug control socket"
}

/// The complaint about an argument.
pub fn unrecognized(arg: &str) -> (r: String)
    ensures
        r@ == "ember-term: unrecognized argument `"@ + arg@ + "` (see --help)"@,
{
    let mut msg = "ember-term: unrecognized argument `".to_owned();
    msg.append(arg);
    msg.append("` (see --help)");
    msg
}

// ---- the about box ---------------------------------------------------------

/// The versions of the parts that the program is made of.
#[derive(Debug, PartialEq, Eq)]
pub struct PartVersions {
    pub core: String,
    pub session: String,
    pub render: String,
    pub platform: String,
}

pub open spec fn banner_text(version: Seq<char>, parts: PartVersions) -> Seq<char> {
    "ember-term "@ + version + " (core "@ + parts.core@ + ", session "@ + parts.session@
        + ", render "@ + parts.render@ + ", platform "@ + parts.platform@ + ")"@
}

/// The line that names the version of the program and of its parts.
pub fn banner(version: &str, parts: &PartVersions) -> (r: String)
    ensures
        r@ == banner_text(version@, *parts),
{
    let mut line = "ember-term ".to_owned();
    line.append(version);
    line.append(" (core ");
    line.append(parts.core.as_str());
    line.append(", session ");
    line.append(parts.session.as_str());
    line.append(", render ");
    line.append(parts.render.as_str());
    line.append(", platform ");
    line.append(parts.platform.as_str());
    line.append(")");
    line
}

/// The lines of the about box.
pub open spec fn about_text(version: Seq<char>, commit: Seq<char>, authors: Seq<char>) -> Seq<Seq<char>> {
    seq![
        "a native terminal"@,
        ""@,
        "Version   "@ + version,
        "Commit    "@ + commit,
        "MIT OR Apache-2.0"@,
        authors,
        ""@,
        "emberterm.com"@,
    ]
}

/// The lines of the about box.
pub fn about_lines(version: &str, commit: &str, authors: &str) -> (r: Vec<String>)
    ensures
        texts(r@) == about_text(version@, commit@, authors@),
{
    let mut version_line = "Version   ".to_owned();
    version_line.append(version);
    let mut commit_line = "Commit    ".to_owned();
    commit_line.append(commit);
    let mut out: Vec<String> = Vec::new();
    out.push("a native terminal".to_owned());
    out.push("".to_owned());
    out.push(version_line);
    out.push(commit_line);
    out.push("MIT OR Apache-2.0".to_owned());
    out.push(authors.to_owned());
    out.push("".to_owned());
    out.push("emberterm.com".to_owned());
    assert(texts(out@) == about_text(version@, commit@, authors@));
    out
}

/// What the about box shows: its title, its lines, and links with their addresses.
#[derive(Debug, PartialEq, Eq)]
pub struct AboutInfo {
    pub title: String,
    pub lines: Vec<String>,
    pub links: Vec<(String, String)>,
}

/// The links of the about box, each with its address.
pub open spec fn about_links() -> Seq<(Seq<char>, Seq<char>)> {
    seq![
        ("Docs"@, "https://emberterm.com"@),
        ("GitHub"@, "https://github.com/kingb/ember"@),
    ]
}

/// What the about box shows.
pub fn about_info(version: &str, commit: &str, authors: &str) -> (r: AboutInfo)
    ensures
        r.title@ == "ember"@,
        texts(r.lines@) == about_text(version@, commit@, authors@),
        r.links@.map_values(|l: (String, String)| (l.0@, l.1@)) == about_links(),
{
    let mut links: Vec<(String, String)> = Vec::new();
    links.push(("Docs".to_owned(), "https://emberterm.com".to_owned()));
    links.push(("GitHub".to_owned(), "https://github.com/kingb/ember".to_owned()));
    assert(links@.map_values(|l: (String, String)| (l.0@, l.1@)) =~= about_links());
    AboutInfo { title: "ember".to_owned(), lines: about_lines(version, commit, authors), links }
}

// ---- the control socket ----------------------------------------------------

/// What switching the developer mode does.
#[derive(Clone, Copy, Debug, PartialEq, Eq, Structural)]
pub enum DeveloperStep {
    Nothing,
    /// The control socket is opened.
    Bind,
    /// The control socket is closed.
    Unbind,
}

/// Switches the developer mode. `bound` tells that the control socket is open.
pub fn set_developer_mode(on: bool, bound: bool) -> (r: DeveloperStep)
    ensures
        r == (if on == bound {
            DeveloperStep::Nothing
        } else if on {
            DeveloperStep::Bind
        } else {
            DeveloperStep::Unbind
        }),
{
    if on {
        if bound {
            DeveloperStep::Nothing
        } else {
            DeveloperStep::Bind
        }
    } else if bound {
        DeveloperStep::Unbind
    } else {
        DeveloperStep::Nothing
    }
}

/// How the program is started, by its arguments: a question for the version or for help goes
/// before all else, then the first argument counts, then a picture is asked for; an argument that
/// is none of these is named, and without any a terminal opens.
pub proof fn law_arguments_start_what_they_name(args: Seq<Seq<char>>)
    ensures
        args.contains("--version"@) || args.contains("-V"@) <==> launched(args) is Version,
        !(args.contains("--version"@) || args.contains("-V"@)) ==> {
            &&& args.contains("--help"@) || args.contains("-h"@) <==> launched(args) is Usage
            &&& !(args.contains("--help"@) || args.contains("-h"@)) ==> {
                &&& args.len() > 1 && args[1] == "ctl"@ <==> launched(args) is Client
                &&& args.len() > 1 && args[1] == "mcp"@ <==> launched(args) is ToolServer
                &&& args.len() <= 1 && !args.contains("--screenshot"@) <==> launched(args)
                    is Terminal
                &&& args.len() > 1 && args[1] != "ctl"@ && args[1] != "mcp"@ && args.contains(
                    "--screenshot"@,
                ) ==> launched(args) is Screenshot
                &&& args.len() > 1 && args[1] != "ctl"@ && args[1] != "mcp"@ && !args.contains(
                    "--screenshot"@,
                ) ==> launched(args) == LaunchView::Unrecognized(args[1])
            }
        },
{
    reveal_strlit("ctl");
    reveal_strlit("mcp");
    assert("ctl"@[0] != "mcp"@[0]);
}

/// The words of the program: its version with those of its parts, the lines of the about box, and
/// the argument that it does not know.
pub proof fn law_the_program_tells_its_version(version: Seq<char>, parts: PartVersions, commit: Seq<char>, authors: Seq<char>, arg: &str, r: String)
    ensures
        banner_text(version, parts) == "ember-term "@ + version + " (core "@ + parts.core@
            + ", session "@ + parts.session@ + ", render "@ + parts.render@ + ", platform "@
            + parts.platform@ + ")"@,
        about_text(version, commit, authors).len() == 8,
        about_text(version, commit, authors)[2] == "Version   "@ + version,
        about_text(version, commit, authors)[3] == "Commit    "@ + commit,
        about_text(version, commit, authors)[4] == "MIT OR Apache-2.0"@,
        about_text(version, commit, authors)[5] == authors,
        call_ensures(unrecognized, (arg,), r) ==> r@ == "ember-term: unrecognized argument `"@ + arg@
            + "` (see --help)"@,
{
}

/// The about box bears the program's name and links to its documents and to its code.
pub proof fn law_the_about_box_has_its_links(v: &str, c: &str, a: &str, r: AboutInfo)
    requires
        call_ensures(about_info, (v, c, a), r),
    ensures
        r.title@ == "ember"@,
        r.links@.len() == 2,
        ({
            let (first, second) = (r.links@[0], r.links@[1]);
            &&& first.0@ == "Docs"@ && first.1@ == "https://emberterm.com"@
            &&& second.0@ == "GitHub"@ && second.1@ == "https://github.com/kingb/ember"@
        }),
{
    let l = r.links@.map_values(|l: (String, String)| (l.0@, l.1@));
    assert(l.len() == 2);
    assert(l[0] == about_links()[0] && l[1] == about_links()[1]);
}

/// Developer mode binds the socket when it is turned on and frees it when it is turned off; where
/// it is as wished nothing is done.
pub proof fn law_developer_mode_binds_the_socket(on: bool, bound: bool, r: DeveloperStep)
    requires
        call_ensures(set_developer_mode, (on, bound), r),
    ensures
        r is Bind <==> on && !bound,
        r is Unbind <==> !on && bound,
        r is Nothing <==> on == bound,
{
}

/// The program starts as its arguments say.
pub proof fn law_the_program_starts_as_told(args: &[String], r: Launch)
    requires
        call_ensures(launch, (args,), r),
    ensures
        r is Version <==> launched(texts(args@)) is Version,
        r is Usage <==> launched(texts(args@)) is Usage,
        r is Client <==> launched(texts(args@)) is Client,
        r is ToolServer <==> launched(texts(args@)) is ToolServer,
        r is Screenshot <==> launched(texts(args@)) is Screenshot,
        r is Terminal <==> launched(texts(args@)) is Terminal,
        r matches Launch::Unrecognized(a) ==> args@.len() > 1 && a@ == args@[1]@,
{
    law_arguments_open_no_terminal(texts(args@));
    if args@.len() > 1 {
        assert(texts(args@)[1] == args@[1]@);
    }
}

/// The help names every way to start, and the about box what the program is and where it lives.
pub proof fn law_the_program_tells_how_to_start_it(r: &'static str, version: Seq<char>, commit: Seq<char>, authors: Seq<char>)
    ensures
        call_ensures(usage, (), r) ==> r@
            == "usage: ember-term [--version|-V] [--help|-h]\n\n  ember-term                     launch the terminal\n  ember-term ctl <cmd> \u{2026}         drive a running instance (EMBER_CONTROL)\n  ember-term mcp                 MCP stdio server over the control surface\n  ember-term --screenshot <png>  headless render to a PNG (see screenshot flags)\n\nenv: EMBER_CONTROL=1|<path>  bind the debug control socket"@,
        about_text(version, commit, authors)[0] == "a native terminal"@,
        about_text(version, commit, authors)[7] == "emberterm.com"@,
{
}

} // verus!
