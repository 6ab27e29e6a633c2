//! Where ember keeps its files.

use vstd::prelude::*;
use crate::text::{opt_view, to_chars};

verus! {

broadcast use vstd::seq_lib::group_seq_properties;

/// `name`, a relative path, below the directory `base`.
pub open spec fn below(base: Seq<char>, name: Seq<char>) -> Seq<char> {
    if base.len() == 0 || base.last() == '/' {
        base + name
    } else {
        base + seq!['/'] + name
    }
}

/// `name`, a relative path, below the directory `base`: one `/` stands between the two.
pub fn join(base: &str, name: &str) -> (r: String)
    ensures
        r@ == below(base@, name@),
{
    let chars = to_chars(base);
    let mut out = base.to_owned();
    let n: usize = chars.len();
    if n > 0 && chars[n - 1] != '/' {
        out.push('/');
    }
    out.append(name);
    out
}

/// The file below `xdg` where that is set and not empty, else the one below `home`.
pub open spec fn xdg_file(
    xdg: Option<Seq<char>>,
    home: Option<Seq<char>>,
    in_xdg: Seq<char>,
    in_home: Seq<char>,
) -> Option<Seq<char>> {
    match xdg {
        Some(dir) if dir.len() > 0 => Some(below(dir, in_xdg)),
        _ => match home {
            Some(dir) => Some(below(dir, in_home)),
            None => None,
        },
    }
}

fn file_in(xdg: Option<&str>, home: Option<&str>, in_xdg: &str, in_home: &str) -> (r: Option<String>)
    ensures
        match r {
            Some(p) => xdg_file(opt_view(xdg), opt_view(home), in_xdg@, in_home@) == Some(p@),
            None => xdg_file(opt_view(xdg), opt_view(home), in_xdg@, in_home@) is None,
        },
{
    if let Some(dir) = xdg {
        if !dir.is_empty() {
            return Some(join(dir, in_xdg));
        }
    }
    match home {
        Some(dir) => Some(join(dir, in_home)),
        None => None,
    }
}

/// The configuration file, given `XDG_CONFIG_HOME` and `HOME`.
pub fn path(xdg_config_home: Option<&str>, home: Option<&str>) -> (r: Option<String>)
    ensures
        match r {
            Some(p) => xdg_file(
                opt_view(xdg_config_home),
                opt_view(home),
                "ember/config.toml"@,
                ".config/ember/config.toml"@,
            ) == Some(p@),
            None => xdg_file(
                opt_view(xdg_config_home),
                opt_view(home),
                "ember/config.toml"@,
                ".config/ember/config.toml"@,
            ) is None,
        },
{
    file_in(xdg_config_home, home, "ember/config.toml", ".config/ember/config.toml")
}

/// The session snapshot file, given `XDG_STATE_HOME` and `HOME`.
pub fn state_path(xdg_state_home: Option<&str>, home: Option<&str>) -> (r: Option<String>)
    ensures
        match r {
            Some(p) => xdg_file(
                opt_view(xdg_state_home),
                opt_view(home),
                "ember/session.json"@,
                ".local/state/ember/session.json"@,
            ) == Some(p@),
            None => xdg_file(
                opt_view(xdg_state_home),
                opt_view(home),
                "ember/session.json"@,
                ".local/state/ember/session.json"@,
            ) is None,
        },
{
    file_in(xdg_state_home, home, "ember/session.json", ".local/state/ember/session.json")
}

/// The position of the last dot that is not the first character.
pub open spec fn last_dot(s: Seq<char>) -> Option<int>
    decreases s.len(),
{
    if s.len() <= 1 {
        None
    } else if s.last() == '.' {
        Some(s.len() - 1)
    } else {
        last_dot(s.drop_last())
    }
}

/// A file name without its last extension.
pub open spec fn stem(name: Seq<char>) -> Seq<char> {
    match last_dot(name) {
        Some(i) => name.take(i),
        None => name,
    }
}

/// A file name without its last extension; a leading dot starts no extension.
pub fn file_stem(name: &str) -> (r: String)
    ensures
        r@ == stem(name@),
{
    let chars = to_chars(name);
    let mut i: usize = chars.len();
    assert(name@.take(i as int) == name@);
    while i > 1
        invariant
            i <= chars@.len(),
            chars@ == name@,
            last_dot(name@) == last_dot(name@.take(i as int)),
        decreases i,
    {
        assert(name@.take(i as int).drop_last() == name@.take(i - 1));
        assert(name@.take(i as int).last() == name@[i - 1]);
        if chars[i - 1] == '.' {
            return crate::text::from_chars(
                vstd::slice::slice_subrange(chars.as_slice(), 0, i - 1),
            );
        }
        i -= 1;
    }
    name.to_owned()
}

/// One `/` stands between a directory and what is in it.
pub proof fn law_one_slash_joins(base: Seq<char>, name: Seq<char>)
    ensures
        base.len() > 0 && base.last() != '/' ==> below(base, name) == base + seq!['/'] + name,
        base.len() > 0 && base.last() == '/' ==> below(base, name) == base + name,
        below(Seq::empty(), name) == name,
{
    assert(Seq::<char>::empty() + name =~= name);
}

/// The settings and the session have their places below the directories that the environment
/// names, and below the home directory where it names none.
pub proof fn law_files_have_their_places(xdg: &str, home: &str, given: Option<&str>, r: Option<String>)
    requires
        xdg@.len() > 0 && xdg@.last() != '/',
        home@.len() > 0 && home@.last() != '/',
    ensures
        call_ensures(path, (Some(xdg), given), r) ==> (r matches Some(p) && p@ == xdg@ + seq!['/']
            + "ember/config.toml"@),
        call_ensures(path, (None, Some(home)), r) ==> (r matches Some(p) && p@ == home@ + seq!['/']
            + ".config/ember/config.toml"@),
        call_ensures(path, (None, None), r) ==> r is None,
        call_ensures(state_path, (Some(xdg), given), r) ==> (r matches Some(p) && p@ == xdg@ + seq![
            '/',
        ] + "ember/session.json"@),
        call_ensures(state_path, (None, Some(home)), r) ==> (r matches Some(p) && p@ == home@ + seq![
            '/',
        ] + ".local/state/ember/session.json"@),
        call_ensures(state_path, (None, None), r) ==> r is None,
{
}

/// An empty name of a directory counts as none.
pub proof fn law_empty_directories_count_as_none(home: Option<Seq<char>>, a: Seq<char>, b: Seq<char>)
    ensures
        xdg_file(Some(Seq::empty()), home, a, b) == xdg_file(None, home, a, b),
{
}

proof fn lemma_no_dot(s: Seq<char>)
    requires
        forall|i: int| 1 <= i < s.len() ==> s[i] != '.',
    ensures
        last_dot(s) is None,
    decreases s.len(),
{
    if s.len() > 1 {
        lemma_no_dot(s.drop_last());
    }
}

proof fn lemma_dot_behind(a: Seq<char>, b: Seq<char>)
    requires
        a.len() > 0,
        !b.contains('.'),
    ensures
        last_dot(a + seq!['.'] + b) == Some(a.len() as int),
    decreases b.len(),
{
    let s = a + seq!['.'] + b;
    if b.len() == 0 {
        assert(s.last() == '.');
    } else {
        assert(s.last() == b.last());
        assert(b.contains(b.last()));
        assert(s.drop_last() =~= a + seq!['.'] + b.drop_last());
        assert forall|x: char| b.drop_last().contains(x) implies b.contains(x) by {
            let i = choose|i: int| 0 <= i < b.drop_last().len() && b.drop_last()[i] == x;
            assert(b[i] == x);
        }
        lemma_dot_behind(a, b.drop_last());
    }
}

/// The stem of a file name is what stands before its last dot; a dot at the very front starts no
/// extension.
pub proof fn law_stems_lose_the_extension(a: Seq<char>, b: Seq<char>)
    requires
        !b.contains('.'),
    ensures
        a.len() > 0 ==> stem(a + seq!['.'] + b) == a,
        stem(b) == b,
        stem(seq!['.'] + b) == seq!['.'] + b,
{
    if a.len() > 0 {
        lemma_dot_behind(a, b);
        assert((a + seq!['.'] + b).take(a.len() as int) =~= a);
    }
    assert forall|i: int| 0 <= i < b.len() implies b[i] != '.' by {
        assert(b.contains(b[i]));
    }
    lemma_no_dot(b);
    let d = seq!['.'] + b;
    assert forall|i: int| 1 <= i < d.len() implies d[i] != '.' by {
        assert(d[i] == b[i - 1]);
    }
    lemma_no_dot(d);
}

} // verus!
