//! Keys: their names, the bytes they send to a shell, and the shortcuts of different platforms.

use vstd::prelude::*;
use vstd::utf8::encode_utf8;
use crate::text::{
    ascii_lower, decimal, from_chars, parts, push_decimal, remove_all, same, split, texts,
    to_ascii_lower, to_ascii_lower_char, ascii_lower_char, to_chars, trim, trim_of, without, contains_text,
    occurs_at, starts_with_text,
};

verus! {

broadcast use vstd::seq_lib::group_seq_properties;

#[derive(Clone, Copy, Debug, PartialEq, Eq, Structural)]
pub enum NamedKey {
    Enter,
    Tab,
    Escape,
    Backspace,
    Space,
    ArrowUp,
    ArrowDown,
    ArrowRight,
    ArrowLeft,
    Home,
    End,
    Insert,
    Delete,
    PageUp,
    PageDown,
    F1,
    F2,
    F3,
    F4,
    F5,
    F6,
    F7,
    F8,
    F9,
    F10,
    F11,
    F12,
    /// Any other key that has a name.
    Other,
}

#[derive(Debug, PartialEq, Eq)]
pub enum Key {
    Named(NamedKey),
    /// The text that the key gives.
    Character(String),
    /// A dead or unknown key.
    Other,
}

pub enum KeyView {
    Named(NamedKey),
    Character(Seq<char>),
    Other,
}

impl Key {
    pub open spec fn view(&self) -> KeyView {
        match *self {
            Key::Named(n) => KeyView::Named(n),
            Key::Character(s) => KeyView::Character(s@),
            Key::Other => KeyView::Other,
        }
    }

    pub fn character(s: &str) -> (r: Key)
        ensures
            r@ == KeyView::Character(s@),
    {
        Key::Character(s.to_owned())
    }
}

/// The modifier keys that are held.
#[derive(Clone, Copy, Debug, PartialEq, Eq, Structural)]
pub struct Mods {
    pub shift: bool,
    pub alt: bool,
    pub ctrl: bool,
    /// Command on a Mac, the key with the logo elsewhere.
    pub sup: bool,
}

impl Mods {
    pub open spec fn spec_none() -> Mods {
        Mods { shift: false, alt: false, ctrl: false, sup: false }
    }

    pub fn none() -> (r: Mods)
        ensures
            r == Mods::spec_none(),
    {
        Mods { shift: false, alt: false, ctrl: false, sup: false }
    }
}

// ---- bytes for the shell ---------------------------------------------------

/// The number that stands for the held modifiers in a control sequence.
pub open spec fn modifier_number(mods: Mods) -> nat {
    (1 + (if mods.shift { 1int } else { 0 }) + (if mods.alt { 2int } else { 0 }) + (if mods.ctrl {
        4int
    } else {
        0
    })) as nat
}

/// A cursor key: with modifiers a full sequence, else short in application mode.
pub open spec fn cursor_text(mods: Mods, app_cursor: bool, ch: char) -> Seq<char> {
    if modifier_number(mods) > 1 {
        seq!['\x1b', '[', '1', ';'] + decimal(modifier_number(mods)) + seq![ch]
    } else if app_cursor {
        seq!['\x1b', 'O', ch]
    } else {
        seq!['\x1b', '[', ch]
    }
}

/// An editing or function key by its number.
pub open spec fn tilde_text(mods: Mods, n: nat) -> Seq<char> {
    if modifier_number(mods) > 1 {
        seq!['\x1b', '['] + decimal(n) + seq![';'] + decimal(modifier_number(mods)) + seq!['~']
    } else {
        seq!['\x1b', '['] + decimal(n) + seq!['~']
    }
}

/// A text with an escape in front where the key acts as Meta.
pub open spec fn meta_text(alt_meta: bool, s: Seq<char>) -> Seq<char> {
    if alt_meta {
        seq!['\x1b'] + s
    } else {
        s
    }
}

/// The control character of a key, if it has one.
pub open spec fn control_char(c: char) -> Option<char> {
    let l = ascii_lower_char(c);
    if l == '@' || l == '2' {
        Some('\x00')
    } else if 97 <= l as int <= 122 {
        Some((l as int - 96) as char)
    } else if l == '[' || l == '3' {
        Some('\x1b')
    } else if l == '\\' || l == '4' {
        Some('\x1c')
    } else if l == ']' || l == '5' {
        Some('\x1d')
    } else if l == '^' || l == '6' {
        Some('\x1e')
    } else if l == '_' || l == '7' || l == '/' {
        Some('\x1f')
    } else if l == '?' || l == '8' {
        Some('\x7f')
    } else {
        None
    }
}

fn control_of(c: char) -> (r: Option<char>)
    ensures
        r == control_char(c),
{
    let l = to_ascii_lower_char(c);
    if l == '@' || l == '2' {
        Some('\x00')
    } else if l >= 'a' && l <= 'z' {
        let b: u8 = l as u8 - 96;
        Some(b as char)
    } else if l == '[' || l == '3' {
        Some('\x1b')
    } else if l == '\\' || l == '4' {
        Some('\x1c')
    } else if l == ']' || l == '5' {
        Some('\x1d')
    } else if l == '^' || l == '6' {
        Some('\x1e')
    } else if l == '_' || l == '7' || l == '/' {
        Some('\x1f')
    } else if l == '?' || l == '8' {
        Some('\x7f')
    } else {
        None
    }
}

/// What a key with a name sends.
pub open spec fn named_text(key: NamedKey, mods: Mods, app_cursor: bool, alt_meta: bool) -> Option<
    Seq<char>,
> {
    match key {
        NamedKey::Enter => Some(meta_text(alt_meta, seq!['\r'])),
        NamedKey::Backspace => Some(meta_text(alt_meta, seq!['\x7f'])),
        NamedKey::Tab => if mods.shift {
            Some(seq!['\x1b', '[', 'Z'])
        } else {
            Some(meta_text(alt_meta, seq!['\t']))
        },
        NamedKey::Escape => Some(seq!['\x1b']),
        NamedKey::Space => if mods.ctrl {
            Some(meta_text(alt_meta, seq!['\x00']))
        } else {
            Some(meta_text(alt_meta, seq![' ']))
        },
        NamedKey::ArrowUp => Some(cursor_text(mods, app_cursor, 'A')),
        NamedKey::ArrowDown => Some(cursor_text(mods, app_cursor, 'B')),
        NamedKey::ArrowRight => Some(cursor_text(mods, app_cursor, 'C')),
        NamedKey::ArrowLeft => Some(cursor_text(mods, app_cursor, 'D')),
        NamedKey::Home => Some(cursor_text(mods, app_cursor, 'H')),
        NamedKey::End => Some(cursor_text(mods, app_cursor, 'F')),
        NamedKey::Insert => Some(tilde_text(mods, 2)),
        NamedKey::Delete => Some(tilde_text(mods, 3)),
        NamedKey::PageUp => Some(tilde_text(mods, 5)),
        NamedKey::PageDown => Some(tilde_text(mods, 6)),
        NamedKey::F1 => Some(cursor_text(mods, true, 'P')),
        NamedKey::F2 => Some(cursor_text(mods, true, 'Q')),
        NamedKey::F3 => Some(cursor_text(mods, true, 'R')),
        NamedKey::F4 => Some(cursor_text(mods, true, 'S')),
        NamedKey::F5 => Some(tilde_text(mods, 15)),
        NamedKey::F6 => Some(tilde_text(mods, 17)),
        NamedKey::F7 => Some(tilde_text(mods, 18)),
        NamedKey::F8 => Some(tilde_text(mods, 19)),
        NamedKey::F9 => Some(tilde_text(mods, 20)),
        NamedKey::F10 => Some(tilde_text(mods, 21)),
        NamedKey::F11 => Some(tilde_text(mods, 23)),
        NamedKey::F12 => Some(tilde_text(mods, 24)),
        NamedKey::Other => None,
    }
}

/// What a key sends, before it is turned into bytes.
pub open spec fn key_text(key: KeyView, mods: Mods, app_cursor: bool, alt_meta: bool) -> Option<
    Seq<char>,
> {
    match key {
        KeyView::Named(n) => named_text(n, mods, app_cursor, alt_meta),
        KeyView::Character(s) => if mods.ctrl {
            if s.len() == 0 {
                None
            } else {
                match control_char(s[0]) {
                    Some(c) => Some(meta_text(alt_meta, seq![c])),
                    None => Some(meta_text(alt_meta, s)),
                }
            }
        } else {
            Some(meta_text(alt_meta, s))
        },
        KeyView::Other => None,
    }
}

fn number_of(mods: Mods) -> (r: u64)
    ensures
        r == modifier_number(mods),
{
    let mut m: u64 = 1;
    if mods.shift {
        m += 1;
    }
    if mods.alt {
        m += 2;
    }
    if mods.ctrl {
        m += 4;
    }
    m
}

fn cursor(mods: Mods, app_cursor: bool, ch: char) -> (r: String)
    ensures
        r@ == cursor_text(mods, app_cursor, ch),
{
    let m: u64 = number_of(mods);
    let mut out = String::new();
    out.push('\x1b');
    if m > 1 {
        out.push('[');
        out.push('1');
        out.push(';');
        push_decimal(&mut out, m);
    } else if app_cursor {
        out.push('O');
    } else {
        out.push('[');
    }
    out.push(ch);
    assert(out@ == cursor_text(mods, app_cursor, ch));
    out
}

fn tilde(mods: Mods, n: u64) -> (r: String)
    ensures
        r@ == tilde_text(mods, n as nat),
{
    let m: u64 = number_of(mods);
    let mut out = String::new();
    out.push('\x1b');
    out.push('[');
    push_decimal(&mut out, n);
    if m > 1 {
        out.push(';');
        push_decimal(&mut out, m);
    }
    out.push('~');
    assert(out@ == tilde_text(mods, n as nat));
    out
}

fn meta(alt_meta: bool, s: &str) -> (r: String)
    ensures
        r@ == meta_text(alt_meta, s@),
{
    if alt_meta {
        let mut out = String::new();
        out.push('\x1b');
        out.append(s);
        assert(out@ == meta_text(alt_meta, s@));
        out
    } else {
        s.to_owned()
    }
}

fn meta_char(alt_meta: bool, c: char) -> (r: String)
    ensures
        r@ == meta_text(alt_meta, seq![c]),
{
    let mut out = String::new();
    if alt_meta {
        out.push('\x1b');
    }
    out.push(c);
    assert(out@ == meta_text(alt_meta, seq![c]));
    out
}

fn encode_named(key: NamedKey, mods: Mods, app_cursor: bool, alt_meta: bool) -> (r: Option<String>)
    ensures
        match r {
            Some(s) => named_text(key, mods, app_cursor, alt_meta) == Some(s@),
            None => named_text(key, mods, app_cursor, alt_meta) is None,
        },
{
    let out = match key {
        NamedKey::Enter => meta_char(alt_meta, '\r'),
        NamedKey::Backspace => meta_char(alt_meta, '\x7f'),
        NamedKey::Tab => {
            if mods.shift {
                let mut s = String::new();
                s.push('\x1b');
                s.push('[');
                s.push('Z');
                assert(s@ == seq!['\x1b', '[', 'Z']);
                s
            } else {
                meta_char(alt_meta, '\t')
            }
        },
        NamedKey::Escape => meta_char(false, '\x1b'),
        NamedKey::Space => {
            if mods.ctrl {
                meta_char(alt_meta, '\x00')
            } else {
                meta_char(alt_meta, ' ')
            }
        },
        NamedKey::ArrowUp => cursor(mods, app_cursor, 'A'),
        NamedKey::ArrowDown => cursor(mods, app_cursor, 'B'),
        NamedKey::ArrowRight => cursor(mods, app_cursor, 'C'),
        NamedKey::ArrowLeft => cursor(mods, app_cursor, 'D'),
        NamedKey::Home => cursor(mods, app_cursor, 'H'),
        NamedKey::End => cursor(mods, app_cursor, 'F'),
        NamedKey::Insert => tilde(mods, 2),
        NamedKey::Delete => tilde(mods, 3),
        NamedKey::PageUp => tilde(mods, 5),
        NamedKey::PageDown => tilde(mods, 6),
        NamedKey::F1 => cursor(mods, true, 'P'),
        NamedKey::F2 => cursor(mods, true, 'Q'),
        NamedKey::F3 => cursor(mods, true, 'R'),
        NamedKey::F4 => cursor(mods, true, 'S'),
        NamedKey::F5 => tilde(mods, 15),
        NamedKey::F6 => tilde(mods, 17),
        NamedKey::F7 => tilde(mods, 18),
        NamedKey::F8 => tilde(mods, 19),
        NamedKey::F9 => tilde(mods, 20),
        NamedKey::F10 => tilde(mods, 21),
        NamedKey::F11 => tilde(mods, 23),
        NamedKey::F12 => tilde(mods, 24),
        NamedKey::Other => return None,
    };
    Some(out)
}

/// The bytes that a key press sends to the shell, in the manner of xterm.
///
/// `app_cursor` selects the application form of the cursor keys. With `alt_meta` the simple keys
/// get an escape in front; the sequences carry all modifiers in their parameter instead.
pub fn encode_key(key: &Key, mods: Mods, app_cursor: bool, alt_meta: bool) -> (r: Option<Vec<u8>>)
    ensures
        match r {
            Some(bytes) => key_text(key@, mods, app_cursor, alt_meta) is Some && bytes@
                == encode_utf8(key_text(key@, mods, app_cursor, alt_meta)->0),
            None => key_text(key@, mods, app_cursor, alt_meta) is None,
        },
{
    match key {
        Key::Named(named) => match encode_named(*named, mods, app_cursor, alt_meta) {
            Some(s) => Some(s.as_str().as_bytes_vec()),
            None => None,
        },
        Key::Character(s) => {
            if mods.ctrl {
                let chars = to_chars(s.as_str());
                if chars.len() == 0 {
                    return None;
                }
                if let Some(c) = control_of(chars[0]) {
                    return Some(meta_char(alt_meta, c).as_str().as_bytes_vec());
                }
            }
            Some(meta(alt_meta, s.as_str()).as_str().as_bytes_vec())
        },
        Key::Other => None,
    }
}

/// Without modifiers a printable key sends its own text, in UTF-8.
pub proof fn law_plain_text_is_sent_as_it_is(s: Seq<char>, mods: Mods, app_cursor: bool)
    requires
        !mods.ctrl,
    ensures
        key_text(KeyView::Character(s), mods, app_cursor, false) == Some(s),
{
}

/// Control with a letter sends the control character of the letter, whatever its case.
pub proof fn law_control_letters(c: char)
    requires
        65 <= c as int <= 90 || 97 <= c as int <= 122,
    ensures
        control_char(c) is Some,
        1 <= control_char(c)->0 as int <= 26,
        control_char(c) == control_char(ascii_lower_char(c)),
{
}

// ---- names of keys ---------------------------------------------------------

/// The key of a name, whatever its case; a single character names itself.
pub open spec fn key_named(name: Seq<char>) -> Option<KeyView> {
    let s = ascii_lower(name);
    if s == "enter"@ || s == "return"@ {
        Some(KeyView::Named(NamedKey::Enter))
    } else if s == "tab"@ {
        Some(KeyView::Named(NamedKey::Tab))
    } else if s == "esc"@ || s == "escape"@ {
        Some(KeyView::Named(NamedKey::Escape))
    } else if s == "backspace"@ {
        Some(KeyView::Named(NamedKey::Backspace))
    } else if s == "space"@ {
        Some(KeyView::Named(NamedKey::Space))
    } else if s == "left"@ || s == "arrowleft"@ {
        Some(KeyView::Named(NamedKey::ArrowLeft))
    } else if s == "right"@ || s == "arrowright"@ {
        Some(KeyView::Named(NamedKey::ArrowRight))
    } else if s == "up"@ || s == "arrowup"@ {
        Some(KeyView::Named(NamedKey::ArrowUp))
    } else if s == "down"@ || s == "arrowdown"@ {
        Some(KeyView::Named(NamedKey::ArrowDown))
    } else if s.len() == 1 {
        Some(KeyView::Character(s))
    } else {
        None
    }
}

pub open spec fn opt_key(k: Option<Key>) -> Option<KeyView> {
    match k {
        Some(x) => Some(x@),
        None => None,
    }
}

/// The key of a name.
pub fn named_key(name: &str) -> (r: Option<Key>)
    ensures
        opt_key(r) == key_named(name@),
{
    let lower_text = to_ascii_lower(name);
    let s = lower_text.as_str();
    if same(s, "enter") || same(s, "return") {
        Some(Key::Named(NamedKey::Enter))
    } else if same(s, "tab") {
        Some(Key::Named(NamedKey::Tab))
    } else if same(s, "esc") || same(s, "escape") {
        Some(Key::Named(NamedKey::Escape))
    } else if same(s, "backspace") {
        Some(Key::Named(NamedKey::Backspace))
    } else if same(s, "space") {
        Some(Key::Named(NamedKey::Space))
    } else if same(s, "left") || same(s, "arrowleft") {
        Some(Key::Named(NamedKey::ArrowLeft))
    } else if same(s, "right") || same(s, "arrowright") {
        Some(Key::Named(NamedKey::ArrowRight))
    } else if same(s, "up") || same(s, "arrowup") {
        Some(Key::Named(NamedKey::ArrowUp))
    } else if same(s, "down") || same(s, "arrowdown") {
        Some(Key::Named(NamedKey::ArrowDown))
    } else if s.unicode_len() == 1 {
        Some(Key::Character(lower_text))
    } else {
        None
    }
}

/// The parts of a chord between the plus signs, without blanks and without empty ones.
pub open spec fn chord_parts(combo: Seq<char>) -> Seq<Seq<char>> {
    parts(combo, '+').map_values(|p: Seq<char>| trim_of(p)).filter(|p: Seq<char>| p.len() > 0)
}

/// The modifiers with the one of that name held; `None` for any other name.
pub open spec fn mod_added(mods: Mods, name: Seq<char>) -> Option<Mods> {
    let s = ascii_lower(name);
    if s == "cmd"@ || s == "super"@ || s == "win"@ || s == "meta"@ {
        Some(Mods { sup: true, ..mods })
    } else if s == "shift"@ {
        Some(Mods { shift: true, ..mods })
    } else if s == "alt"@ || s == "option"@ {
        Some(Mods { alt: true, ..mods })
    } else if s == "ctrl"@ || s == "control"@ {
        Some(Mods { ctrl: true, ..mods })
    } else {
        None
    }
}

/// The modifiers of all the names.
pub open spec fn mods_named(names: Seq<Seq<char>>) -> Option<Mods>
    decreases names.len(),
{
    if names.len() == 0 {
        Some(Mods::spec_none())
    } else {
        match mods_named(names.drop_last()) {
            Some(m) => mod_added(m, names.last()),
            None => None,
        }
    }
}

/// The key and the modifiers of a chord: the last part names the key.
pub open spec fn chord(combo: Seq<char>) -> Option<(KeyView, Mods)> {
    let ps = chord_parts(combo);
    if ps.len() == 0 {
        None
    } else {
        match (mods_named(ps.drop_last()), key_named(ps.last())) {
            (Some(m), Some(k)) => Some((k, m)),
            _ => None,
        }
    }
}

fn split_chord(combo: &str) -> (r: Vec<String>)
    ensures
        texts(r@) == chord_parts(combo@),
{
    let pieces = split(combo, '+');
    let mut out: Vec<String> = Vec::new();
    let ghost all = parts(combo@, '+').map_values(|p: Seq<char>| trim_of(p));
    let mut i: usize = 0;
    assert(texts(pieces@).len() == pieces@.len());
    while i < pieces.len()
        invariant
            i <= pieces@.len(),
            all == parts(combo@, '+').map_values(|p: Seq<char>| trim_of(p)),
            texts(pieces@) == parts(combo@, '+'),
            all.len() == pieces@.len(),
            texts(out@) == all.take(i as int).filter(|p: Seq<char>| p.len() > 0),
        decreases pieces@.len() - i,
    {
        let t = trim(pieces[i].as_str());
        assert(texts(pieces@)[i as int] == pieces@[i as int]@);
        assert(all[i as int] == t@);
        proof {
            assert(all.take(i + 1) == all.take(i as int).push(t@));
            all.take(i as int).lemma_filter_push(t@, |p: Seq<char>| p.len() > 0);
        }
        if !t.as_str().is_empty() {
            let ghost before = out@;
            let ghost x = t@;
            out.push(t);
            assert(texts(out@) == texts(before).push(x));
        }
        i += 1;
    }
    assert(all.take(i as int) == all);
    out
}

fn add_mod(mods: Mods, name: &str) -> (r: Option<Mods>)
    ensures
        r == mod_added(mods, name@),
{
    let lower_text = to_ascii_lower(name);
    let s = lower_text.as_str();
    if same(s, "cmd") || same(s, "super") || same(s, "win") || same(s, "meta") {
        Some(Mods { sup: true, ..mods })
    } else if same(s, "shift") {
        Some(Mods { shift: true, ..mods })
    } else if same(s, "alt") || same(s, "option") {
        Some(Mods { alt: true, ..mods })
    } else if same(s, "ctrl") || same(s, "control") {
        Some(Mods { ctrl: true, ..mods })
    } else {
        None
    }
}

fn read_mods(names: &[String], n: usize) -> (r: Option<Mods>)
    requires
        n <= names@.len(),
    ensures
        r == mods_named(texts(names@).take(n as int)),
{
    let mut mods = Mods::none();
    let mut i: usize = 0;
    while i < n
        invariant
            i <= n <= names@.len(),
            mods_named(texts(names@).take(i as int)) == Some(mods),
        decreases n - i,
    {
        assert(texts(names@).take(i + 1).drop_last() == texts(names@).take(i as int));
        assert(texts(names@).take(i + 1).last() == names@[i as int]@);
        match add_mod(mods, names[i].as_str()) {
            Some(m) => {
                mods = m;
            },
            None => {
                proof {
                    lemma_mods_none(texts(names@).take(n as int), i + 1);
                    assert(texts(names@).take(n as int).take(i + 1) == texts(names@).take(i + 1));
                }
                return None;
            },
        }
        i += 1;
    }
    Some(mods)
}

proof fn lemma_mods_none(names: Seq<Seq<char>>, k: int)
    ensures
        0 <= k <= names.len() && mods_named(names.take(k)) is None ==> mods_named(names) is None,
    decreases names.len(),
{
    if 0 <= k < names.len() {
        assert(names.drop_last().take(k) == names.take(k));
        lemma_mods_none(names.drop_last(), k);
    } else if k == names.len() {
        assert(names.take(k) == names);
    }
}

/// Reads a chord like `cmd+shift+arrowright`.
pub fn parse_chord(combo: &str) -> (r: Option<(Key, Mods)>)
    ensures
        match r {
            Some((k, m)) => chord(combo@) == Some((k@, m)),
            None => chord(combo@) is None,
        },
{
    let ps = split_chord(combo);
    assert(texts(ps@).len() == ps@.len());
    let n: usize = ps.len();
    if n == 0 {
        return None;
    }
    assert(texts(ps@).take(n - 1) == texts(ps@).drop_last());
    let mods = match read_mods(ps.as_slice(), n - 1) {
        Some(m) => m,
        None => return None,
    };
    match named_key(ps[n - 1].as_str()) {
        Some(k) => Some((k, mods)),
        None => None,
    }
}

/// The modifiers of the names that are known.
pub open spec fn known_mods(names: Seq<Seq<char>>) -> Mods
    decreases names.len(),
{
    if names.len() == 0 {
        Mods::spec_none()
    } else {
        let before = known_mods(names.drop_last());
        match mod_added(before, names.last()) {
            Some(m) => m,
            None => before,
        }
    }
}

/// Reads a list of modifiers like `cmd+alt`, which may be empty. A name that is none is passed
/// over.
pub fn parse_mods_only(combo: &str) -> (r: Mods)
    ensures
        r == known_mods(chord_parts(combo@)),
{
    let ps = split_chord(combo);
    let mut mods = Mods::none();
    let mut i: usize = 0;
    assert(texts(ps@).len() == ps@.len());
    while i < ps.len()
        invariant
            i <= ps@.len(),
            texts(ps@).len() == ps@.len(),
            mods == known_mods(texts(ps@).take(i as int)),
        decreases ps@.len() - i,
    {
        assert(texts(ps@).take(i + 1).drop_last() == texts(ps@).take(i as int));
        assert(texts(ps@).take(i + 1).last() == ps@[i as int]@);
        if let Some(m) = add_mod(mods, ps[i].as_str()) {
            mods = m;
        }
        i += 1;
    }
    assert(texts(ps@).take(i as int) == texts(ps@));
    mods
}

// ---- shortcuts of other desktops -------------------------------------------

/// The tab that Alt with a digit from 1 to 9 jumps to.
pub open spec fn digit_tab(key: KeyView, mods: Mods) -> Option<usize> {
    if !mods.alt || mods.sup || mods.ctrl {
        None
    } else {
        match key {
            KeyView::Character(s) => if s.len() == 1 && 49 <= s[0] as int <= 57 {
                Some((s[0] as int - 48) as usize)
            } else {
                None
            },
            _ => None,
        }
    }
}

/// The tab that Alt with a digit from 1 to 9 jumps to.
pub fn alt_digit_tab(key: &Key, mods: Mods) -> (r: Option<usize>)
    ensures
        r == digit_tab(key@, mods),
{
    if !mods.alt || mods.sup || mods.ctrl {
        return None;
    }
    match key {
        Key::Character(s) => {
            let chars = to_chars(s.as_str());
            if chars.len() == 1 && chars[0] >= '1' && chars[0] <= '9' {
                let d: u8 = chars[0] as u8 - 48;
                Some(d as usize)
            } else {
                None
            }
        },
        _ => None,
    }
}

/// The key that gives `s` without Shift, among those with a shortcut.
pub open spec fn unshifted(s: Seq<char>) -> Option<Seq<char>> {
    if s == "c"@ || s == "C"@ {
        Some("c"@)
    } else if s == "v"@ || s == "V"@ {
        Some("v"@)
    } else if s == "t"@ || s == "T"@ {
        Some("t"@)
    } else if s == "n"@ || s == "N"@ {
        Some("n"@)
    } else if s == "w"@ || s == "W"@ {
        Some("w"@)
    } else if s == "d"@ || s == "D"@ {
        Some("d"@)
    } else if s == "p"@ || s == "P"@ {
        Some("p"@)
    } else if s == "/"@ || s == "?"@ {
        Some("/"@)
    } else if s == ","@ || s == "<"@ {
        Some(","@)
    } else if s == "["@ || s == "{"@ {
        Some("["@)
    } else if s == "]"@ || s == "}"@ {
        Some("]"@)
    } else if s == "="@ || s == "+"@ {
        Some("="@)
    } else if s == "-"@ || s == "_"@ {
        Some("-"@)
    } else if s == "0"@ {
        Some("0"@)
    } else {
        None
    }
}

pub open spec fn opt_str(s: Option<&str>) -> Option<Seq<char>> {
    match s {
        Some(t) => Some(t@),
        None => None,
    }
}

fn unshift(s: &str) -> (r: Option<&'static str>)
    ensures
        opt_str(r) == unshifted(s@),
{
    if same(s, "c") || same(s, "C") {
        Some("c")
    } else if same(s, "v") || same(s, "V") {
        Some("v")
    } else if same(s, "t") || same(s, "T") {
        Some("t")
    } else if same(s, "n") || same(s, "N") {
        Some("n")
    } else if same(s, "w") || same(s, "W") {
        Some("w")
    } else if same(s, "d") || same(s, "D") {
        Some("d")
    } else if same(s, "p") || same(s, "P") {
        Some("p")
    } else if same(s, "/") || same(s, "?") {
        Some("/")
    } else if same(s, ",") || same(s, "<") {
        Some(",")
    } else if same(s, "[") || same(s, "{") {
        Some("[")
    } else if same(s, "]") || same(s, "}") {
        Some("]")
    } else if same(s, "=") || same(s, "+") {
        Some("=")
    } else if same(s, "-") || same(s, "_") {
        Some("-")
    } else if same(s, "0") {
        Some("0")
    } else {
        None
    }
}

pub open spec fn is_arrow(n: NamedKey) -> bool {
    n == NamedKey::ArrowLeft || n == NamedKey::ArrowRight || n == NamedKey::ArrowUp || n
        == NamedKey::ArrowDown
}

/// The chord of the shortcut table that a Linux chord stands for.
///
/// Control and Shift stand for Command, Alt and Shift for Command and Shift; only what has a
/// meaning is translated, so that everything else reaches the shell. Alt, Shift and T stand for
/// Command, Option and T. Control with minus or zero zooms.
pub open spec fn linux_chord(key: KeyView, mods: Mods) -> Option<(KeyView, Mods)> {
    let none = Mods::spec_none();
    let shift = Mods { shift: true, ..none };
    let alt = Mods { alt: true, ..none };
    if mods.sup {
        None
    } else if mods.ctrl && mods.shift && !mods.alt {
        match key {
            KeyView::Character(s) => match unshifted(s) {
                Some(k) => Some((KeyView::Character(k), none)),
                None => None,
            },
            KeyView::Named(n) => if is_arrow(n) {
                Some((key, none))
            } else {
                None
            },
            KeyView::Other => None,
        }
    } else if mods.alt && mods.shift && !mods.ctrl {
        match key {
            KeyView::Character(s) => match unshifted(s) {
                Some(k) => if k == "d"@ || k == "p"@ || k == "n"@ {
                    Some((KeyView::Character(k), shift))
                } else if k == "t"@ {
                    Some((KeyView::Character(k), alt))
                } else {
                    None
                },
                None => None,
            },
            KeyView::Named(n) => if is_arrow(n) {
                Some((key, shift))
            } else {
                None
            },
            KeyView::Other => None,
        }
    } else if mods.ctrl && !mods.shift && !mods.alt {
        match key {
            KeyView::Character(s) => if s == "-"@ || s == "0"@ {
                Some((key, none))
            } else {
                None
            },
            _ => None,
        }
    } else {
        None
    }
}

fn arrow(n: NamedKey) -> (r: bool)
    ensures
        r == is_arrow(n),
{
    match n {
        NamedKey::ArrowLeft | NamedKey::ArrowRight | NamedKey::ArrowUp | NamedKey::ArrowDown => true,
        _ => false,
    }
}

/// Translates a Linux chord onto the shortcut table.
pub fn linux_chord_translate(key: &Key, mods: Mods) -> (r: Option<(Key, Mods)>)
    ensures
        match r {
            Some((k, m)) => linux_chord(key@, mods) == Some((k@, m)),
            None => linux_chord(key@, mods) is None,
        },
{
    if mods.sup {
        return None;
    }
    let none = Mods::none();
    if mods.ctrl && mods.shift && !mods.alt {
        return match key {
            Key::Character(s) => match unshift(s.as_str()) {
                Some(k) => Some((Key::character(k), none)),
                None => None,
            },
            Key::Named(n) => {
                if arrow(*n) {
                    Some((Key::Named(*n), none))
                } else {
                    None
                }
            },
            Key::Other => None,
        };
    }
    if mods.alt && mods.shift && !mods.ctrl {
        let shift = Mods { shift: true, ..none };
        return match key {
            Key::Character(s) => match unshift(s.as_str()) {
                Some(k) => {
                    if same(k, "d") || same(k, "p") || same(k, "n") {
                        Some((Key::character(k), shift))
                    } else if same(k, "t") {
                        Some((Key::character(k), Mods { alt: true, ..none }))
                    } else {
                        None
                    }
                },
                None => None,
            },
            Key::Named(n) => {
                if arrow(*n) {
                    Some((Key::Named(*n), shift))
                } else {
                    None
                }
            },
            Key::Other => None,
        };
    }
    if mods.ctrl && !mods.shift && !mods.alt {
        if let Key::Character(s) = key {
            if same(s.as_str(), "-") || same(s.as_str(), "0") {
                return Some((Key::character(s.as_str()), none));
            }
        }
    }
    None
}

/// Control with a letter alone is never taken from the shell.
pub proof fn law_plain_control_letters_reach_the_shell(c: char, mods: Mods)
    requires
        mods.ctrl,
        !mods.shift,
        65 <= c as int <= 90 || 97 <= c as int <= 122,
    ensures
        linux_chord(KeyView::Character(seq![c]), mods) is None,
        digit_tab(KeyView::Character(seq![c]), mods) is None,
{
    reveal_strlit("-");
    reveal_strlit("0");
    assert("-"@[0] == '-');
    assert("0"@[0] == '0');
    assert(seq![c][0] == c);
}

/// Every translated chord is one without Control and without the logo key.
pub proof fn law_translated_chords_carry_no_control(key: KeyView, mods: Mods)
    ensures
        linux_chord(key, mods) matches Some(t) ==> !t.1.ctrl && !t.1.sup,
{
}

// ---- the cheat sheet -------------------------------------------------------

pub open spec fn help_row(mac: bool, mac_key: Seq<char>, linux_key: Seq<char>, about: Seq<char>) -> (
    Seq<char>,
    Seq<char>,
) {
    (if mac { mac_key } else { linux_key }, about)
}

/// The keyboard shortcuts, in sections; a row without a key heads a section.
pub open spec fn help_rows(mac: bool) -> Seq<(Seq<char>, Seq<char>)> {
    seq![
        help_row(mac, ""@, ""@, "PANES"@),
        help_row(mac, "Cmd+D"@, "Ctrl+Shift+D"@, "Split right (side by side)"@),
        help_row(mac, "Cmd+Shift+D"@, "Alt+Shift+D"@, "Split down (stacked)"@),
        help_row(mac, "Ctrl+Opt+Click"@, "Ctrl+Alt+Click"@, "Split by drop zone (drag to preview)"@),
        help_row(mac, "Cmd+W"@, "Ctrl+Shift+W"@, "Close pane"@),
        help_row(mac, "Click pane"@, "Click pane"@, "Focus it"@),
        help_row(mac, "Cmd+Arrows"@, "Ctrl+Shift+Arrows"@, "Focus pane"@),
        help_row(mac, ""@, ""@, "TABS"@),
        help_row(mac, "Cmd+T"@, "Ctrl+Shift+T"@, "New tab"@),
        help_row(mac, "Cmd+N"@, "Ctrl+Shift+N"@, "New window"@),
        help_row(mac, "Cmd+Shift+Arrows"@, "Alt+Shift+Arrows"@, "Switch tab"@),
        help_row(mac, "Cmd+1..9"@, "Alt+1..9"@, "Jump to tab"@),
        help_row(mac, "Drag / Double-click"@, "Drag / Double-click"@, "Reorder / rename tab"@),
        help_row(mac, ""@, ""@, "WINDOWS"@),
        help_row(mac, "Cmd+Shift+N"@, "Alt+Shift+N"@, "Move tab to new window"@),
        help_row(mac, "Cmd+Opt+T"@, "Alt+Shift+T"@, "Promote pane to tab"@),
        help_row(mac, "Window menu"@, "Window menu"@, "Move tab to next/previous window, promote pane to new window, merge tab"@),
        help_row(mac, ""@, ""@, "SELECTION & CLIPBOARD"@),
        help_row(mac, "Drag / 2\u{d7}/3\u{d7} click"@, "Drag / 2\u{d7}/3\u{d7} click"@, "Select text / word / line"@),
        help_row(mac, "Cmd+C / Cmd+V"@, "Ctrl+Shift+C / Ctrl+Shift+V"@, "Copy / paste"@),
        help_row(mac, ""@, ""@, "SCROLLBACK"@),
        help_row(mac, "Wheel / Shift+PgUp/Dn"@, "Wheel / Shift+PgUp/Dn"@, "Scroll history"@),
        help_row(mac, "Shift+Home / End"@, "Shift+Home / End"@, "Jump to top / bottom"@),
        help_row(mac, "Cmd+[ / Cmd+]"@, "Ctrl+Shift+[ / ]"@, "Previous / next prompt"@),
        help_row(mac, ""@, ""@, "VIEW"@),
        help_row(mac, "Cmd+= / Cmd+-"@, "Ctrl+Shift+= / Ctrl+-"@, "Zoom in / out"@),
        help_row(mac, "Cmd+0"@, "Ctrl+0"@, "Reset zoom"@),
        help_row(mac, "Cmd+,"@, "Ctrl+Shift+,"@, "Settings"@),
        help_row(mac, "Cmd+/"@, "Ctrl+Shift+/"@, "This cheat sheet"@),
    ]
}

pub open spec fn rows_view(v: Seq<(String, String)>) -> Seq<(Seq<char>, Seq<char>)> {
    v.map_values(|r: (String, String)| (r.0@, r.1@))
}

fn push_help(rows: &mut Vec<(String, String)>, mac: bool, mac_key: &str, linux_key: &str, about: &str)
    ensures
        rows_view(final(rows)@) == rows_view(old(rows)@).push(
            help_row(mac, mac_key@, linux_key@, about@),
        ),
{
    let key: &str = if mac { mac_key } else { linux_key };
    let ghost before = rows@;
    rows.push((key.to_owned(), about.to_owned()));
    assert(rows_view(rows@) == rows_view(before).push(help_row(mac, mac_key@, linux_key@, about@)));
}

/// The keyboard shortcuts of the platform, in sections; a row without a key heads a section.
pub fn help_lines(mac: bool) -> (r: Vec<(String, String)>)
    ensures
        rows_view(r@) == help_rows(mac),
{
    let mut rows: Vec<(String, String)> = Vec::new();
    assert(rows_view(rows@) == Seq::<(Seq<char>, Seq<char>)>::empty());
    push_help(&mut rows, mac, "", "", "PANES");
    push_help(&mut rows, mac, "Cmd+D", "Ctrl+Shift+D", "Split right (side by side)");
    push_help(&mut rows, mac, "Cmd+Shift+D", "Alt+Shift+D", "Split down (stacked)");
    push_help(&mut rows, mac, "Ctrl+Opt+Click", "Ctrl+Alt+Click", "Split by drop zone (drag to preview)");
    push_help(&mut rows, mac, "Cmd+W", "Ctrl+Shift+W", "Close pane");
    push_help(&mut rows, mac, "Click pane", "Click pane", "Focus it");
    push_help(&mut rows, mac, "Cmd+Arrows", "Ctrl+Shift+Arrows", "Focus pane");
    push_help(&mut rows, mac, "", "", "TABS");
    push_help(&mut rows, mac, "Cmd+T", "Ctrl+Shift+T", "New tab");
    push_help(&mut rows, mac, "Cmd+N", "Ctrl+Shift+N", "New window");
    push_help(&mut rows, mac, "Cmd+Shift+Arrows", "Alt+Shift+Arrows", "Switch tab");
    push_help(&mut rows, mac, "Cmd+1..9", "Alt+1..9", "Jump to tab");
    push_help(&mut rows, mac, "Drag / Double-click", "Drag / Double-click", "Reorder / rename tab");
    push_help(&mut rows, mac, "", "", "WINDOWS");
    push_help(&mut rows, mac, "Cmd+Shift+N", "Alt+Shift+N", "Move tab to new window");
    push_help(&mut rows, mac, "Cmd+Opt+T", "Alt+Shift+T", "Promote pane to tab");
    push_help(&mut rows, mac, "Window menu", "Window menu", "Move tab to next/previous window, promote pane to new window, merge tab");
    push_help(&mut rows, mac, "", "", "SELECTION & CLIPBOARD");
    push_help(&mut rows, mac, "Drag / 2\u{d7}/3\u{d7} click", "Drag / 2\u{d7}/3\u{d7} click", "Select text / word / line");
    push_help(&mut rows, mac, "Cmd+C / Cmd+V", "Ctrl+Shift+C / Ctrl+Shift+V", "Copy / paste");
    push_help(&mut rows, mac, "", "", "SCROLLBACK");
    push_help(&mut rows, mac, "Wheel / Shift+PgUp/Dn", "Wheel / Shift+PgUp/Dn", "Scroll history");
    push_help(&mut rows, mac, "Shift+Home / End", "Shift+Home / End", "Jump to top / bottom");
    push_help(&mut rows, mac, "Cmd+[ / Cmd+]", "Ctrl+Shift+[ / ]", "Previous / next prompt");
    push_help(&mut rows, mac, "", "", "VIEW");
    push_help(&mut rows, mac, "Cmd+= / Cmd+-", "Ctrl+Shift+= / Ctrl+-", "Zoom in / out");
    push_help(&mut rows, mac, "Cmd+0", "Ctrl+0", "Reset zoom");
    push_help(&mut rows, mac, "Cmd+,", "Ctrl+Shift+,", "Settings");
    push_help(&mut rows, mac, "Cmd+/", "Ctrl+Shift+/", "This cheat sheet");
    assert(rows_view(rows@) =~= help_rows(mac));
    rows
}

// ---- pasting ---------------------------------------------------------------

pub open spec fn paste_open() -> Seq<char> {
    seq!['\x1b', '[', '2', '0', '0', '~']
}

pub open spec fn paste_close() -> Seq<char> {
    seq!['\x1b', '[', '2', '0', '1', '~']
}

/// `s` with the guards of a bracketed paste taken out once.
pub open spec fn guards_removed(s: Seq<char>) -> Seq<char> {
    without(without(s, paste_open()), paste_close())
}

pub proof fn lemma_without_shorter(s: Seq<char>, p: Seq<char>)
    requires
        p.len() > 0,
    ensures
        without(s, p).len() <= s.len(),
        without(s, p).len() == s.len() ==> without(s, p) == s && !contains_text(s, p),
    decreases s.len(),
{
    if s.len() > 0 {
        if starts_with_text(s, p) {
            lemma_without_shorter(s.skip(p.len() as int), p);
        } else {
            lemma_without_shorter(s.skip(1), p);
            let rest = s.skip(1);
            if without(s, p).len() == s.len() {
                assert(seq![s[0]] + rest == s);
                if contains_text(s, p) {
                    let at = choose|at: int| occurs_at(s, at, p);
                    if at == 0 {
                        assert(s.subrange(0, p.len() as int) == s.take(p.len() as int));
                    } else {
                        assert(rest.subrange(at - 1, at - 1 + p.len()) == s.subrange(
                            at,
                            at + p.len(),
                        ));
                        assert(occurs_at(rest, at - 1, p));
                    }
                }
            }
        }
    } else if contains_text(s, p) {
        let at = choose|at: int| occurs_at(s, at, p);
    }
}

/// `s` with the guards of a bracketed paste taken out, until none is left.
pub open spec fn unguarded(s: Seq<char>) -> Seq<char>
    decreases s.len(),
{
    if guards_removed(s).len() < s.len() {
        unguarded(guards_removed(s))
    } else {
        s
    }
}

/// No guard is left in the pasted text, so it cannot end the paste.
pub proof fn law_pasted_text_holds_no_guard(s: Seq<char>)
    ensures
        !contains_text(unguarded(s), paste_open()),
        !contains_text(unguarded(s), paste_close()),
    decreases s.len(),
{
    lemma_without_shorter(s, paste_open());
    lemma_without_shorter(without(s, paste_open()), paste_close());
    if guards_removed(s).len() < s.len() {
        law_pasted_text_holds_no_guard(guards_removed(s));
    }
}

/// A text without guards is pasted as it is.
pub proof fn law_plain_text_is_pasted_whole(s: Seq<char>)
    requires
        !contains_text(s, paste_open()),
        !contains_text(s, paste_close()),
    ensures
        unguarded(s) == s,
{
    lemma_without_absent(s, paste_open());
    lemma_without_absent(s, paste_close());
}

proof fn lemma_without_absent(s: Seq<char>, p: Seq<char>)
    requires
        p.len() > 0,
        !contains_text(s, p),
    ensures
        without(s, p) == s,
    decreases s.len(),
{
    if s.len() > 0 {
        if starts_with_text(s, p) {
            assert(s.subrange(0, p.len() as int) == s.take(p.len() as int));
            assert(occurs_at(s, 0, p));
        } else {
            let rest = s.skip(1);
            if contains_text(rest, p) {
                let at = choose|at: int| occurs_at(rest, at, p);
                assert(rest.subrange(at, at + p.len()) == s.subrange(at + 1, at + 1 + p.len()));
                assert(occurs_at(s, at + 1, p));
            }
            lemma_without_absent(rest, p);
            assert(seq![s[0]] + rest == s);
        }
    }
}

/// What is sent to paste `text`.
pub open spec fn pasted(text: Seq<char>, bracketed: bool) -> Seq<char> {
    if bracketed {
        paste_open() + unguarded(text) + paste_close()
    } else {
        text
    }
}

fn guard(last: char) -> (r: Vec<char>)
    ensures
        last == '0' ==> r@ == paste_open(),
        last == '1' ==> r@ == paste_close(),
{
    let mut g: Vec<char> = Vec::new();
    g.push('\x1b');
    g.push('[');
    g.push('2');
    g.push('0');
    g.push(last);
    g.push('~');
    assert(last == '0' ==> g@ =~= paste_open());
    assert(last == '1' ==> g@ =~= paste_close());
    g
}

/// The bytes that paste `text`. A bracketed paste stands between guards, and the text itself is
/// freed of them first.
pub fn bracket_paste(text: &str, bracketed: bool) -> (r: Vec<u8>)
    ensures
        r@ == encode_utf8(pasted(text@, bracketed)),
{
    if !bracketed {
        return text.as_bytes_vec();
    }
    let open = guard('0');
    let close = guard('1');
    let mut cleaned = to_chars(text);
    loop
        invariant
            open@ == paste_open(),
            close@ == paste_close(),
            unguarded(cleaned@) == unguarded(text@),
        ensures
            cleaned@ == unguarded(text@),
        decreases cleaned@.len(),
    {
        let once = remove_all(cleaned.as_slice(), open.as_slice());
        let twice = remove_all(once.as_slice(), close.as_slice());
        if twice.len() >= cleaned.len() {
            break;
        }
        cleaned = twice;
    }
    let mut out = from_chars(open.as_slice());
    out.append(from_chars(cleaned.as_slice()).as_str());
    out.append(from_chars(close.as_slice()).as_str());
    out.as_str().as_bytes_vec()
}

/// The bytes sent to the focused pane to paste `text`; nothing is sent for an empty text, not even
/// the guards.
pub fn paste_bytes(text: &str, bracketed: bool) -> (r: Option<Vec<u8>>)
    ensures
        r is None <==> text@.len() == 0,
        r matches Some(b) ==> b@ == encode_utf8(pasted(text@, bracketed)),
{
    if text.unicode_len() == 0 {
        return None;
    }
    Some(bracket_paste(text, bracketed))
}

// ---- what keys mean --------------------------------------------------------

/// The arrows, Home and End send the letters A, B, C, D, H and F of xterm: with Shift, Alt or
/// Control after `ESC [ 1 ;` and a digit that counts Shift as 1, Alt as 2 and Control as 4 from 1
/// on; otherwise after `ESC O` in application mode and `ESC [` out of it.
pub proof fn law_cursor_keys_send_their_letters(
    key: NamedKey,
    letter: char,
    mods: Mods,
    app_cursor: bool,
    alt_meta: bool,
)
    requires
        (key == NamedKey::ArrowUp && letter == 'A') || (key == NamedKey::ArrowDown && letter == 'B')
            || (key == NamedKey::ArrowRight && letter == 'C') || (key == NamedKey::ArrowLeft
            && letter == 'D') || (key == NamedKey::Home && letter == 'H') || (key == NamedKey::End
            && letter == 'F'),
    ensures
        key_text(KeyView::Named(key), mods, app_cursor, alt_meta) == Some(
            if mods.shift || mods.alt || mods.ctrl {
                let m: int = 49 + (if mods.shift { 1int } else { 0 }) + (if mods.alt {
                    2int
                } else {
                    0
                }) + (if mods.ctrl { 4int } else { 0 });
                seq!['\x1b', '[', '1', ';', m as char, letter]
            } else if app_cursor {
                seq!['\x1b', 'O', letter]
            } else {
                seq!['\x1b', '[', letter]
            },
        ),
{
    let n = modifier_number(mods);
    assert(decimal(n) == seq![(48 + n) as char]);
    assert(seq!['\x1b', '[', '1', ';'] + decimal(n) + seq![letter] =~= seq![
        '\x1b',
        '[',
        '1',
        ';',
        (48 + n) as char,
        letter,
    ]);
}

/// F1 to F4 send the letters P, Q, R and S, after `ESC O` where no modifier is held, whatever the
/// mode.
pub proof fn law_first_function_keys_send_their_letters(
    key: NamedKey,
    letter: char,
    mods: Mods,
    app_cursor: bool,
    alt_meta: bool,
)
    requires
        (key == NamedKey::F1 && letter == 'P') || (key == NamedKey::F2 && letter == 'Q') || (key
            == NamedKey::F3 && letter == 'R') || (key == NamedKey::F4 && letter == 'S'),
    ensures
        key_text(KeyView::Named(key), mods, app_cursor, alt_meta) == Some(
            if mods.shift || mods.alt || mods.ctrl {
                let m: int = 49 + (if mods.shift { 1int } else { 0 }) + (if mods.alt {
                    2int
                } else {
                    0
                }) + (if mods.ctrl { 4int } else { 0 });
                seq!['\x1b', '[', '1', ';', m as char, letter]
            } else {
                seq!['\x1b', 'O', letter]
            },
        ),
{
    let n = modifier_number(mods);
    assert(decimal(n) == seq![(48 + n) as char]);
    assert(seq!['\x1b', '[', '1', ';'] + decimal(n) + seq![letter] =~= seq![
        '\x1b',
        '[',
        '1',
        ';',
        (48 + n) as char,
        letter,
    ]);
}

/// The keys for editing and the function keys from F5 on send their number between `ESC [` and a
/// tilde, with the digit of the modifiers behind a semicolon where any is held.
pub proof fn law_numbered_keys_send_their_numbers(
    key: NamedKey,
    tens: char,
    ones: char,
    mods: Mods,
    app_cursor: bool,
    alt_meta: bool,
)
    requires
        (key == NamedKey::Insert && tens == '0' && ones == '2') || (key == NamedKey::Delete && tens
            == '0' && ones == '3') || (key == NamedKey::PageUp && tens == '0' && ones == '5') || (key
            == NamedKey::PageDown && tens == '0' && ones == '6') || (key == NamedKey::F5 && tens
            == '1' && ones == '5') || (key == NamedKey::F6 && tens == '1' && ones == '7') || (key
            == NamedKey::F7 && tens == '1' && ones == '8') || (key == NamedKey::F8 && tens == '1'
            && ones == '9') || (key == NamedKey::F9 && tens == '2' && ones == '0') || (key
            == NamedKey::F10 && tens == '2' && ones == '1') || (key == NamedKey::F11 && tens == '2'
            && ones == '3') || (key == NamedKey::F12 && tens == '2' && ones == '4'),
    ensures
        key_text(KeyView::Named(key), mods, app_cursor, alt_meta) == Some(
            ({
                let m: int = 49 + (if mods.shift { 1int } else { 0 }) + (if mods.alt {
                    2int
                } else {
                    0
                }) + (if mods.ctrl { 4int } else { 0 });
                (if tens == '0' {
                    seq!['\x1b', '[', ones]
                } else {
                    seq!['\x1b', '[', tens, ones]
                }) + (if m > 49 { seq![';', m as char, '~'] } else { seq!['~'] })
            }),
        ),
{
    let n = modifier_number(mods);
    assert(decimal(n) == seq![(48 + n) as char]);
    let (t, o) = ((tens as int - 48) as nat, (ones as int - 48) as nat);
    let k = t * 10 + o;
    crate::text::law_numbers_are_written_in_tens(t, o);
    let text = key_text(KeyView::Named(key), mods, app_cursor, alt_meta)->0;
    assert(decimal(k) =~= if tens == '0' { seq![ones] } else { seq![tens, ones] });
    assert(text =~= (if tens == '0' {
        seq!['\x1b', '[', ones]
    } else {
        seq!['\x1b', '[', tens, ones]
    }) + (if n > 1 { seq![';', (48 + n) as char, '~'] } else { seq!['~'] }));
}

/// Enter, Backspace, Tab, Escape and Space send one byte each, as Meta behind an escape; Shift and
/// Tab go back, and Control with Space sends a zero.
pub proof fn law_typing_keys_send_their_bytes(mods: Mods, app_cursor: bool, alt_meta: bool)
    ensures
        ({
            let sent = |k: NamedKey| key_text(KeyView::Named(k), mods, app_cursor, alt_meta);
            let simple = |c: char| if alt_meta { seq!['\x1b', c] } else { seq![c] };
            &&& sent(NamedKey::Enter) == Some(simple('\r'))
            &&& sent(NamedKey::Backspace) == Some(simple('\x7f'))
            &&& sent(NamedKey::Tab) == Some(
                if mods.shift {
                    seq!['\x1b', '[', 'Z']
                } else {
                    simple('\t')
                },
            )
            &&& sent(NamedKey::Escape) == Some(seq!['\x1b'])
            &&& sent(NamedKey::Space) == Some(
                if mods.ctrl {
                    simple('\x00')
                } else {
                    simple(' ')
                },
            )
            &&& sent(NamedKey::Other) is None
        }),
{
    assert(seq!['\x1b'] + seq!['\r'] =~= seq!['\x1b', '\r']);
    assert(seq!['\x1b'] + seq!['\x7f'] =~= seq!['\x1b', '\x7f']);
    assert(seq!['\x1b'] + seq!['\t'] =~= seq!['\x1b', '\t']);
    assert(seq!['\x1b'] + seq!['\x00'] =~= seq!['\x1b', '\x00']);
    assert(seq!['\x1b'] + seq![' '] =~= seq!['\x1b', ' ']);
}

/// With the same modifiers and mode, two of the arrows, Home and End never send the same: what
/// they send ends in different letters.
pub proof fn law_cursor_keys_differ(
    a: NamedKey,
    b: NamedKey,
    mods: Mods,
    app_cursor: bool,
    alt_meta: bool,
)
    requires
        a != b,
        is_arrow(a) || a == NamedKey::Home || a == NamedKey::End,
        is_arrow(b) || b == NamedKey::Home || b == NamedKey::End,
    ensures
        key_text(KeyView::Named(a), mods, app_cursor, alt_meta) is Some,
        key_text(KeyView::Named(b), mods, app_cursor, alt_meta) is Some,
        key_text(KeyView::Named(a), mods, app_cursor, alt_meta)->0.last() != key_text(
            KeyView::Named(b),
            mods,
            app_cursor,
            alt_meta,
        )->0.last(),
        is_arrow(NamedKey::ArrowUp) && is_arrow(NamedKey::ArrowDown) && is_arrow(
            NamedKey::ArrowLeft,
        ) && is_arrow(NamedKey::ArrowRight),
{
    lemma_cursor_letter(a, mods, app_cursor, alt_meta);
    lemma_cursor_letter(b, mods, app_cursor, alt_meta);
}

proof fn lemma_cursor_letter(key: NamedKey, mods: Mods, app_cursor: bool, alt_meta: bool)
    requires
        is_arrow(key) || key == NamedKey::Home || key == NamedKey::End,
    ensures
        ({
            let t = key_text(KeyView::Named(key), mods, app_cursor, alt_meta);
            &&& t is Some
            &&& t->0.last() == match key {
                NamedKey::ArrowUp => 'A',
                NamedKey::ArrowDown => 'B',
                NamedKey::ArrowRight => 'C',
                NamedKey::ArrowLeft => 'D',
                NamedKey::Home => 'H',
                _ => 'F',
            }
        }),
{
    let letter = match key {
        NamedKey::ArrowUp => 'A',
        NamedKey::ArrowDown => 'B',
        NamedKey::ArrowRight => 'C',
        NamedKey::ArrowLeft => 'D',
        NamedKey::Home => 'H',
        _ => 'F',
    };
    law_cursor_keys_send_their_letters(key, letter, mods, app_cursor, alt_meta);
}

/// Control takes 64 off the characters from `@` to `_` and 96 off the small letters; the digits
/// from 2 to 8, the slash and the question mark stand for the others. Nothing else has a control
/// character.
pub proof fn law_control_characters(c: char)
    ensures
        '@' <= c <= '_' ==> control_char(c) == Some((c as int - 64) as char),
        'a' <= c <= 'z' ==> control_char(c) == Some((c as int - 96) as char),
        '3' <= c <= '7' ==> control_char(c) == Some((c as int - 24) as char),
        c == '2' ==> control_char(c) == Some('\x00'),
        c == '/' ==> control_char(c) == Some('\x1f'),
        c == '8' || c == '?' ==> control_char(c) == Some('\x7f'),
        !('@' <= c <= '_' || 'a' <= c <= 'z' || '2' <= c <= '8' || c == '/' || c == '?')
            ==> control_char(c) is None,
{
}

/// With Control a text sends the control character of its first character, or itself where there
/// is none; an escape goes in front for Meta.
pub proof fn law_control_and_text(s: Seq<char>, mods: Mods, app_cursor: bool, alt_meta: bool)
    requires
        s.len() > 0,
        mods.ctrl,
    ensures
        key_text(KeyView::Character(s), mods, app_cursor, alt_meta) == Some(
            (if alt_meta { seq!['\x1b'] } else { Seq::empty() }) + (match control_char(s[0]) {
                Some(c) => seq![c],
                None => s,
            }),
        ),
{
    let sent = key_text(KeyView::Character(s), mods, app_cursor, alt_meta)->0;
    assert(sent =~= (if alt_meta { seq!['\x1b'] } else { Seq::empty() }) + (match control_char(
        s[0],
    ) {
        Some(c) => seq![c],
        None => s,
    }));
}

/// The names of keys, in whatever case they are written; a single character names itself.
pub proof fn law_key_names(name: Seq<char>)
    ensures
        ({
            let s = ascii_lower(name);
            &&& s == "enter"@ || s == "return"@ ==> key_named(name) == Some(
                KeyView::Named(NamedKey::Enter),
            )
            &&& s == "tab"@ ==> key_named(name) == Some(KeyView::Named(NamedKey::Tab))
            &&& s == "esc"@ || s == "escape"@ ==> key_named(name) == Some(
                KeyView::Named(NamedKey::Escape),
            )
            &&& s == "backspace"@ ==> key_named(name) == Some(KeyView::Named(NamedKey::Backspace))
            &&& s == "space"@ ==> key_named(name) == Some(KeyView::Named(NamedKey::Space))
            &&& s == "left"@ || s == "arrowleft"@ ==> key_named(name) == Some(
                KeyView::Named(NamedKey::ArrowLeft),
            )
            &&& s == "right"@ || s == "arrowright"@ ==> key_named(name) == Some(
                KeyView::Named(NamedKey::ArrowRight),
            )
            &&& s == "up"@ || s == "arrowup"@ ==> key_named(name) == Some(
                KeyView::Named(NamedKey::ArrowUp),
            )
            &&& s == "down"@ || s == "arrowdown"@ ==> key_named(name) == Some(
                KeyView::Named(NamedKey::ArrowDown),
            )
            &&& s.len() == 1 ==> key_named(name) == Some(KeyView::Character(s))
            &&& key_named(name) is Some && s.len() != 1 ==> key_named(name)->0 is Named
        }),
{
    reveal_strlit("enter");
    reveal_strlit("return");
    reveal_strlit("tab");
    reveal_strlit("esc");
    reveal_strlit("escape");
    reveal_strlit("backspace");
    reveal_strlit("space");
    reveal_strlit("left");
    reveal_strlit("arrowleft");
    reveal_strlit("right");
    reveal_strlit("arrowright");
    reveal_strlit("up");
    reveal_strlit("arrowup");
    reveal_strlit("down");
    reveal_strlit("arrowdown");
    lemma_name_initials();
}

/// Names of keys that are equally long begin with different letters.
proof fn lemma_name_initials()
    ensures
        "enter"@.len() == 5 && "enter"@[0] == 'e',
        "return"@.len() == 6 && "return"@[0] == 'r',
        "tab"@.len() == 3 && "tab"@[0] == 't',
        "esc"@.len() == 3 && "esc"@[0] == 'e',
        "escape"@.len() == 6 && "escape"@[0] == 'e',
        "backspace"@.len() == 9 && "backspace"@[0] == 'b',
        "space"@.len() == 5 && "space"@[0] == 's',
        "left"@.len() == 4 && "left"@[0] == 'l',
        "arrowleft"@.len() == 9 && "arrowleft"@[0] == 'a' && "arrowleft"@[5] == 'l',
        "right"@.len() == 5 && "right"@[0] == 'r',
        "arrowright"@.len() == 10,
        "up"@.len() == 2,
        "arrowup"@.len() == 7,
        "down"@.len() == 4 && "down"@[0] == 'd',
        "arrowdown"@.len() == 9 && "arrowdown"@[0] == 'a' && "arrowdown"@[5] == 'd',
{
    reveal_strlit("enter");
    reveal_strlit("return");
    reveal_strlit("tab");
    reveal_strlit("esc");
    reveal_strlit("escape");
    reveal_strlit("backspace");
    reveal_strlit("space");
    reveal_strlit("left");
    reveal_strlit("arrowleft");
    reveal_strlit("right");
    reveal_strlit("arrowright");
    reveal_strlit("up");
    reveal_strlit("arrowup");
    reveal_strlit("down");
    reveal_strlit("arrowdown");
}

/// The names of the modifiers: each holds its own and lets the others be.
pub proof fn law_modifier_names(mods: Mods, name: Seq<char>)
    ensures
        ({
            let s = ascii_lower(name);
            let r = mod_added(mods, name);
            &&& s == "cmd"@ || s == "super"@ || s == "win"@ || s == "meta"@ ==> r == Some(
                Mods { sup: true, ..mods },
            )
            &&& s == "shift"@ ==> r == Some(Mods { shift: true, ..mods })
            &&& s == "alt"@ || s == "option"@ ==> r == Some(Mods { alt: true, ..mods })
            &&& s == "ctrl"@ || s == "control"@ ==> r == Some(Mods { ctrl: true, ..mods })
            &&& r matches Some(m) ==> s == "cmd"@ || s == "super"@ || s == "win"@ || s == "meta"@ || s
                == "shift"@ || s == "alt"@ || s == "option"@ || s == "ctrl"@ || s == "control"@
        }),
{
    lemma_modifier_initials();
}

proof fn lemma_modifier_initials()
    ensures
        "cmd"@.len() == 3 && "cmd"@[0] == 'c',
        "super"@.len() == 5 && "super"@[1] == 'u',
        "win"@.len() == 3 && "win"@[0] == 'w',
        "meta"@.len() == 4 && "meta"@[0] == 'm',
        "shift"@.len() == 5 && "shift"@[1] == 'h',
        "alt"@.len() == 3 && "alt"@[0] == 'a',
        "option"@.len() == 6,
        "ctrl"@.len() == 4 && "ctrl"@[0] == 'c',
        "control"@.len() == 7,
{
    reveal_strlit("cmd");
    reveal_strlit("super");
    reveal_strlit("win");
    reveal_strlit("meta");
    reveal_strlit("shift");
    reveal_strlit("alt");
    reveal_strlit("option");
    reveal_strlit("ctrl");
    reveal_strlit("control");
}

/// A chord is read from the right: the part behind the last plus sign names the key, and each part
/// in front of it a modifier that is held with it.
pub proof fn law_chords_are_read_from_their_parts(combo: Seq<char>, key: Seq<char>, m: Seq<char>)
    requires
        !key.contains('+') && trim_of(key) == key && key.len() > 0,
        !m.contains('+') && trim_of(m) == m && m.len() > 0,
    ensures
        chord(key) == (match key_named(key) {
            Some(k) => Some((k, Mods { shift: false, alt: false, ctrl: false, sup: false })),
            None => None,
        }),
        chord(m + seq!['+'] + key) == (match (
            mod_added(Mods { shift: false, alt: false, ctrl: false, sup: false }, m),
            key_named(key),
        ) {
            (Some(held), Some(k)) => Some((k, held)),
            _ => None,
        }),
        chord(combo + seq!['+'] + key) == (match (
            mods_named(chord_parts(combo)),
            key_named(key),
        ) {
            (Some(held), Some(k)) => Some((k, held)),
            _ => None,
        }),
{
    lemma_chord_parts_push(combo, key);
    lemma_chord_parts_push(m, key);
    lemma_chord_parts_one(key);
    lemma_chord_parts_one(m);
    assert(chord_parts(key).drop_last() =~= Seq::<Seq<char>>::empty());
    let all = chord_parts(combo + seq!['+'] + key);
    assert(all.drop_last() =~= chord_parts(combo));
    let two = chord_parts(m + seq!['+'] + key);
    assert(two.drop_last() =~= seq![m]);
    assert(seq![m].drop_last() =~= Seq::<Seq<char>>::empty());
    assert(mods_named(Seq::<Seq<char>>::empty()) == Some(Mods::spec_none()));
    assert(mods_named(seq![m]) == mod_added(Mods::spec_none(), m));
}

proof fn lemma_chord_parts_one(s: Seq<char>)
    requires
        !s.contains('+') && trim_of(s) == s && s.len() > 0,
    ensures
        chord_parts(s) == seq![s],
{
    crate::text::law_separators_part(s, s, '+');
    let t = seq![s].map_values(|p: Seq<char>| trim_of(p));
    assert(t =~= seq![s]);
    let keep = |p: Seq<char>| p.len() > 0;
    assert(Seq::<Seq<char>>::empty().push(s) =~= seq![s]);
    Seq::<Seq<char>>::empty().lemma_filter_push(s, keep);
    assert(Seq::<Seq<char>>::empty().filter(keep) =~= Seq::<Seq<char>>::empty());
}

proof fn lemma_chord_parts_push(combo: Seq<char>, key: Seq<char>)
    requires
        !key.contains('+') && trim_of(key) == key && key.len() > 0,
    ensures
        chord_parts(combo + seq!['+'] + key) == chord_parts(combo).push(key),
{
    crate::text::law_separators_part(combo, key, '+');
    let f = |p: Seq<char>| trim_of(p);
    let keep = |p: Seq<char>| p.len() > 0;
    let ps = parts(combo, '+');
    assert(ps.push(key).map_values(f) =~= ps.map_values(f).push(key));
    ps.map_values(f).lemma_filter_push(key, keep);
}

/// Alt with a digit from 1 to 9, and nothing else, jumps to the tab of that number.
pub proof fn law_alt_digits_count_tabs(key: KeyView, mods: Mods, n: usize)
    ensures
        digit_tab(key, mods) == Some(n) <==> mods.alt && !mods.sup && !mods.ctrl && 1 <= n <= 9 && key
            == KeyView::Character(seq![(48 + n) as char]),
{
    if let KeyView::Character(s) = key {
        if s.len() == 1 {
            assert(s =~= seq![s[0]]);
        }
        assert(seq![(48 + n) as char][0] == (48 + n) as char);
    }
}

/// On Linux, Control and Shift stand for Command, and Alt and Shift for Command and Shift, but for
/// T, where they stand for Command and Option; Control alone is Command for minus and zero. The
/// key stays the same, as it is without Shift.
pub proof fn law_linux_chords_stand_for_command(key: KeyView, mods: Mods)
    ensures
        linux_chord(key, mods) matches Some(t) ==> ({
            &&& !mods.sup
            &&& match key {
                KeyView::Named(n) => t.0 == key && (n == NamedKey::ArrowLeft || n
                    == NamedKey::ArrowRight || n == NamedKey::ArrowUp || n == NamedKey::ArrowDown),
                KeyView::Character(s) => t.0 matches KeyView::Character(k) && s.len() == 1 && k.len()
                    == 1 && (k == s || ('A' <= s[0] <= 'Z' && k[0] as int == s[0] as int + 32) || (s[0]
                    == '?' && k[0] == '/') || (s[0] == '<' && k[0] == ',') || (s[0] == '{' && k[0]
                    == '[') || (s[0] == '}' && k[0] == ']') || (s[0] == '+' && k[0] == '=') || (s[0]
                    == '_' && k[0] == '-')),
                KeyView::Other => false,
            }
            &&& mods.ctrl ==> !mods.alt && t.1 == (Mods {
                shift: false,
                alt: false,
                ctrl: false,
                sup: false,
            })
            &&& !mods.ctrl ==> mods.alt && mods.shift && t.1.shift == !t.1.alt && (t.1.alt <==> t.0
                == KeyView::Character(seq!['t']))
        }),
{
    lemma_unshifted_signs();
    if let KeyView::Character(s) = key {
        if unshifted(s) is Some {
            let k = unshifted(s)->0;
            assert(s.len() == 1 && k.len() == 1);
            assert(s =~= seq![s[0]]);
            assert(k =~= seq![k[0]]);
        }
        assert(seq!['t'][0] == 't');
        assert(s == "-"@ || s == "0"@ ==> s.len() == 1);
    }
}

proof fn lemma_unshifted_signs()
    ensures
        forall|s: Seq<char>| #[trigger]
            unshifted(s) matches Some(k) ==> s.len() == 1 && k.len() == 1 && (k[0] == s[0] || ('A'
                <= s[0] <= 'Z' && k[0] as int == s[0] as int + 32) || (s[0] == '?' && k[0] == '/') || (s[0]
                == '<' && k[0] == ',') || (s[0] == '{' && k[0] == '[') || (s[0] == '}' && k[0]
                == ']') || (s[0] == '+' && k[0] == '=') || (s[0] == '_' && k[0] == '-')),
        "t"@ == seq!['t'] && "d"@ == seq!['d'] && "p"@ == seq!['p'] && "n"@ == seq!['n'],
        "-"@ == seq!['-'] && "0"@ == seq!['0'],
{
    reveal_strlit("c");
    reveal_strlit("C");
    reveal_strlit("v");
    reveal_strlit("V");
    reveal_strlit("t");
    reveal_strlit("T");
    reveal_strlit("n");
    reveal_strlit("N");
    reveal_strlit("w");
    reveal_strlit("W");
    reveal_strlit("d");
    reveal_strlit("D");
    reveal_strlit("p");
    reveal_strlit("P");
    reveal_strlit("/");
    reveal_strlit("?");
    reveal_strlit(",");
    reveal_strlit("<");
    reveal_strlit("[");
    reveal_strlit("{");
    reveal_strlit("]");
    reveal_strlit("}");
    reveal_strlit("=");
    reveal_strlit("+");
    reveal_strlit("-");
    reveal_strlit("_");
    reveal_strlit("0");
    assert("t"@ =~= seq!['t']);
    assert("d"@ =~= seq!['d']);
    assert("p"@ =~= seq!['p']);
    assert("n"@ =~= seq!['n']);
    assert("-"@ =~= seq!['-']);
    assert("0"@ =~= seq!['0']);
}

/// The letters that Control and Shift make commands of on Linux, in either case, and those that
/// Alt and Shift do.
pub proof fn law_linux_letters_are_commands(s: Seq<char>, c: char, mods: Mods)
    requires
        s == seq![c] || s == seq![(c as int - 32) as char],
        c == 'c' || c == 'v' || c == 't' || c == 'n' || c == 'w' || c == 'd' || c == 'p',
        mods.shift && !mods.sup,
    ensures
        mods.ctrl && !mods.alt ==> linux_chord(KeyView::Character(s), mods) == Some(
            (
                KeyView::Character(seq![c]),
                Mods { shift: false, alt: false, ctrl: false, sup: false },
            ),
        ),
        mods.alt && !mods.ctrl && (c == 'd' || c == 'p' || c == 'n') ==> linux_chord(
            KeyView::Character(s),
            mods,
        ) == Some(
            (
                KeyView::Character(seq![c]),
                Mods { shift: true, alt: false, ctrl: false, sup: false },
            ),
        ),
        mods.alt && !mods.ctrl && c == 't' ==> linux_chord(KeyView::Character(s), mods) == Some(
            (
                KeyView::Character(seq![c]),
                Mods { shift: false, alt: true, ctrl: false, sup: false },
            ),
        ),
{
    lemma_unshifted_signs();
    lemma_letters();
    assert(s.len() == 1);
    assert(s =~= seq![s[0]]);
    assert(unshifted(s) is Some);
    let k = unshifted(s)->0;
    assert(k =~= seq![k[0]]);
}

proof fn lemma_letters()
    ensures
        "c"@ == seq!['c'] && "v"@ == seq!['v'] && "w"@ == seq!['w'],
        "C"@ == seq!['C'] && "V"@ == seq!['V'] && "W"@ == seq!['W'],
        "T"@ == seq!['T'] && "N"@ == seq!['N'] && "D"@ == seq!['D'] && "P"@ == seq!['P'],
{
    reveal_strlit("c");
    reveal_strlit("v");
    reveal_strlit("w");
    reveal_strlit("C");
    reveal_strlit("V");
    reveal_strlit("W");
    reveal_strlit("T");
    reveal_strlit("N");
    reveal_strlit("D");
    reveal_strlit("P");
    assert("c"@ =~= seq!['c']);
    assert("v"@ =~= seq!['v']);
    assert("w"@ =~= seq!['w']);
    assert("C"@ =~= seq!['C']);
    assert("V"@ =~= seq!['V']);
    assert("W"@ =~= seq!['W']);
    assert("T"@ =~= seq!['T']);
    assert("N"@ =~= seq!['N']);
    assert("D"@ =~= seq!['D']);
    assert("P"@ =~= seq!['P']);
}

/// The sheet has the same rows on both platforms, in the same order; only the keys differ.
pub proof fn law_sheets_differ_in_keys_only(i: int)
    requires
        0 <= i < help_rows(true).len(),
    ensures
        help_rows(true).len() == help_rows(false).len(),
        help_rows(true)[i].1 == help_rows(false)[i].1,
        help_rows(true)[i].0.len() == 0 <==> help_rows(false)[i].0.len() == 0,
{
    lemma_sheet_keys_are_texts();
}

proof fn lemma_sheet_keys_are_texts()
    ensures
        forall|i: int|
            0 <= i < help_rows(true).len() ==> ((#[trigger] help_rows(true)[i]).0.len() == 0
                <==> help_rows(false)[i].0.len() == 0),
{
    reveal_strlit("");
    reveal_strlit("Cmd+D");
    reveal_strlit("Ctrl+Shift+D");
    reveal_strlit("Cmd+Shift+D");
    reveal_strlit("Alt+Shift+D");
    reveal_strlit("Ctrl+Opt+Click");
    reveal_strlit("Ctrl+Alt+Click");
    reveal_strlit("Cmd+W");
    reveal_strlit("Ctrl+Shift+W");
    reveal_strlit("Cmd+Arrows");
    reveal_strlit("Ctrl+Shift+Arrows");
    reveal_strlit("Cmd+T");
    reveal_strlit("Ctrl+Shift+T");
    reveal_strlit("Cmd+N");
    reveal_strlit("Ctrl+Shift+N");
    reveal_strlit("Cmd+Shift+Arrows");
    reveal_strlit("Alt+Shift+Arrows");
    reveal_strlit("Cmd+1..9");
    reveal_strlit("Alt+1..9");
    reveal_strlit("Cmd+Shift+N");
    reveal_strlit("Alt+Shift+N");
    reveal_strlit("Cmd+Opt+T");
    reveal_strlit("Alt+Shift+T");
    reveal_strlit("Cmd+C / Cmd+V");
    reveal_strlit("Ctrl+Shift+C / Ctrl+Shift+V");
    reveal_strlit("Cmd+[ / Cmd+]");
    reveal_strlit("Ctrl+Shift+[ / ]");
    reveal_strlit("Cmd+= / Cmd+-");
    reveal_strlit("Ctrl+Shift+= / Ctrl+-");
    reveal_strlit("Cmd+0");
    reveal_strlit("Ctrl+0");
    reveal_strlit("Cmd+,");
    reveal_strlit("Ctrl+Shift+,");
    reveal_strlit("Cmd+/");
    reveal_strlit("Ctrl+Shift+/");
}

/// The sheet names each command with the chord that runs it, on either platform.
pub proof fn law_sheet_names_the_chords(mac: bool)
    ensures
        ({
            let named = |on_mac: Seq<char>, elsewhere: Seq<char>, about: Seq<char>|
                help_rows(mac).contains((if mac { on_mac } else { elsewhere }, about));
            &&& named("Cmd+D"@, "Ctrl+Shift+D"@, "Split right (side by side)"@)
            &&& named("Cmd+Shift+D"@, "Alt+Shift+D"@, "Split down (stacked)"@)
            &&& named("Cmd+W"@, "Ctrl+Shift+W"@, "Close pane"@)
            &&& named("Cmd+Arrows"@, "Ctrl+Shift+Arrows"@, "Focus pane"@)
            &&& named("Cmd+T"@, "Ctrl+Shift+T"@, "New tab"@)
            &&& named("Cmd+N"@, "Ctrl+Shift+N"@, "New window"@)
            &&& named("Cmd+Shift+Arrows"@, "Alt+Shift+Arrows"@, "Switch tab"@)
            &&& named("Cmd+1..9"@, "Alt+1..9"@, "Jump to tab"@)
            &&& named("Cmd+Shift+N"@, "Alt+Shift+N"@, "Move tab to new window"@)
            &&& named("Cmd+Opt+T"@, "Alt+Shift+T"@, "Promote pane to tab"@)
            &&& named("Cmd+C / Cmd+V"@, "Ctrl+Shift+C / Ctrl+Shift+V"@, "Copy / paste"@)
            &&& named("Cmd+[ / Cmd+]"@, "Ctrl+Shift+[ / ]"@, "Previous / next prompt"@)
            &&& named("Cmd+= / Cmd+-"@, "Ctrl+Shift+= / Ctrl+-"@, "Zoom in / out"@)
            &&& named("Cmd+0"@, "Ctrl+0"@, "Reset zoom"@)
            &&& named("Cmd+,"@, "Ctrl+Shift+,"@, "Settings"@)
            &&& named("Cmd+/"@, "Ctrl+Shift+/"@, "This cheat sheet"@)
        }),
{
    let rows = help_rows(mac);
    assert(rows.contains(rows[1]) && rows.contains(rows[2]) && rows.contains(rows[4])
        && rows.contains(rows[6]) && rows.contains(rows[8]) && rows.contains(rows[9])
        && rows.contains(rows[10]) && rows.contains(rows[11]) && rows.contains(rows[14])
        && rows.contains(rows[15]) && rows.contains(rows[19]) && rows.contains(rows[23])
        && rows.contains(rows[25]) && rows.contains(rows[26]) && rows.contains(rows[27])
        && rows.contains(rows[28]));
}

/// The guards of a bracketed paste are `ESC [ 200 ~` and `ESC [ 201 ~`, and nothing else is added
/// to the text.
pub proof fn law_pastes_stand_between_guards(text: Seq<char>)
    ensures
        pasted(text, false) == text,
        pasted(text, true) == seq!['\x1b', '[', '2', '0', '0', '~'] + unguarded(text) + seq![
            '\x1b',
            '[',
            '2',
            '0',
            '1',
            '~',
        ],
        !contains_text(unguarded(text), seq!['\x1b', '[', '2', '0', '0', '~']),
        !contains_text(unguarded(text), seq!['\x1b', '[', '2', '0', '1', '~']),
{
    law_pasted_text_holds_no_guard(text);
}

/// The signs that Control and Shift make commands of on Linux, as they are typed with Shift or
/// without; Control alone does so with minus and zero.
pub proof fn law_linux_signs_are_commands(typed: char, sign: char, mods: Mods)
    requires
        (sign == '/' && (typed == '/' || typed == '?')) || (sign == ',' && (typed == ',' || typed
            == '<')) || (sign == '[' && (typed == '[' || typed == '{')) || (sign == ']' && (typed
            == ']' || typed == '}')) || (sign == '=' && (typed == '=' || typed == '+')) || (sign
            == '-' && (typed == '-' || typed == '_')) || (sign == '0' && typed == '0'),
        mods.ctrl && !mods.alt && !mods.sup,
    ensures
        mods.shift ==> linux_chord(KeyView::Character(seq![typed]), mods) == Some(
            (
                KeyView::Character(seq![sign]),
                Mods { shift: false, alt: false, ctrl: false, sup: false },
            ),
        ),
        !mods.shift ==> linux_chord(KeyView::Character(seq![typed]), mods) == (if typed == '-'
            || typed == '0' {
            Some(
                (
                    KeyView::Character(seq![typed]),
                    Mods { shift: false, alt: false, ctrl: false, sup: false },
                ),
            )
        } else {
            None
        }),
{
    lemma_unshifted_signs();
    lemma_letters();
    lemma_signs();
    let s = seq![typed];
    assert(s[0] == typed);
    assert(unshifted(s) is Some);
    let k = unshifted(s)->0;
    assert(k =~= seq![k[0]]);
}

proof fn lemma_signs()
    ensures
        "/"@ == seq!['/'] && "?"@ == seq!['?'] && ","@ == seq![','] && "<"@ == seq!['<'],
        "["@ == seq!['['] && "{"@ == seq!['{'] && "]"@ == seq![']'] && "}"@ == seq!['}'],
        "="@ == seq!['='] && "+"@ == seq!['+'] && "-"@ == seq!['-'] && "_"@ == seq!['_'],
        "0"@ == seq!['0'],
{
    reveal_strlit("/");
    reveal_strlit("?");
    reveal_strlit(",");
    reveal_strlit("<");
    reveal_strlit("[");
    reveal_strlit("{");
    reveal_strlit("]");
    reveal_strlit("}");
    reveal_strlit("=");
    reveal_strlit("+");
    reveal_strlit("-");
    reveal_strlit("_");
    reveal_strlit("0");
    assert("/"@ =~= seq!['/']);
    assert("?"@ =~= seq!['?']);
    assert(","@ =~= seq![',']);
    assert("<"@ =~= seq!['<']);
    assert("["@ =~= seq!['[']);
    assert("{"@ =~= seq!['{']);
    assert("]"@ =~= seq![']']);
    assert("}"@ =~= seq!['}']);
    assert("="@ =~= seq!['=']);
    assert("+"@ =~= seq!['+']);
    assert("-"@ =~= seq!['-']);
    assert("_"@ =~= seq!['_']);
    assert("0"@ =~= seq!['0']);
}

/// On Linux the arrows keep their directions: with Control and Shift they are Command's, with Alt
/// and Shift those of Command and Shift.
pub proof fn law_linux_arrows_are_commands(n: NamedKey, mods: Mods)
    requires
        n == NamedKey::ArrowLeft || n == NamedKey::ArrowRight || n == NamedKey::ArrowUp || n
            == NamedKey::ArrowDown,
        mods.shift && !mods.sup && (mods.ctrl != mods.alt),
    ensures
        linux_chord(KeyView::Named(n), mods) == Some(
            (
                KeyView::Named(n),
                Mods { shift: mods.alt, alt: false, ctrl: false, sup: false },
            ),
        ),
{
}

/// No chord stands for Command and Q.
pub proof fn lemma_q_is_no_chord(key: KeyView, mods: Mods)
    ensures
        linux_chord(key, mods) matches Some((KeyView::Character(k), _)) ==> k.len() == 1 && k[0] != 'q'
            && k[0] != 'Q',
{
    lemma_unshifted_signs();
    lemma_letters();
    lemma_signs();
    if let KeyView::Character(s) = key {
        if unshifted(s) is Some {
            let k = unshifted(s)->0;
            assert(k.len() == 1);
        }
    }
}

/// A key is seen as what it is: a named one by its name, a character as its text.
pub proof fn law_keys_are_seen_as_they_are(k: Key, n: NamedKey, s: &str, m: Mods)
    ensures
        k == Key::Named(n) ==> k@ == KeyView::Named(n),
        k matches Key::Character(t) ==> k@ == KeyView::Character(t@),
        k is Other ==> k@ == KeyView::Other,
        call_ensures(Key::character, (s,), k) ==> k@ == KeyView::Character(s@),
        call_ensures(Mods::none, (), m) ==> !m.shift && !m.alt && !m.ctrl && !m.sup,
{
}

} // verus!
