//! Text as sequences of characters: comparison, decimal numbers, searching.

use vstd::prelude::*;

verus! {

broadcast use vstd::seq_lib::group_seq_properties;

/// `String::push` appends one character.
pub assume_specification[ String::push ](s: &mut String, c: char)
    ensures
        final(s)@ == old(s)@.push(c),
;

/// `==` of two string slices, which compares them character by character.
#[verifier::external_body]
pub(crate) fn same(a: &str, b: &str) -> (r: bool)
    ensures
        r == (a@ == b@),
{
    a == b
}

/// Whether a character has the Unicode property `White_Space`.
pub open spec fn is_white_space(c: char) -> bool {
    let n = c as int;
    ||| 0x9 <= n <= 0xd
    ||| n == 0x20
    ||| n == 0x85
    ||| n == 0xa0
    ||| n == 0x1680
    ||| 0x2000 <= n <= 0x200a
    ||| n == 0x2028
    ||| n == 0x2029
    ||| n == 0x202f
    ||| n == 0x205f
    ||| n == 0x3000
}

/// `s` without the white space at its ends.
pub open spec fn trim_of(s: Seq<char>) -> Seq<char>
    decreases s.len(),
{
    if s.len() == 0 {
        s
    } else if is_white_space(s[0]) {
        trim_of(s.skip(1))
    } else if is_white_space(s.last()) {
        trim_of(s.drop_last())
    } else {
        s
    }
}

/// `str::trim`: the text without the characters at both ends that Unicode calls white space.
#[verifier::external_body]
pub(crate) fn trim(s: &str) -> (r: String)
    ensures
        r@ == trim_of(s@),
{
    s.trim().to_string()
}

/// What `str::to_lowercase` makes of a text.
pub uninterp spec fn lowercase_of(s: Seq<char>) -> Seq<char>;

/// `str::to_lowercase`: the lower-case form by Unicode's rules.
#[verifier::external_body]
pub(crate) fn to_lowercase(s: &str) -> (r: String)
    ensures
        r@ == lowercase_of(s@),
{
    s.to_lowercase()
}

/// What the `Debug` form of a text is.
pub uninterp spec fn quoted_of(s: Seq<char>) -> Seq<char>;

/// The `Debug` form of a `str`: in double quotes, with escapes.
#[verifier::external_body]
pub(crate) fn quoted(s: &str) -> (r: String)
    ensures
        r@ == quoted_of(s@),
{
    format!("{s:?}")
}

/// The text that is there, if one is.
pub open spec fn opt_text(s: Option<String>) -> Option<Seq<char>> {
    match s {
        Some(t) => Some(t@),
        None => None,
    }
}

/// The text that is there, if one is.
pub open spec fn opt_view(s: Option<&str>) -> Option<Seq<char>> {
    match s {
        Some(t) => Some(t@),
        None => None,
    }
}

/// The characters of `s`, in order.
pub fn to_chars(s: &str) -> (r: Vec<char>)
    ensures
        r@ == s@,
{
    let mut out: Vec<char> = Vec::new();
    for c in it: s.chars()
        invariant
            out@ == it.seq().take(it.index() as int),
            it.seq() == s@,
    {
        out.push(c);
    }
    out
}

/// The text made of the characters `s`.
pub fn from_chars(s: &[char]) -> (r: String)
    ensures
        r@ == s@,
{
    let mut out = String::new();
    let mut i: usize = 0;
    while i < s.len()
        invariant
            i <= s@.len(),
            out@ == s@.take(i as int),
        decreases s@.len() - i,
    {
        out.push(s[i]);
        i += 1;
    }
    out
}

/// Takes the last character off a text.
pub fn pop(s: &mut String)
    ensures
        final(s)@ == (if old(s)@.len() == 0 { old(s)@ } else { old(s)@.drop_last() }),
{
    let chars = to_chars(s.as_str());
    if chars.len() > 0 {
        *s = from_chars(vstd::slice::slice_subrange(chars.as_slice(), 0, chars.len() - 1));
        assert(s@ == old(s)@.drop_last());
    }
}

/// Three texts one after the other.
pub fn concat3(a: &str, b: &str, c: &str) -> (r: String)
    ensures
        r@ == a@ + b@ + c@,
{
    let mut out = a.to_owned();
    out.append(b);
    out.append(c);
    out
}

// ---- decimal numbers -------------------------------------------------------

/// The character for a digit below ten.
pub open spec fn digit_char(d: nat) -> char {
    (48 + d) as char
}

pub open spec fn is_digit(c: char) -> bool {
    48 <= c as int <= 57
}

pub open spec fn digit_value(c: char) -> nat {
    (c as int - 48) as nat
}

/// `n` in decimal, without leading zeros.
pub open spec fn decimal(n: nat) -> Seq<char>
    decreases n,
{
    if n < 10 {
        seq![digit_char(n)]
    } else {
        decimal(n / 10).push(digit_char(n % 10))
    }
}

/// `n` zeros.
pub open spec fn zeros(n: nat) -> Seq<char> {
    Seq::new(n, |i: int| '0')
}

/// `n` in decimal, filled on the left with zeros to at least `width` digits.
pub open spec fn padded(n: nat, width: nat) -> Seq<char> {
    if decimal(n).len() < width {
        zeros((width - decimal(n).len()) as nat) + decimal(n)
    } else {
        decimal(n)
    }
}

pub open spec fn all_digits(s: Seq<char>) -> bool {
    forall|i: int| 0 <= i < s.len() ==> is_digit(#[trigger] s[i])
}

/// The number that a sequence of digits stands for.
pub open spec fn digits_value(s: Seq<char>) -> nat
    decreases s.len(),
{
    if s.len() == 0 {
        0
    } else {
        digits_value(s.drop_last()) * 10 + digit_value(s.last())
    }
}

/// What follows an optional leading `+`.
pub open spec fn unsigned_body(s: Seq<char>) -> Seq<char> {
    if s.len() > 0 && s[0] == '+' {
        s.skip(1)
    } else {
        s
    }
}

/// The number that `s` spells: an optional `+` and at least one digit.
pub open spec fn decimal_value(s: Seq<char>) -> Option<nat> {
    if unsigned_body(s).len() > 0 && all_digits(unsigned_body(s)) {
        Some(digits_value(unsigned_body(s)))
    } else {
        None
    }
}

/// Why a text is no number of the wanted type.
#[derive(Clone, Copy, Debug, PartialEq, Eq, Structural)]
pub enum IntError {
    Empty,
    InvalidDigit,
    TooLarge,
}

impl IntError {
    pub open spec fn spec_text(self) -> Seq<char> {
        match self {
            IntError::Empty => "cannot parse integer from empty string"@,
            IntError::InvalidDigit => "invalid digit found in string"@,
            IntError::TooLarge => "number too large to fit in target type"@,
        }
    }

    /// The error in words.
    pub fn text(&self) -> (r: &'static str)
        ensures
            r@ == self.spec_text(),
    {
        match self {
            IntError::Empty => "cannot parse integer from empty string",
            IntError::InvalidDigit => "invalid digit found in string",
            IntError::TooLarge => "number too large to fit in target type",
        }
    }
}

/// The first digit position whose prefix is no number up to `max` decides the error.
pub open spec fn scan_digits(body: Seq<char>, max: nat) -> Result<nat, IntError>
    decreases body.len(),
{
    if body.len() == 0 {
        Ok(0)
    } else {
        match scan_digits(body.drop_last(), max) {
            Err(e) => Err(e),
            Ok(v) => if !is_digit(body.last()) {
                Err(IntError::InvalidDigit)
            } else if v * 10 + digit_value(body.last()) > max {
                Err(IntError::TooLarge)
            } else {
                Ok((v * 10 + digit_value(body.last())) as nat)
            },
        }
    }
}

/// Reading `s` as an unsigned number of at most `max`.
pub open spec fn parse_result(s: Seq<char>, max: nat) -> Result<nat, IntError> {
    if s.len() == 0 {
        Err(IntError::Empty)
    } else if unsigned_body(s).len() == 0 {
        Err(IntError::InvalidDigit)
    } else {
        scan_digits(unsigned_body(s), max)
    }
}

/// Scanning succeeds exactly on digits whose value fits.
pub proof fn lemma_scan_digits(body: Seq<char>, max: nat)
    ensures
        scan_digits(body, max) is Ok <==> all_digits(body) && digits_value(body) <= max,
        scan_digits(body, max) matches Ok(v) ==> v == digits_value(body),
    decreases body.len(),
{
    if body.len() > 0 {
        lemma_scan_digits(body.drop_last(), max);
        let init = body.drop_last();
        assert(all_digits(body) ==> all_digits(init)) by {
            if all_digits(body) {
                assert forall|i: int| 0 <= i < init.len() implies is_digit(#[trigger] init[i]) by {
                    assert(init[i] == body[i]);
                }
            }
        }
        assert(all_digits(init) && is_digit(body.last()) ==> all_digits(body)) by {
            if all_digits(init) && is_digit(body.last()) {
                assert forall|i: int| 0 <= i < body.len() implies is_digit(#[trigger] body[i]) by {
                    if i < init.len() {
                        assert(init[i] == body[i]);
                    }
                }
            }
        }
        assert(all_digits(body) ==> is_digit(body.last()));
    }
}

/// An error in a prefix is the error of the whole.
proof fn lemma_scan_error(body: Seq<char>, max: nat, k: int, e: IntError)
    requires
        0 <= k <= body.len(),
        scan_digits(body.take(k), max) == Err::<nat, IntError>(e),
    ensures
        scan_digits(body, max) == Err::<nat, IntError>(e),
    decreases body.len(),
{
    if k == body.len() {
        assert(body.take(k) == body);
    } else {
        assert(body.drop_last().take(k) == body.take(k));
        lemma_scan_error(body.drop_last(), max, k, e);
    }
}

/// A number is read exactly where the text spells one that is not above `max`.
pub proof fn lemma_parse_result(s: Seq<char>, max: nat)
    ensures
        parse_result(s, max) is Ok <==> decimal_value(s) is Some && decimal_value(s)->0 <= max,
        parse_result(s, max) matches Ok(v) ==> decimal_value(s) == Some(v),
{
    lemma_scan_digits(unsigned_body(s), max);
}

/// Reads `s` as an unsigned number of at most `max`.
pub fn parse_up_to(s: &str, max: u64) -> (r: Result<u64, IntError>)
    ensures
        match r {
            Ok(v) => parse_result(s@, max as nat) == Ok::<nat, IntError>(v as nat),
            Err(e) => parse_result(s@, max as nat) == Err::<nat, IntError>(e),
        },
{
    let chars = to_chars(s);
    if chars.len() == 0 {
        return Err(IntError::Empty);
    }
    let start: usize = if chars[0] == '+' { 1 } else { 0 };
    if start == chars.len() {
        return Err(IntError::InvalidDigit);
    }
    let ghost body = unsigned_body(s@);
    assert(body == s@.skip(start as int));
    let mut i: usize = start;
    let mut v: u64 = 0;
    while i < chars.len()
        invariant
            start <= i <= chars@.len(),
            chars@ == s@,
            body == s@.skip(start as int),
            body == unsigned_body(s@),
            body.len() > 0,
            s@.len() > 0,
            scan_digits(body.take(i - start), max as nat) == Ok::<nat, IntError>(v as nat),
            v <= max,
        decreases chars@.len() - i,
    {
        let c = chars[i];
        let ghost here = body.take(i + 1 - start);
        assert(here.drop_last() == body.take(i - start));
        assert(here.last() == c);
        if c < '0' || c > '9' {
            proof {
                lemma_scan_error(body, max as nat, i + 1 - start, IntError::InvalidDigit);
            }
            return Err(IntError::InvalidDigit);
        }
        let d: u64 = (c as u64) - 48;
        let grown: u128 = v as u128 * 10 + d as u128;
        if grown > max as u128 {
            proof {
                lemma_scan_error(body, max as nat, i + 1 - start, IntError::TooLarge);
            }
            return Err(IntError::TooLarge);
        }
        v = grown as u64;
        i += 1;
    }
    assert(body.take(i - start) == body);
    Ok(v)
}

/// Appends `n` in decimal.
pub fn push_decimal(out: &mut String, n: u64)
    ensures
        final(out)@ == old(out)@ + decimal(n as nat),
    decreases n,
{
    if n >= 10 {
        push_decimal(out, n / 10);
    }
    let d: u8 = 48 + (n % 10) as u8;
    out.push(d as char);
}

/// `n` in decimal.
pub fn to_decimal(n: u64) -> (r: String)
    ensures
        r@ == decimal(n as nat),
{
    let mut out = String::new();
    push_decimal(&mut out, n);
    out
}

/// Appends `n` in decimal, filled with zeros to at least `width` digits.
pub fn push_padded(out: &mut String, n: u64, width: usize)
    ensures
        final(out)@ == old(out)@ + padded(n as nat, width as nat),
{
    let digits = to_decimal(n);
    let len = digits.as_str().unicode_len();
    let mut k: usize = len;
    let ghost before = out@;
    while k < width
        invariant
            len <= k,
            len < width ==> k <= width,
            width <= len ==> k == len,
            out@ == before + zeros((k - len) as nat),
        decreases width - k,
    {
        out.push('0');
        assert(zeros((k - len) as nat).push('0') == zeros((k + 1 - len) as nat));
        k += 1;
    }
    out.append(digits.as_str());
}

/// Every number in decimal is a nonempty run of digits that stands for the number.
pub proof fn lemma_decimal(n: nat)
    ensures
        decimal(n).len() > 0,
        all_digits(decimal(n)),
        digits_value(decimal(n)) == n,
        decimal_value(decimal(n)) == Some(n),
    decreases n,
{
    if n < 10 {
        assert(decimal(n).drop_last() == Seq::<char>::empty());
        reveal_with_fuel(digits_value, 2);
    } else {
        lemma_decimal(n / 10);
        assert(decimal(n).drop_last() == decimal(n / 10));
    }
    assert(is_digit(decimal(n)[0]));
    assert(unsigned_body(decimal(n)) == decimal(n));
}

/// Leading zeros do not change the number.
pub proof fn lemma_padded(n: nat, width: nat)
    ensures
        padded(n, width).len() >= width,
        padded(n, width).len() > 0,
        all_digits(padded(n, width)),
        digits_value(padded(n, width)) == n,
        decimal_value(padded(n, width)) == Some(n),
{
    lemma_decimal(n);
    if decimal(n).len() < width {
        lemma_zeros_value((width - decimal(n).len()) as nat, decimal(n));
    }
    let s = padded(n, width);
    assert(is_digit(s[0]));
    assert(unsigned_body(s) == s);
}

proof fn lemma_zeros_value(k: nat, s: Seq<char>)
    ensures
        digits_value(zeros(k) + s) == digits_value(s),
    decreases k + s.len(),
{
    if s.len() == 0 {
        assert(zeros(k) + s == zeros(k));
        if k > 0 {
            assert(zeros(k).drop_last() == zeros((k - 1) as nat) + s);
            lemma_zeros_value((k - 1) as nat, s);
        }
    } else {
        assert((zeros(k) + s).drop_last() == zeros(k) + s.drop_last());
        lemma_zeros_value(k, s.drop_last());
    }
}

/// A number below a power of ten has at most that many digits.
pub proof fn lemma_decimal_len(n: nat)
    ensures
        n < 100 ==> decimal(n).len() <= 2,
        n < 10000 ==> decimal(n).len() <= 4,
{
    reveal_with_fuel(decimal, 5);
}

// ---- searching -------------------------------------------------------------

pub open spec fn starts_with_text(s: Seq<char>, p: Seq<char>) -> bool {
    p.len() <= s.len() && s.take(p.len() as int) == p
}

/// Whether `s` begins with `p`.
pub fn starts_with(s: &str, p: &str) -> (r: bool)
    ensures
        r == starts_with_text(s@, p@),
{
    let cs = to_chars(s);
    let ps = to_chars(p);
    matches_at(&cs, 0, &ps)
}

/// Whether `p` stands in `s` at `at`.
pub open spec fn occurs_at(s: Seq<char>, at: int, p: Seq<char>) -> bool {
    0 <= at && at + p.len() <= s.len() && s.subrange(at, at + p.len()) == p
}

/// Whether `p` stands in `s` at `at`.
pub fn matches_at(s: &[char], at: usize, p: &[char]) -> (r: bool)
    requires
        at <= s@.len(),
    ensures
        r == occurs_at(s@, at as int, p@),
        at == 0 ==> r == starts_with_text(s@, p@),
{
    proof {
        if p@.len() <= s@.len() {
            assert(s@.subrange(0, p@.len() as int) == s@.take(p@.len() as int));
        }
    }
    let len: usize = s.len();
    if len - at < p.len() {
        return false;
    }
    let mut i: usize = 0;
    while i < p.len()
        invariant
            i <= p@.len(),
            at + p@.len() <= s@.len() <= usize::MAX,
            forall|j: int| 0 <= j < i ==> s@[at + j] == p@[j],
        decreases p@.len() - i,
    {
        if s[at + i] != p[i] {
            assert(s@.subrange(at as int, at + p@.len())[i as int] != p@[i as int]);
            return false;
        }
        i += 1;
    }
    assert(s@.subrange(at as int, at + p@.len()) == p@);
    true
}

/// Whether `p` stands somewhere in `s`.
pub open spec fn contains_text(s: Seq<char>, p: Seq<char>) -> bool {
    exists|at: int| occurs_at(s, at, p)
}

/// Whether `p` stands somewhere in `s`.
pub fn contains(s: &str, p: &str) -> (r: bool)
    ensures
        r == contains_text(s@, p@),
{
    let cs = to_chars(s);
    let ps = to_chars(p);
    let mut at: usize = 0;
    while at < cs.len()
        invariant
            at <= cs@.len(),
            cs@ == s@,
            ps@ == p@,
            forall|k: int| 0 <= k < at ==> !occurs_at(s@, k, p@),
        decreases cs@.len() - at,
    {
        if matches_at(&cs, at, &ps) {
            return true;
        }
        at += 1;
    }
    let r = matches_at(&cs, at, &ps);
    r
}

/// `s` with every occurrence of `p`, found from the left without overlap, taken out.
pub open spec fn without(s: Seq<char>, p: Seq<char>) -> Seq<char>
    recommends
        p.len() > 0,
    decreases s.len(),
{
    if s.len() == 0 || p.len() == 0 {
        s
    } else if starts_with_text(s, p) {
        without(s.skip(p.len() as int), p)
    } else {
        seq![s[0]] + without(s.skip(1), p)
    }
}

/// `s` with every occurrence of `p`, found from the left without overlap, taken out.
pub fn remove_all(s: &[char], p: &[char]) -> (r: Vec<char>)
    requires
        p@.len() > 0,
    ensures
        r@ == without(s@, p@),
{
    let mut out: Vec<char> = Vec::new();
    let mut i: usize = 0;
    assert(s@.skip(0) == s@);
    while i < s.len()
        invariant
            i <= s@.len(),
            p@.len() > 0,
            out@ + without(s@.skip(i as int), p@) == without(s@, p@),
        decreases s@.len() - i,
    {
        let ghost rest = s@.skip(i as int);
        let here = matches_at(s, i, p);
        proof {
            if i + p@.len() <= s@.len() {
                assert(rest.take(p@.len() as int) == s@.subrange(i as int, i + p@.len()));
                assert(rest.skip(p@.len() as int) == s@.skip(i + p@.len()));
            }
            assert(rest.skip(1) == s@.skip(i + 1));
            assert(rest[0] == s@[i as int]);
        }
        if here {
            i += p.len();
        } else {
            let ghost before = out@;
            out.push(s[i]);
            assert(before + (seq![rest[0]] + without(rest.skip(1), p@)) == out@ + without(
                rest.skip(1),
                p@,
            ));
            i += 1;
        }
    }
    assert(without(s@.skip(i as int), p@).len() == 0);
    assert(out@ + without(s@.skip(i as int), p@) == out@);
    out
}

/// The parts of `s` between the separators `sep`.
pub open spec fn parts(s: Seq<char>, sep: char) -> Seq<Seq<char>>
    decreases s.len(),
{
    if s.len() == 0 {
        seq![s]
    } else if s.last() == sep {
        parts(s.drop_last(), sep).push(Seq::empty())
    } else {
        let before = parts(s.drop_last(), sep);
        before.drop_last().push(before.last().push(s.last()))
    }
}

pub open spec fn texts(v: Seq<String>) -> Seq<Seq<char>> {
    v.map_values(|s: String| s@)
}

/// The parts of `s` between the separators `sep`.
pub fn split(s: &str, sep: char) -> (r: Vec<String>)
    ensures
        texts(r@) == parts(s@, sep),
{
    let chars = to_chars(s);
    let mut out: Vec<String> = Vec::new();
    let mut part = String::new();
    let mut i: usize = 0;
    assert(s@.take(0) == Seq::<char>::empty());
    assert(texts(out@).push(part@) == parts(s@.take(0), sep));
    while i < chars.len()
        invariant
            i <= chars@.len(),
            chars@ == s@,
            texts(out@).push(part@) == parts(s@.take(i as int), sep),
        decreases chars@.len() - i,
    {
        let ghost before = s@.take(i as int);
        assert(s@.take(i + 1).drop_last() == before);
        assert(s@.take(i + 1).last() == chars@[i as int]);
        let ghost old_out = out@;
        let ghost old_part = part@;
        if chars[i] == sep {
            out.push(part);
            part = String::new();
            assert(texts(out@) == texts(old_out).push(old_part));
        } else {
            part.push(chars[i]);
            assert(texts(old_out).push(old_part).drop_last() == texts(old_out));
        }
        i += 1;
    }
    assert(s@.take(i as int) == s@);
    let ghost old_out = out@;
    let ghost old_part = part@;
    out.push(part);
    assert(texts(out@) == texts(old_out).push(old_part));
    out
}

pub open spec fn ascii_lower_char(c: char) -> char {
    if 65 <= c as int <= 90 {
        (c as int + 32) as char
    } else {
        c
    }
}

/// `s` with the letters `A` to `Z` in lower case.
pub open spec fn ascii_lower(s: Seq<char>) -> Seq<char> {
    s.map_values(|c: char| ascii_lower_char(c))
}

/// One character, lowered where it is one of `A` to `Z`.
pub fn to_ascii_lower_char(c: char) -> (r: char)
    ensures
        r == ascii_lower_char(c),
{
    if c >= 'A' && c <= 'Z' {
        let b: u8 = c as u8 + 32;
        b as char
    } else {
        c
    }
}

/// `s` with the letters `A` to `Z` in lower case.
pub fn to_ascii_lower(s: &str) -> (r: String)
    ensures
        r@ == ascii_lower(s@),
{
    let cs = to_chars(s);
    let mut out = String::new();
    let mut i: usize = 0;
    while i < cs.len()
        invariant
            i <= cs@.len(),
            cs@ == s@,
            out@ == ascii_lower(s@.take(i as int)),
        decreases cs@.len() - i,
    {
        assert(s@.take(i + 1) == s@.take(i as int).push(s@[i as int]));
        assert(ascii_lower(s@.take(i + 1)) == ascii_lower(s@.take(i as int)).push(
            ascii_lower_char(s@[i as int]),
        ));
        out.push(to_ascii_lower_char(cs[i]));
        i += 1;
    }
    assert(s@.take(i as int) == s@);
    out
}

// ---- order -----------------------------------------------------------------

/// Lexicographic order by code point: `a` comes strictly before `b`.
pub open spec fn text_less(a: Seq<char>, b: Seq<char>) -> bool
    decreases a.len(),
{
    if b.len() == 0 {
        false
    } else if a.len() == 0 {
        true
    } else if a[0] != b[0] {
        (a[0] as int) < (b[0] as int)
    } else {
        text_less(a.skip(1), b.skip(1))
    }
}

/// Whether `a` comes strictly before `b`.
pub fn less(a: &str, b: &str) -> (r: bool)
    ensures
        r == text_less(a@, b@),
{
    let xs = to_chars(a);
    let ys = to_chars(b);
    let mut i: usize = 0;
    assert(a@.skip(0) == a@ && b@.skip(0) == b@);
    while i < xs.len() && i < ys.len()
        invariant
            i <= xs@.len(),
            i <= ys@.len(),
            xs@ == a@,
            ys@ == b@,
            text_less(a@, b@) == text_less(a@.skip(i as int), b@.skip(i as int)),
        decreases xs@.len() - i,
    {
        assert(a@.skip(i as int)[0] == xs@[i as int] && b@.skip(i as int)[0] == ys@[i as int]);
        if xs[i] != ys[i] {
            return xs[i] < ys[i];
        }
        assert(a@.skip(i as int).skip(1) == a@.skip(i + 1));
        assert(b@.skip(i as int).skip(1) == b@.skip(i + 1));
        i += 1;
    }
    i < ys.len()
}

/// Exactly one of two different texts comes before the other.
pub proof fn lemma_text_less_total(a: Seq<char>, b: Seq<char>)
    ensures
        !(text_less(a, b) && text_less(b, a)),
        !text_less(a, a),
        a != b ==> text_less(a, b) || text_less(b, a),
    decreases a.len(),
{
    if a.len() > 0 && b.len() > 0 && a[0] == b[0] {
        lemma_text_less_total(a.skip(1), b.skip(1));
        if a != b {
            assert(a == seq![a[0]] + a.skip(1));
            assert(b == seq![b[0]] + b.skip(1));
        }
    } else if a.len() == 0 && b.len() == 0 {
        assert(a == b);
    }
    if a.len() > 0 {
        lemma_text_less_total(a.skip(1), a.skip(1));
    }
}

/// What comes before a text comes before everything after that text.
pub proof fn lemma_text_less_transitive(a: Seq<char>, b: Seq<char>, c: Seq<char>)
    requires
        text_less(a, b),
        text_less(b, c),
    ensures
        text_less(a, c),
    decreases a.len(),
{
    if a.len() > 0 && a[0] == b[0] && b[0] == c[0] {
        lemma_text_less_transitive(a.skip(1), b.skip(1), c.skip(1));
    }
}

/// A text comes before every longer text that begins with it.
pub proof fn lemma_text_less_extended(a: Seq<char>, more: Seq<char>)
    requires
        more.len() > 0,
    ensures
        text_less(a, a + more),
    decreases a.len(),
{
    if a.len() > 0 {
        assert((a + more).skip(1) == a.skip(1) + more);
        lemma_text_less_extended(a.skip(1), more);
    }
}

/// A shared beginning does not change the order.
pub proof fn lemma_text_less_prefix(p: Seq<char>, a: Seq<char>, b: Seq<char>)
    ensures
        text_less(p + a, p + b) == text_less(a, b),
    decreases p.len(),
{
    if p.len() == 0 {
        assert(p + a == a && p + b == b);
    } else {
        assert((p + a).skip(1) == p.skip(1) + a);
        assert((p + b).skip(1) == p.skip(1) + b);
        lemma_text_less_prefix(p.skip(1), a, b);
    }
}

/// Among runs of digits of one length, the smaller number comes first as text too.
pub proof fn lemma_digits_order(a: Seq<char>, b: Seq<char>)
    requires
        a.len() == b.len(),
        all_digits(a),
        all_digits(b),
    ensures
        digits_value(a) < digits_value(b) ==> text_less(a, b),
        digits_value(a) == digits_value(b) ==> a == b,
    decreases a.len(),
{
    if a.len() == 0 {
        assert(a == b);
    } else {
        let (x, y) = (a.drop_last(), b.drop_last());
        assert(forall|i: int| 0 <= i < x.len() ==> x[i] == a[i] && y[i] == b[i]);
        lemma_digits_order(x, y);
        assert(a == x + seq![a.last()]);
        assert(b == y + seq![b.last()]);
        let (vx, vy) = (digits_value(x), digits_value(y));
        if vx < vy {
            lemma_less_then_anything(x, y, seq![a.last()], seq![b.last()]);
        } else if vx == vy {
            lemma_text_less_prefix(x, seq![a.last()], seq![b.last()]);
        }
    }
}

/// Once two texts of one length differ, nothing behind them changes their order.
pub proof fn lemma_less_then_anything(a: Seq<char>, b: Seq<char>, x: Seq<char>, y: Seq<char>)
    requires
        text_less(a, b),
        a.len() == b.len(),
    ensures
        text_less(a + x, b + y),
    decreases a.len(),
{
    if a[0] == b[0] {
        assert((a + x).skip(1) == a.skip(1) + x);
        assert((b + y).skip(1) == b.skip(1) + y);
        lemma_less_then_anything(a.skip(1), b.skip(1), x, y);
    }
}

/// A larger number is not shorter in decimal.
pub proof fn lemma_decimal_grows(m: nat, n: nat)
    requires
        m <= n,
    ensures
        decimal(m).len() <= decimal(n).len(),
    decreases n,
{
    if n >= 10 && m >= 10 {
        lemma_decimal_grows(m / 10, n / 10);
    } else if m < 10 {
        lemma_decimal(n);
    }
}

/// Digits without a leading zero are the decimal form of the number that they stand for, which is
/// at least the first of them.
pub proof fn lemma_digits_are_decimal(s: Seq<char>)
    requires
        s.len() > 0,
        all_digits(s),
        s[0] != '0',
    ensures
        decimal(digits_value(s)) == s,
        digits_value(s) >= digit_value(s[0]),
    decreases s.len(),
{
    let init = s.drop_last();
    assert(is_digit(s.last()));
    if s.len() == 1 {
        assert(digits_value(init) == 0);
        assert(s =~= seq![s[0]]);
    } else {
        assert(forall|i: int| 0 <= i < init.len() ==> init[i] == s[i]);
        assert(is_digit(s[0]));
        lemma_digits_are_decimal(init);
        let (n, v) = (digits_value(s), digits_value(init));
        assert(n / 10 == v && n % 10 == digit_value(s.last()));
        assert(s =~= init.push(s.last()));
    }
}

/// It does not matter which of two joints is made first.
pub proof fn lemma_append_assoc(a: Seq<char>, b: Seq<char>, c: Seq<char>)
    ensures
        a + b + c == a + (b + c),
{
    assert(a + b + c =~= a + (b + c));
}

// ---- what the operations on text keep --------------------------------------

/// Lowering changes nothing but the letters from A to Z, each into the one 32 places on.
pub proof fn law_lowering_changes_capitals_only(s: Seq<char>)
    ensures
        ascii_lower(s).len() == s.len(),
        forall|i: int|
            0 <= i < s.len() && 'A' <= s[i] <= 'Z' ==> (#[trigger] ascii_lower(s)[i]) as int == s[i]
                as int + 32,
        forall|i: int|
            0 <= i < s.len() && !('A' <= s[i] <= 'Z') ==> #[trigger] ascii_lower(s)[i] == s[i],
        ascii_lower(ascii_lower(s)) == ascii_lower(s),
{
    assert(ascii_lower(ascii_lower(s)) =~= ascii_lower(s));
}

/// A number below ten is written as its digit; a further digit multiplies by ten.
pub proof fn law_numbers_are_written_in_tens(n: nat, d: nat)
    requires
        d < 10,
    ensures
        decimal(d) == seq![(48 + d) as char],
        n > 0 ==> decimal(n * 10 + d) == decimal(n).push((48 + d) as char),
{
    if n > 0 {
        let m = n * 10 + d;
        assert(m / 10 == n && m % 10 == d);
    }
}

/// A number that was written is read back where it is allowed, and is too large otherwise.
pub proof fn law_written_numbers_are_read(n: nat, max: nat)
    ensures
        n <= max ==> parse_result(decimal(n), max) == Ok::<nat, IntError>(n),
        n > max ==> parse_result(decimal(n), max) is Err,
        parse_result(Seq::empty(), max) == Err::<nat, IntError>(IntError::Empty),
{
    lemma_decimal(n);
    lemma_parse_result(decimal(n), max);
}

/// A text that holds anything but digits behind an optional plus sign is no number.
pub proof fn law_only_digits_are_numbers(s: Seq<char>, max: nat, i: int)
    requires
        0 <= i < s.len(),
        !('0' <= s[i] <= '9'),
        i > 0 || s[i] != '+' || s.len() == 1,
    ensures
        parse_result(s, max) is Err,
{
    lemma_parse_result(s, max);
    let b = unsigned_body(s);
    if s[0] == '+' {
        if s.len() > 1 {
            assert(b[i - 1] == s[i]);
            assert(!is_digit(b[i - 1]));
        }
    } else {
        assert(!is_digit(b[i]));
    }
}

/// The texts `ps` with `sep` between them.
pub open spec fn rejoined(ps: Seq<Seq<char>>, sep: char) -> Seq<char>
    decreases ps.len(),
{
    if ps.len() == 0 {
        Seq::empty()
    } else if ps.len() == 1 {
        ps[0]
    } else {
        rejoined(ps.drop_last(), sep) + seq![sep] + ps.last()
    }
}

/// Splitting loses nothing: the parts hold no separator, and with separators between them they
/// are the text again.
pub proof fn law_split_parts_make_the_text(s: Seq<char>, sep: char)
    ensures
        parts(s, sep).len() > 0,
        rejoined(parts(s, sep), sep) == s,
        forall|i: int| 0 <= i < parts(s, sep).len() ==> !(#[trigger] parts(s, sep)[i]).contains(sep),
    decreases s.len(),
{
    let all = parts(s, sep);
    if s.len() == 0 {
        assert(rejoined(all, sep) =~= s);
        assert(!all[0].contains(sep));
    } else {
        let init = s.drop_last();
        let before = parts(init, sep);
        law_split_parts_make_the_text(init, sep);
        assert(s =~= init.push(s.last()));
        if s.last() == sep {
            assert(all.drop_last() =~= before);
            assert(rejoined(before, sep) + seq![sep] + Seq::<char>::empty() =~= init.push(sep));
            assert forall|i: int| 0 <= i < all.len() implies !(#[trigger] all[i]).contains(sep) by {
                if i < before.len() {
                    assert(all[i] == before[i]);
                } else {
                    assert(all[i].len() == 0);
                }
            }
        } else {
            let last = before.last();
            assert(before.last() == before[before.len() - 1]);
            assert(all.drop_last() =~= before.drop_last());
            assert(all.last() =~= last.push(s.last()));
            if before.len() > 1 {
                let head = rejoined(before.drop_last(), sep) + seq![sep];
                assert(head + last.push(s.last()) =~= (head + last).push(s.last()));
            }
            assert forall|i: int| 0 <= i < all.len() implies !(#[trigger] all[i]).contains(sep) by {
                if i < before.len() - 1 {
                    assert(all[i] == before[i]);
                } else {
                    assert(all[i] == last.push(s.last()));
                    if all[i].contains(sep) {
                        let k = choose|k: int| 0 <= k < all[i].len() && all[i][k] == sep;
                        assert(k < last.len());
                        assert(last[k] == sep);
                    }
                }
            }
        }
    }
}

/// A text without a separator is one part; a separator between two texts parts them.
pub proof fn law_separators_part(a: Seq<char>, b: Seq<char>, sep: char)
    requires
        !b.contains(sep),
    ensures
        parts(b, sep) == seq![b],
        parts(a + seq![sep] + b, sep) == parts(a, sep).push(b),
    decreases b.len(),
{
    if b.len() == 0 {
        assert(parts(b, sep) =~= seq![b]);
        let s = a + seq![sep] + b;
        assert(s.drop_last() =~= a);
        assert(s.last() == sep);
        assert(Seq::<char>::empty() =~= b);
    } else {
        let init = b.drop_last();
        assert forall|i: int| 0 <= i < init.len() implies init[i] != sep by {
            assert(b.contains(b[i]));
        }
        law_separators_part(a, init, sep);
        assert(b.contains(b.last()));
        assert(b =~= init.push(b.last()));
        assert(parts(b, sep) =~= seq![b]);
        let s = a + seq![sep] + b;
        assert(s.drop_last() =~= a + seq![sep] + init);
        assert(s.last() == b.last());
        let before = parts(a, sep).push(init);
        assert(before.drop_last() =~= parts(a, sep));
        assert(before.last() =~= init);
    }
}

/// Where the trimmed text lies in the text.
proof fn lemma_trim_range(s: Seq<char>) -> (r: (int, int))
    ensures
        0 <= r.0 <= r.1 <= s.len(),
        trim_of(s) == s.subrange(r.0, r.1),
        forall|k: int| 0 <= k < r.0 || r.1 <= k < s.len() ==> is_white_space(#[trigger] s[k]),
        r.0 < r.1 ==> !is_white_space(s[r.0]) && !is_white_space(s[r.1 - 1]),
    decreases s.len(),
{
    if s.len() == 0 {
        assert(s =~= s.subrange(0, 0));
        (0, 0)
    } else if is_white_space(s[0]) {
        let t = s.skip(1);
        let (i, j) = lemma_trim_range(t);
        assert(t.subrange(i, j) =~= s.subrange(i + 1, j + 1));
        assert forall|k: int| 0 <= k < i + 1 || j + 1 <= k < s.len() implies is_white_space(
            #[trigger] s[k],
        ) by {
            if k > 0 {
                assert(t[k - 1] == s[k]);
            }
        }
        (i + 1, j + 1)
    } else if is_white_space(s.last()) {
        let t = s.drop_last();
        let (i, j) = lemma_trim_range(t);
        assert(t.subrange(i, j) =~= s.subrange(i, j));
        assert forall|k: int| 0 <= k < i || j <= k < s.len() implies is_white_space(
            #[trigger] s[k],
        ) by {
            if k < t.len() {
                assert(t[k] == s[k]);
            }
        }
        (i, j)
    } else {
        assert(s.subrange(0, s.len() as int) =~= s);
        (0, s.len() as int)
    }
}

/// Trimming takes white space off both ends and nothing else; blanks, tabs and line ends are
/// white space, and no visible ASCII character is.
pub proof fn law_trimming_takes_white_space_only(s: Seq<char>)
    ensures
        exists|i: int, j: int|
            0 <= i <= j <= s.len() && trim_of(s) == #[trigger] s.subrange(i, j) && (forall|k: int|
                0 <= k < i || j <= k < s.len() ==> is_white_space(#[trigger] s[k])),
        trim_of(s).len() > 0 ==> !is_white_space(trim_of(s)[0]) && !is_white_space(
            trim_of(s).last(),
        ),
        forall|c: char|
            #![trigger is_white_space(c)]
            (c == ' ' || c == '\t' || c == '\n' || c == '\r' ==> is_white_space(c)) && ('!' <= c
                <= '~' ==> !is_white_space(c)),
{
    let (i, j) = lemma_trim_range(s);
    assert(trim_of(s) == s.subrange(i, j));
}

/// Of two texts the one comes first that ends where they first part, or has the smaller character
/// there.
pub proof fn law_order_is_decided_where_texts_part(a: Seq<char>, b: Seq<char>, k: int)
    requires
        0 <= k <= a.len(),
        k < b.len(),
        a.take(k) == b.take(k),
        k < a.len() ==> a[k] != b[k],
    ensures
        text_less(a, b) == (k == a.len() || (a[k] as int) < (b[k] as int)),
    decreases k,
{
    if k > 0 {
        assert(a[0] == a.take(k)[0] && b[0] == b.take(k)[0]);
        let (x, y) = (a.skip(1), b.skip(1));
        let (u, v) = (x.take(k - 1), y.take(k - 1));
        assert forall|i: int| 0 <= i < k - 1 implies #[trigger] u[i] == v[i] by {
            assert(u[i] == a[i + 1] && v[i] == b[i + 1]);
            assert(a.take(k)[i + 1] == a[i + 1] && b.take(k)[i + 1] == b[i + 1]);
        }
        assert(u =~= v);
        law_order_is_decided_where_texts_part(x, y, k - 1);
    }
}

/// What is found in a text stands there, character by character.
pub proof fn law_found_text_stands_there(s: Seq<char>, p: Seq<char>)
    ensures
        contains_text(s, p) == (exists|at: int|
            0 <= at && at + p.len() <= s.len() && #[trigger] s.subrange(at, at + p.len()) == p),
        starts_with_text(s, p) == (exists|rest: Seq<char>| s == #[trigger] (p + rest)),
{
    if contains_text(s, p) {
        let at = choose|at: int| occurs_at(s, at, p);
        assert(s.subrange(at, at + p.len()) == p);
    }
    if exists|at: int|
        0 <= at && at + p.len() <= s.len() && #[trigger] s.subrange(at, at + p.len()) == p {
        let at = choose|at: int|
            0 <= at && at + p.len() <= s.len() && #[trigger] s.subrange(at, at + p.len()) == p;
        assert(occurs_at(s, at, p));
    }
    if starts_with_text(s, p) {
        assert(s =~= p + s.skip(p.len() as int));
    }
    if exists|rest: Seq<char>| s == #[trigger] (p + rest) {
        let rest = choose|rest: Seq<char>| s == #[trigger] (p + rest);
        assert((p + rest).take(p.len() as int) =~= p);
    }
}

/// What is wrong with a number is told in words.
pub proof fn law_number_errors_have_words(e: IntError)
    ensures
        e == IntError::Empty ==> e.spec_text() == "cannot parse integer from empty string"@,
        e == IntError::InvalidDigit ==> e.spec_text() == "invalid digit found in string"@,
        e == IntError::TooLarge ==> e.spec_text() == "number too large to fit in target type"@,
{
}

/// Texts are seen one by one, each as its characters.
pub proof fn law_texts_are_seen_one_by_one(v: Seq<String>, i: int, s: String, t: &str)
    ensures
        texts(v).len() == v.len(),
        0 <= i < v.len() ==> texts(v)[i] == v[i]@,
        opt_text(Some(s)) == Some(s@) && opt_text(None) is None,
        opt_view(Some(t)) == Some(t@) && opt_view(None) is None,
{
}

/// Taking the last character off, joining three texts, and going to characters and back.
pub proof fn law_texts_are_edited_at_their_ends(s: &mut String, a: &str, b: &str, c: &str, joined: String, chars: Vec<char>)
    ensures
        call_ensures(pop, (s,), ()) ==> (old(s)@.len() > 0 ==> final(s)@ == old(s)@.drop_last())
            && (old(s)@.len() == 0 ==> final(s)@.len() == 0),
        call_ensures(concat3, (a, b, c), joined) ==> joined@ == a@ + b@ + c@,
        call_ensures(to_chars, (a,), chars) ==> chars@ == a@,
{
}

/// Every occurrence of a text is taken out, from the front, and all else stays in order.
pub proof fn law_every_occurrence_is_removed(s: Seq<char>, p: Seq<char>)
    requires
        p.len() > 0,
    ensures
        without(p + s, p) == without(s, p),
        s.len() > 0 && !starts_with_text(s, p) ==> without(s, p) == seq![s[0]] + without(
            s.skip(1),
            p,
        ),
        s.len() < p.len() ==> without(s, p) == s,
    decreases s.len(),
{
    assert((p + s).take(p.len() as int) =~= p);
    assert((p + s).skip(p.len() as int) =~= s);
    if 0 < s.len() < p.len() {
        law_every_occurrence_is_removed(s.skip(1), p);
        assert(seq![s[0]] + s.skip(1) =~= s);
    }
}

} // verus!
