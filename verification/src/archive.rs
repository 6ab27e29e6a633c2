//! The snapshot file's neighbours on disk, and when the snapshot is written.

use vstd::prelude::*;
use crate::calendar::{format_timestamp, stamp_at};
use crate::snapshot::SessionSnapshot;
use crate::text::{
    all_digits, concat3, decimal, digit_char, digit_value, digits_value, from_chars, is_digit,
    lemma_decimal, lemma_decimal_grows, lemma_digits_are_decimal, lemma_digits_order,
    lemma_text_less_extended, lemma_text_less_prefix, lemma_text_less_total,
    lemma_text_less_transitive, less, same, starts_with, starts_with_text, text_less, texts,
    to_chars,
};

verus! {

broadcast use vstd::seq_lib::group_seq_properties;

/// The most archives that are kept.
pub const MAX_ARCHIVES: usize = 10;

/// What the name of every archive begins with.
pub open spec fn archive_prefix() -> Seq<char> {
    "session.json.prev-"@
}

pub open spec fn is_archive(name: Seq<char>) -> bool {
    starts_with_text(name, archive_prefix())
}

fn names_archive(name: &str) -> (r: bool)
    ensures
        r == is_archive(name@),
{
    starts_with(name, "session.json.prev-")
}

/// The names among `names` that are archives, in their order.
pub open spec fn archives_among(names: Seq<Seq<char>>) -> Seq<Seq<char>> {
    names.filter(|n: Seq<char>| is_archive(n))
}

fn pick_archives(names: &[String]) -> (r: Vec<String>)
    ensures
        texts(r@) == archives_among(texts(names@)),
{
    let mut found: Vec<String> = Vec::new();
    let mut i: usize = 0;
    while i < names.len()
        invariant
            i <= names@.len(),
            texts(found@) == archives_among(texts(names@).take(i as int)),
        decreases names@.len() - i,
    {
        let ghost before = texts(names@).take(i as int);
        let ghost name = names@[i as int]@;
        proof {
            assert(texts(names@).take(i + 1) == before.push(name));
            before.lemma_filter_push(name, |n: Seq<char>| is_archive(n));
        }
        if names_archive(names[i].as_str()) {
            let ghost old_found = found@;
            found.push(names[i].clone());
            assert(texts(found@) == texts(old_found).push(name));
        }
        i += 1;
    }
    assert(texts(names@).take(i as int) == texts(names@));
    found
}

/// The files beside the snapshot that belong to it.
#[derive(Debug, PartialEq, Eq)]
pub struct StateListing {
    /// Whether the snapshot itself is there.
    pub live: bool,
    /// Whether a snapshot that could not be parsed was put aside.
    pub corrupt: bool,
    /// The names of all files in the directory.
    pub names: Vec<String>,
}

/// The names of the snapshot, the one put aside, and every archive, as far as they exist.
pub open spec fn footprint(listing: StateListing) -> Seq<Seq<char>> {
    (if listing.live { seq!["session.json"@] } else { Seq::empty() }) + (if listing.corrupt {
        seq!["session.json.corrupt"@]
    } else {
        Seq::empty()
    }) + archives_among(texts(listing.names@))
}

/// The names of the files that saved sessions take up.
pub fn state_footprint(listing: &StateListing) -> (r: Vec<String>)
    ensures
        texts(r@) == footprint(*listing),
{
    let mut found: Vec<String> = Vec::new();
    if listing.live {
        found.push("session.json".to_owned());
    }
    if listing.corrupt {
        found.push("session.json.corrupt".to_owned());
    }
    let ghost first = found@;
    let mut archives = pick_archives(listing.names.as_slice());
    let ghost rest = archives@;
    found.append(&mut archives);
    assert(texts(found@) == texts(first) + texts(rest));
    assert(texts(found@) == footprint(*listing));
    found
}

/// How many files deleting the saved sessions removes; none where no state directory is known.
pub fn saved_state_count(listing: Option<&StateListing>) -> (r: usize)
    ensures
        r == (match listing {
            Some(l) => footprint(*l).len(),
            None => 0,
        }),
{
    match listing {
        Some(l) => {
            let found = state_footprint(l);
            assert(texts(found@).len() == found@.len());
            found.len()
        },
        None => 0,
    }
}

// ---- archiving -------------------------------------------------------------

/// The name of an archive with the stamp `stamp`: the plain one for 0 and 1, a numbered one from
/// 2 on.
pub open spec fn archive_name(stamp: Seq<char>, k: nat) -> Seq<char> {
    if k <= 1 {
        archive_prefix() + stamp
    } else {
        archive_prefix() + stamp + seq!['-'] + decimal(k)
    }
}

/// What the numbered names of a stamp begin with.
pub open spec fn numbered_prefix(stamp: Seq<char>) -> Seq<char> {
    archive_prefix() + stamp + seq!['-']
}

/// The number in a numbered name of a stamp, as text; nothing in the plain name.
pub open spec fn number_text(name: Seq<char>, stamp: Seq<char>) -> Seq<char> {
    if name == archive_name(stamp, 1) {
        Seq::empty()
    } else {
        name.skip(numbered_prefix(stamp).len() as int)
    }
}

/// Whether `name` belongs to an archive of that stamp: the plain name, or one with a number.
pub open spec fn bears_stamp(name: Seq<char>, stamp: Seq<char>) -> bool {
    ||| name == archive_name(stamp, 1)
    ||| {
        &&& starts_with_text(name, numbered_prefix(stamp))
        &&& number_text(name, stamp).len() > 0
        &&& all_digits(number_text(name, stamp))
    }
}

/// Whether `name` sorts after every archive of the stamp among `taken`.
pub open spec fn sorts_after_all(taken: Seq<Seq<char>>, stamp: Seq<char>, name: Seq<char>) -> bool {
    forall|i: int|
        0 <= i < taken.len() && bears_stamp(#[trigger] taken[i], stamp) ==> text_less(
            taken[i],
            name,
        )
}

/// Whether no archive of the stamp is among `taken`.
pub open spec fn is_fresh_stamp(taken: Seq<Seq<char>>, stamp: Seq<char>) -> bool {
    forall|i: int| 0 <= i < taken.len() ==> !bears_stamp(#[trigger] taken[i], stamp)
}

/// `name` is the plain name where no archive of the stamp is among `taken`; otherwise the one with
/// the smallest number that sorts after all of them.
pub open spec fn is_next_name(taken: Seq<Seq<char>>, stamp: Seq<char>, name: Seq<char>) -> bool {
    if is_fresh_stamp(taken, stamp) {
        name == archive_name(stamp, 1)
    } else {
        exists|k: nat|
            2 <= k && name == #[trigger] archive_name(stamp, k) && sorts_after_all(
                taken,
                stamp,
                name,
            ) && forall|j: nat|
                2 <= j < k ==> !sorts_after_all(taken, stamp, #[trigger] archive_name(stamp, j))
    }
}

/// The digits that are shortest, and then smallest, among those that sort after `d`.
spec fn raised(d: Seq<char>) -> Seq<char>
    decreases d.len(),
{
    if d.len() == 0 {
        seq!['0']
    } else if d[0] == '9' {
        seq!['9'] + raised(d.skip(1))
    } else {
        seq![digit_char(digit_value(d[0]) + 1)]
    }
}

/// The smallest number from 2 on that sorts after the digits `d`, as text.
spec fn next_number(d: Seq<char>) -> Seq<char> {
    if d.len() == 0 || d[0] == '0' {
        seq!['2']
    } else {
        raised(d)
    }
}

proof fn lemma_skip_digits(d: Seq<char>)
    requires
        d.len() > 0,
        all_digits(d),
    ensures
        is_digit(d[0]),
        all_digits(d.skip(1)),
{
    assert(forall|i: int| 0 <= i < d.len() - 1 ==> d.skip(1)[i] == d[i + 1]);
}

proof fn lemma_raised(d: Seq<char>)
    requires
        all_digits(d),
    ensures
        all_digits(raised(d)),
        raised(d).len() > 0,
        text_less(d, raised(d)),
        d.len() > 0 ==> digit_value(raised(d)[0]) >= 1,
        d.len() > 0 && d[0] != '0' ==> digit_value(raised(d)[0]) >= 2,
    decreases d.len(),
{
    if d.len() > 0 {
        lemma_skip_digits(d);
        if d[0] == '9' {
            let rest = raised(d.skip(1));
            lemma_raised(d.skip(1));
            assert(raised(d).skip(1) =~= rest);
            assert forall|i: int| 0 <= i < raised(d).len() implies is_digit(
                #[trigger] raised(d)[i],
            ) by {
                if i > 0 {
                    assert(raised(d)[i] == rest[i - 1]);
                }
            }
        }
    }
}

/// Digits that sort after `d` are not shorter than `raised(d)`, and where they are as long they do
/// not sort before it.
proof fn lemma_raised_is_least(d: Seq<char>, j: Seq<char>)
    requires
        all_digits(d),
        all_digits(j),
        text_less(d, j),
    ensures
        j.len() >= raised(d).len(),
        j.len() == raised(d).len() ==> !text_less(j, raised(d)),
    decreases d.len(),
{
    reveal_with_fuel(text_less, 2);
    lemma_skip_digits(j);
    if d.len() == 0 {
        assert(raised(d).skip(1).len() == 0);
    } else {
        lemma_skip_digits(d);
        if d[0] == '9' {
            lemma_raised_is_least(d.skip(1), j.skip(1));
            assert(raised(d).skip(1) =~= raised(d.skip(1)));
        } else if j.len() == 1 {
            assert(j.skip(1).len() == 0);
            assert(raised(d).skip(1).len() == 0);
        }
    }
}

/// `next_number` gives the smallest number from 2 on whose text sorts after `d`.
proof fn lemma_next_number(d: Seq<char>)
    requires
        all_digits(d),
    ensures
        text_less(d, next_number(d)),
        digits_value(next_number(d)) >= 2,
        decimal(digits_value(next_number(d))) == next_number(d),
        forall|j: nat|
            2 <= j < digits_value(next_number(d)) ==> !text_less(d, #[trigger] decimal(j)),
{
    let n = next_number(d);
    if d.len() == 0 || d[0] == '0' {
        lemma_digits_are_decimal(n);
        assert(digits_value(n.drop_last()) == 0);
        assert(n.last() == '2');
    } else {
        lemma_raised(d);
        lemma_digits_are_decimal(n);
        let k = digits_value(n);
        assert forall|j: nat| 2 <= j < k implies !text_less(d, #[trigger] decimal(j)) by {
            if text_less(d, decimal(j)) {
                lemma_decimal(j);
                lemma_decimal_grows(j, k);
                lemma_raised_is_least(d, decimal(j));
                lemma_digits_order(decimal(j), n);
            }
        }
    }
}

fn next_number_after(d: &str) -> (r: String)
    requires
        all_digits(d@),
    ensures
        r@ == next_number(d@),
{
    let chars = to_chars(d);
    let mut out = String::new();
    if chars.len() == 0 || chars[0] == '0' {
        out.push('2');
        return out;
    }
    let mut i: usize = 0;
    assert(chars@.skip(0) =~= chars@);
    assert(out@ + raised(chars@.skip(0)) =~= raised(d@));
    while i < chars.len() && chars[i] == '9'
        invariant
            i <= chars@.len(),
            out@ + raised(chars@.skip(i as int)) == raised(d@),
        decreases chars@.len() - i,
    {
        let ghost before = out@;
        let ghost rest = chars@.skip(i as int);
        out.push('9');
        i += 1;
        assert(rest.skip(1) =~= chars@.skip(i as int));
        assert(out@ + raised(chars@.skip(i as int)) =~= before + raised(rest));
    }
    let ghost before = out@;
    let ghost rest = chars@.skip(i as int);
    if i == chars.len() {
        out.push('0');
    } else {
        let c = chars[i];
        assert(is_digit(d@[i as int]));
        let up: u8 = c as u8 + 1;
        out.push(up as char);
    }
    assert(out@ =~= before + raised(rest));
    out
}

/// The number in a name of the stamp; `None` where the name does not belong to it.
fn number_in(name: &str, stamp: &str) -> (r: Option<String>)
    ensures
        match r {
            Some(d) => bears_stamp(name@, stamp@) && d@ == number_text(name@, stamp@),
            None => !bears_stamp(name@, stamp@),
        },
{
    let plain = concat3("session.json.prev-", stamp, "");
    proof {
        reveal_strlit("");
        assert(plain@ =~= archive_name(stamp@, 1));
    }
    if same(name, plain.as_str()) {
        return Some(String::new());
    }
    let numbered = concat3(plain.as_str(), "-", "");
    proof {
        reveal_strlit("-");
        assert(numbered@ =~= numbered_prefix(stamp@));
    }
    if !starts_with(name, numbered.as_str()) {
        return None;
    }
    let chars = to_chars(name);
    let cut: usize = to_chars(numbered.as_str()).len();
    let ghost digits = number_text(name@, stamp@);
    if cut == chars.len() {
        return None;
    }
    let mut i: usize = cut;
    while i < chars.len()
        invariant
            cut <= i <= chars@.len(),
            name@ != archive_name(stamp@, 1),
            digits == number_text(name@, stamp@),
            digits == chars@.skip(cut as int),
            forall|j: int| 0 <= j < i - cut ==> is_digit(#[trigger] digits[j]),
        decreases chars@.len() - i,
    {
        let c = chars[i];
        assert(digits[i - cut] == c);
        if c < '0' || c > '9' {
            assert(!is_digit(digits[i - cut]));
            assert(!all_digits(digits));
            return None;
        }
        i += 1;
    }
    Some(from_chars(vstd::slice::slice_subrange(chars.as_slice(), cut, chars.len())))
}

/// Names of one stamp sort as their numbers do, and the plain one sorts first.
proof fn lemma_names_sort_by_number(stamp: Seq<char>, name: Seq<char>, k: nat)
    requires
        bears_stamp(name, stamp),
        k >= 2,
    ensures
        text_less(name, archive_name(stamp, k)) == text_less(
            number_text(name, stamp),
            decimal(k),
        ),
{
    let p = numbered_prefix(stamp);
    let d = number_text(name, stamp);
    assert(archive_name(stamp, k) =~= p + decimal(k));
    lemma_decimal(k);
    if name == archive_name(stamp, 1) {
        assert(p + decimal(k) =~= name + (seq!['-'] + decimal(k)));
        lemma_text_less_extended(name, seq!['-'] + decimal(k));
    } else {
        assert(name =~= p + d);
        lemma_text_less_prefix(p, d, decimal(k));
    }
}

/// `d` is the greatest of the numbers in the names of the stamp among `taken`.
spec fn is_last_number(taken: Seq<Seq<char>>, stamp: Seq<char>, d: Seq<char>) -> bool {
    &&& all_digits(d)
    &&& forall|i: int|
        0 <= i < taken.len() && bears_stamp(#[trigger] taken[i], stamp) ==> !text_less(
            d,
            number_text(taken[i], stamp),
        )
    &&& d.len() > 0 ==> exists|i: int|
        0 <= i < taken.len() && bears_stamp(#[trigger] taken[i], stamp) && number_text(
            taken[i],
            stamp,
        ) == d
}

proof fn lemma_next_name(taken: Seq<Seq<char>>, stamp: Seq<char>, d: Seq<char>)
    requires
        !is_fresh_stamp(taken, stamp),
        is_last_number(taken, stamp, d),
    ensures
        is_next_name(taken, stamp, numbered_prefix(stamp) + next_number(d)),
{
    let n = next_number(d);
    lemma_next_number(d);
    let k = digits_value(n);
    let name = archive_name(stamp, k);
    assert(name =~= numbered_prefix(stamp) + n);
    assert forall|i: int| 0 <= i < taken.len() && bears_stamp(
        #[trigger] taken[i],
        stamp,
    ) implies text_less(taken[i], name) by {
        let e = number_text(taken[i], stamp);
        lemma_names_sort_by_number(stamp, taken[i], k);
        lemma_text_less_total(e, d);
        if e != d {
            lemma_text_less_transitive(e, d, n);
        }
    }
    assert forall|j: nat| 2 <= j < k implies !sorts_after_all(
        taken,
        stamp,
        #[trigger] archive_name(stamp, j),
    ) by {
        assert(!text_less(d, decimal(j)));
        if d.len() == 0 {
            lemma_decimal(j);
        } else {
            let i = choose|i: int|
                0 <= i < taken.len() && bears_stamp(#[trigger] taken[i], stamp) && number_text(
                    taken[i],
                    stamp,
                ) == d;
            lemma_names_sort_by_number(stamp, taken[i], j);
        }
    }
}

/// The name under which the snapshot is archived with `stamp`: where archives of that stamp are
/// there already, a number is added that makes it sort after all of them. `None` where there is no
/// snapshot to archive.
pub fn archive_with_stamp(exists: bool, taken: &[String], stamp: &str) -> (r: Option<String>)
    ensures
        r is Some <==> exists,
        r matches Some(name) ==> is_next_name(texts(taken@), stamp@, name@),
{
    if !exists {
        return None;
    }
    let ghost names = texts(taken@);
    let mut fresh = true;
    let mut last = String::new();
    let mut i: usize = 0;
    assert(names.take(0).len() == 0);
    while i < taken.len()
        invariant
            i <= taken@.len(),
            names == texts(taken@),
            fresh == is_fresh_stamp(names.take(i as int), stamp@),
            is_last_number(names.take(i as int), stamp@, last@),
        decreases taken@.len() - i,
    {
        let ghost seen = names.take(i as int);
        let ghost name = taken@[i as int]@;
        assert(names.take(i + 1) =~= seen.push(name));
        match number_in(taken[i].as_str(), stamp) {
            Some(d) => {
                assert(seen.push(name)[i as int] == name);
                fresh = false;
                let later = less(last.as_str(), d.as_str());
                proof {
                    lemma_last_number_grows(seen, stamp@, last@, name);
                }
                if later {
                    last = d;
                }
            },
            None => {
                proof {
                    lemma_last_number_stays(seen, stamp@, last@, name);
                }
            },
        }
        i += 1;
    }
    assert(names.take(i as int) =~= names);
    let mut name = concat3("session.json.prev-", stamp, "");
    proof {
        reveal_strlit("");
        assert(name@ =~= archive_name(stamp@, 1));
    }
    if !fresh {
        let number = next_number_after(last.as_str());
        name.push('-');
        name.append(number.as_str());
        proof {
            assert(name@ =~= numbered_prefix(stamp@) + next_number(last@));
            lemma_next_name(names, stamp@, last@);
        }
    }
    Some(name)
}

proof fn lemma_last_number_stays(seen: Seq<Seq<char>>, stamp: Seq<char>, d: Seq<char>, name: Seq<char>)
    requires
        is_last_number(seen, stamp, d),
        !bears_stamp(name, stamp),
    ensures
        is_last_number(seen.push(name), stamp, d),
        is_fresh_stamp(seen.push(name), stamp) == is_fresh_stamp(seen, stamp),
{
    let all = seen.push(name);
    assert(forall|i: int| 0 <= i < seen.len() ==> all[i] == seen[i]);
    if d.len() > 0 {
        let i = choose|i: int|
            0 <= i < seen.len() && bears_stamp(#[trigger] seen[i], stamp) && number_text(
                seen[i],
                stamp,
            ) == d;
        assert(all[i] == seen[i]);
    }
    if !is_fresh_stamp(seen, stamp) {
        let i = choose|i: int| 0 <= i < seen.len() && bears_stamp(#[trigger] seen[i], stamp);
        assert(bears_stamp(all[i], stamp));
    }
}

proof fn lemma_last_number_grows(seen: Seq<Seq<char>>, stamp: Seq<char>, d: Seq<char>, name: Seq<char>)
    requires
        is_last_number(seen, stamp, d),
        bears_stamp(name, stamp),
    ensures
        !is_fresh_stamp(seen.push(name), stamp),
        ({
            let e = number_text(name, stamp);
            is_last_number(
                seen.push(name),
                stamp,
                if text_less(d, e) {
                    e
                } else {
                    d
                },
            )
        }),
{
    let all = seen.push(name);
    let e = number_text(name, stamp);
    assert(all[seen.len() as int] == name);
    assert(forall|i: int| 0 <= i < seen.len() ==> all[i] == seen[i]);
    if text_less(d, e) {
        assert forall|i: int| 0 <= i < all.len() && bears_stamp(
            #[trigger] all[i],
            stamp,
        ) implies !text_less(e, number_text(all[i], stamp)) by {
            if i < seen.len() {
                assert(all[i] == seen[i]);
                let f = number_text(seen[i], stamp);
                if text_less(e, f) {
                    lemma_text_less_transitive(d, e, f);
                }
            } else {
                lemma_text_less_total(e, e);
            }
        }
    } else if d.len() > 0 {
        let i = choose|i: int|
            0 <= i < seen.len() && bears_stamp(#[trigger] seen[i], stamp) && number_text(
                seen[i],
                stamp,
            ) == d;
        assert(all[i] == seen[i]);
    }
}

/// The name under which the snapshot is archived at the moment `now`.
pub fn archive(exists: bool, taken: &[String], now: i64) -> (r: Option<String>)
    ensures
        r is Some <==> exists,
        r matches Some(name) ==> is_next_name(
            texts(taken@),
            if now < 0 {
                Seq::empty()
            } else {
                stamp_at(now as nat)
            },
            name@,
        ),
{
    let stamp = format_timestamp(now);
    archive_with_stamp(exists, taken, stamp.as_str())
}

/// A name with a number sorts after the name without one.
pub proof fn law_numbered_names_sort_later(stamp: Seq<char>, k: nat)
    requires
        k >= 2,
    ensures
        text_less(archive_name(stamp, 1), archive_name(stamp, k)),
{
    let p = archive_prefix() + stamp;
    lemma_text_less_extended(p, seq!['-'] + decimal(k));
    assert(archive_name(stamp, k) == p + (seq!['-'] + decimal(k)));
}

/// Archives of different stamps sort as their stamps do.
pub proof fn law_archives_sort_by_stamp(a: Seq<char>, b: Seq<char>)
    ensures
        text_less(archive_name(a, 1), archive_name(b, 1)) == text_less(a, b),
{
    lemma_text_less_prefix(archive_prefix(), a, b);
}

// ---- newest first ----------------------------------------------------------

/// `x` put into `s`, which is in descending order, behind all that are not before `x`.
pub open spec fn insert_newest_first(s: Seq<Seq<char>>, x: Seq<char>) -> Seq<Seq<char>>
    decreases s.len(),
{
    if s.len() == 0 || !text_less(s.last(), x) {
        s.push(x)
    } else {
        insert_newest_first(s.drop_last(), x).push(s.last())
    }
}

/// `s` in descending order.
pub open spec fn newest_first(s: Seq<Seq<char>>) -> Seq<Seq<char>>
    decreases s.len(),
{
    if s.len() == 0 {
        s
    } else {
        insert_newest_first(newest_first(s.drop_last()), s.last())
    }
}

pub open spec fn descending(s: Seq<Seq<char>>) -> bool {
    forall|i: int, j: int| 0 <= i < j < s.len() ==> !text_less(#[trigger] s[i], #[trigger] s[j])
}

proof fn lemma_insert_newest_first(s: Seq<Seq<char>>, x: Seq<char>)
    ensures
        insert_newest_first(s, x).to_multiset() == s.to_multiset().insert(x),
        insert_newest_first(s, x).len() == s.len() + 1,
        descending(s) ==> descending(insert_newest_first(s, x)),
        forall|i: int|
            0 <= i < s.len() + 1 ==> (#[trigger] insert_newest_first(s, x)[i] == x || s.contains(
                insert_newest_first(s, x)[i],
            )),
    decreases s.len(),
{
    broadcast use vstd::seq_lib::group_to_multiset_ensures;

    let r = insert_newest_first(s, x);
    if s.len() == 0 || !text_less(s.last(), x) {
        if descending(s) {
            assert forall|i: int, j: int| 0 <= i < j < r.len() implies !text_less(
                #[trigger] r[i],
                #[trigger] r[j],
            ) by {
                if j == s.len() {
                    if text_less(s[i], x) {
                        let l = s.last();
                        lemma_text_less_total(s[i], l);
                        if s[i] != l {
                            if i < s.len() - 1 {
                                assert(!text_less(s[i], s[s.len() - 1]));
                            }
                            lemma_text_less_transitive(l, s[i], x);
                        }
                    }
                }
            }
        }
    } else {
        let init = s.drop_last();
        lemma_insert_newest_first(init, x);
        let t = insert_newest_first(init, x);
        assert(s == init.push(s.last()));
        assert(r.to_multiset() == t.to_multiset().insert(s.last()));
        assert(s.to_multiset() == init.to_multiset().insert(s.last()));
        assert(init.to_multiset().insert(x).insert(s.last()) =~= init.to_multiset().insert(
            s.last(),
        ).insert(x));
        assert forall|i: int| 0 <= i < r.len() implies (#[trigger] r[i] == x || s.contains(
            r[i],
        )) by {
            if i < t.len() {
                assert(t[i] == r[i]);
                if t[i] != x {
                    assert(init.contains(t[i]));
                    let k = choose|k: int| 0 <= k < init.len() && init[k] == t[i];
                    assert(s[k] == r[i]);
                }
            } else {
                assert(r[i] == s[s.len() - 1]);
            }
        }
        if descending(s) {
            assert forall|i: int, j: int| 0 <= i < j < init.len() implies !text_less(
                #[trigger] init[i],
                #[trigger] init[j],
            ) by {
                assert(init[i] == s[i] && init[j] == s[j]);
            }
            assert forall|i: int, j: int| 0 <= i < j < r.len() implies !text_less(
                #[trigger] r[i],
                #[trigger] r[j],
            ) by {
                if j < t.len() {
                    assert(r[i] == t[i] && r[j] == t[j]);
                } else {
                    assert(r[j] == s.last());
                    assert(r[i] == t[i]);
                    if t[i] == x {
                        lemma_text_less_total(s.last(), x);
                    } else {
                        assert(init.contains(t[i]));
                        let k = choose|k: int| 0 <= k < init.len() && init[k] == t[i];
                        assert(s[k] == t[i]);
                        assert(!text_less(s[k], s[s.len() - 1]));
                    }
                }
            }
        }
    }
}

/// Putting texts in order keeps each of them and leaves no later text before an earlier one.
pub proof fn law_newest_first_sorts(s: Seq<Seq<char>>)
    ensures
        newest_first(s).to_multiset() == s.to_multiset(),
        newest_first(s).len() == s.len(),
        descending(newest_first(s)),
    decreases s.len(),
{
    broadcast use vstd::seq_lib::group_to_multiset_ensures;

    if s.len() > 0 {
        law_newest_first_sorts(s.drop_last());
        lemma_insert_newest_first(newest_first(s.drop_last()), s.last());
        assert(s == s.drop_last().push(s.last()));
    }
}

/// Where a text belongs: before those that come before it.
proof fn lemma_insert_newest_first_at(s: Seq<Seq<char>>, x: Seq<char>, at: int)
    requires
        0 <= at <= s.len(),
        at == 0 || !text_less(s[at - 1], x),
        forall|j: int| at <= j < s.len() ==> text_less(#[trigger] s[j], x),
    ensures
        insert_newest_first(s, x) == s.insert(at, x),
    decreases s.len(),
{
    if at < s.len() {
        let init = s.drop_last();
        assert(s.last() == s[s.len() - 1]);
        assert(forall|j: int| 0 <= j < init.len() ==> init[j] == s[j]);
        lemma_insert_newest_first_at(init, x, at);
        assert(init.insert(at, x).push(s.last()) =~= s.insert(at, x));
    } else {
        assert(s.push(x) =~= s.insert(at, x));
    }
}

fn insert_name(sorted: &mut Vec<String>, name: String)
    ensures
        texts(final(sorted)@) == insert_newest_first(texts(old(sorted)@), name@),
{
    let mut i: usize = sorted.len();
    while i > 0 && less(sorted[i - 1].as_str(), name.as_str())
        invariant
            i <= sorted@.len(),
            sorted@ == old(sorted)@,
            forall|j: int| i <= j < sorted@.len() ==> text_less((#[trigger] sorted@[j])@, name@),
        decreases i,
    {
        i -= 1;
    }
    let ghost all = texts(sorted@);
    let ghost x = name@;
    sorted.insert(i, name);
    proof {
        assert(forall|j: int| 0 <= j < all.len() ==> all[j] == old(sorted)@[j]@);
        lemma_insert_newest_first_at(all, x, i as int);
        assert(texts(sorted@) =~= all.insert(i as int, x));
    }
}

fn sort_newest_first(names: &[String]) -> (r: Vec<String>)
    ensures
        texts(r@) == newest_first(texts(names@)),
{
    let mut out: Vec<String> = Vec::new();
    let mut i: usize = 0;
    while i < names.len()
        invariant
            i <= names@.len(),
            texts(out@) == newest_first(texts(names@).take(i as int)),
        decreases names@.len() - i,
    {
        assert(texts(names@).take(i + 1).drop_last() == texts(names@).take(i as int));
        assert(texts(names@).take(i + 1).last() == names@[i as int]@);
        insert_name(&mut out, names[i].clone());
        i += 1;
    }
    assert(texts(names@).take(i as int) == texts(names@));
    out
}

/// The archives of a directory from the newest to the oldest.
pub open spec fn sorted_archives(names: Seq<Seq<char>>) -> Seq<Seq<char>> {
    newest_first(archives_among(names))
}

proof fn lemma_skip_reverse(s: Seq<Seq<char>>, n: int)
    requires
        0 < n <= s.len(),
    ensures
        s.skip(n - 1).reverse() == s.skip(n).reverse().push(s[n - 1]),
{
    let (a, b) = (s.skip(n - 1).reverse(), s.skip(n).reverse().push(s[n - 1]));
    assert(a.len() == b.len());
    assert forall|i: int| 0 <= i < a.len() implies a[i] == b[i] by {
        assert(a[i] == s.skip(n - 1)[a.len() - 1 - i]);
        if i < a.len() - 1 {
            assert(b[i] == s.skip(n)[a.len() - 2 - i]);
        }
    }
    assert(a =~= b);
}

/// All archives but the `MAX_ARCHIVES` newest, the oldest first.
pub open spec fn pruned(names: Seq<Seq<char>>) -> Seq<Seq<char>> {
    let all = sorted_archives(names);
    if all.len() > MAX_ARCHIVES {
        all.skip(MAX_ARCHIVES as int).reverse()
    } else {
        Seq::empty()
    }
}

/// The archives to remove so that the `MAX_ARCHIVES` newest stay, the oldest first.
pub fn prune_archives(names: &[String]) -> (r: Vec<String>)
    ensures
        texts(r@) == pruned(texts(names@)),
{
    let found = pick_archives(names);
    let mut archives = sort_newest_first(found.as_slice());
    let ghost all = sorted_archives(texts(names@));
    let mut removed: Vec<String> = Vec::new();
    assert(all.take(all.len() as int) == all);
    while archives.len() > MAX_ARCHIVES
        invariant
            all == sorted_archives(texts(names@)),
            archives@.len() <= all.len(),
            texts(archives@) == all.take(archives@.len() as int),
            texts(removed@) == all.skip(archives@.len() as int).reverse(),
            archives@.len() >= MAX_ARCHIVES || archives@.len() == all.len(),
        decreases archives@.len(),
    {
        let ghost before = archives@;
        let ghost gone = removed@;
        match archives.pop() {
            Some(oldest) => {
                assert(texts(before)[before.len() - 1] == oldest@);
                assert(texts(archives@) == texts(before).drop_last());
                removed.push(oldest);
                assert(texts(removed@) == texts(gone).push(oldest@));
                proof {
                    lemma_skip_reverse(all, before.len() as int);
                }
            },
            None => {},
        }
    }
    assert(all.len() <= MAX_ARCHIVES ==> texts(removed@) == Seq::<Seq<char>>::empty());
    removed
}

/// After pruning at most `MAX_ARCHIVES` archives are left, and none of them is older than a
/// removed one.
pub proof fn law_pruning_keeps_the_newest(names: Seq<Seq<char>>)
    ensures
        ({
            let all = sorted_archives(names);
            forall|kept: int, gone: int|
                0 <= kept < MAX_ARCHIVES <= gone < all.len() ==> !text_less(
                    #[trigger] all[kept],
                    #[trigger] all[gone],
                )
        }),
{
    law_newest_first_sorts(archives_among(names));
}

proof fn lemma_sorted_are_among(s: Seq<Seq<char>>)
    ensures
        newest_first(s).len() == s.len(),
        forall|i: int| 0 <= i < s.len() ==> s.contains(#[trigger] newest_first(s)[i]),
    decreases s.len(),
{
    if s.len() > 0 {
        let init = s.drop_last();
        lemma_sorted_are_among(init);
        lemma_insert_newest_first(newest_first(init), s.last());
        assert forall|i: int| 0 <= i < s.len() implies s.contains(
            #[trigger] newest_first(s)[i],
        ) by {
            let x = newest_first(s)[i];
            if x == s.last() {
                assert(s[s.len() - 1] == x);
            } else {
                let k = choose|k: int| 0 <= k < init.len() && newest_first(init)[k] == x;
                assert(init.contains(newest_first(init)[k]));
                let m = choose|m: int| 0 <= m < init.len() && init[m] == x;
                assert(s[m] == x);
            }
        }
    }
}

proof fn lemma_archives_count(names: Seq<Seq<char>>, x: Seq<char>)
    requires
        is_archive(x),
    ensures
        archives_among(names).to_multiset().count(x) == names.to_multiset().count(x),
    decreases names.len(),
{
    broadcast use vstd::seq_lib::group_to_multiset_ensures;

    let is = |n: Seq<char>| is_archive(n);
    if names.len() > 0 {
        let init = names.drop_last();
        lemma_archives_count(init, x);
        assert(names =~= init.push(names.last()));
        init.lemma_filter_push(names.last(), is);
    } else {
        assert(archives_among(names) =~= names);
    }
}

/// Whether an archive is not newer than one made now with that stamp: it bears the stamp, or its
/// name sorts before the plain name of the stamp.
pub open spec fn is_not_newer(name: Seq<char>, stamp: Seq<char>) -> bool {
    bears_stamp(name, stamp) || text_less(name, archive_name(stamp, 1))
}

/// The name made for an archive begins as those of all archives do, is not taken, and sorts after
/// every archive that is not newer.
pub proof fn law_new_name_sorts_last(names: Seq<Seq<char>>, stamp: Seq<char>, name: Seq<char>)
    requires
        is_next_name(names, stamp, name),
    ensures
        is_archive(name),
        bears_stamp(name, stamp),
        !names.contains(name),
        forall|i: int|
            0 <= i < names.len() && is_not_newer(#[trigger] names[i], stamp) ==> text_less(
                names[i],
                name,
            ),
{
    let plain = archive_name(stamp, 1);
    assert(plain.take(archive_prefix().len() as int) =~= archive_prefix());
    if is_fresh_stamp(names, stamp) {
        assert(name == plain);
    } else {
        let k = choose|k: nat|
            2 <= k && name == #[trigger] archive_name(stamp, k) && sorts_after_all(
                names,
                stamp,
                name,
            );
        lemma_decimal(k);
        assert(name =~= plain + (seq!['-'] + decimal(k)));
        assert(name.take(archive_prefix().len() as int) =~= archive_prefix());
        assert(name.take(numbered_prefix(stamp).len() as int) =~= numbered_prefix(stamp));
        assert(name.skip(numbered_prefix(stamp).len() as int) =~= decimal(k));
        law_numbered_names_sort_later(stamp, k);
    }
    if names.contains(name) {
        let i = choose|i: int| 0 <= i < names.len() && names[i] == name;
        assert(bears_stamp(names[i], stamp));
        lemma_text_less_total(name, name);
    }
    assert forall|i: int| 0 <= i < names.len() && is_not_newer(
        #[trigger] names[i],
        stamp,
    ) implies text_less(names[i], name) by {
        if !bears_stamp(names[i], stamp) && name != plain {
            lemma_text_less_transitive(names[i], plain, name);
        }
    }
}

/// Where no archive is newer, the one just made is the newest of all, in whatever order the names
/// are found again, and pruning does not remove it.
pub proof fn law_new_archive_is_newest(
    names: Seq<Seq<char>>,
    stamp: Seq<char>,
    name: Seq<char>,
    after: Seq<Seq<char>>,
)
    requires
        is_next_name(names, stamp, name),
        forall|i: int|
            0 <= i < names.len() && is_archive(#[trigger] names[i]) ==> is_not_newer(
                names[i],
                stamp,
            ),
        after.to_multiset() == names.to_multiset().insert(name),
    ensures
        sorted_archives(after).len() > 0,
        sorted_archives(after)[0] == name,
        !pruned(after).contains(name),
{
    broadcast use vstd::seq_lib::group_to_multiset_ensures;

    law_new_name_sorts_last(names, stamp, name);
    let found = archives_among(after);
    let all = sorted_archives(after);
    law_newest_first_sorts(found);
    lemma_archives_count(after, name);
    lemma_sorted_are_among(found);
    assert(!names.to_multiset().contains(name));
    assert(all.to_multiset().count(name) == 1);
    assert(all.contains(name));
    let at = choose|at: int| 0 <= at < all.len() && all[at] == name;
    if all[0] != name {
        assert(found.contains(all[0]));
        lemma_filtered(after, all[0]);
        assert(after.to_multiset().contains(all[0]));
        assert(names.to_multiset().contains(all[0]));
        assert(names.contains(all[0]));
        let i = choose|i: int| 0 <= i < names.len() && names[i] == all[0];
        assert(text_less(names[i], name));
        assert(!text_less(all[0], all[at]));
    }
    if pruned(after).contains(name) {
        let gone = all.skip(MAX_ARCHIVES as int);
        let k = choose|k: int| 0 <= k < pruned(after).len() && pruned(after)[k] == name;
        let m = gone.len() - 1 - k;
        assert(gone.reverse()[k] == gone[m]);
        assert(all[m + MAX_ARCHIVES] == name);
        lemma_count_twice(all, 0, m + MAX_ARCHIVES);
    }
}

proof fn lemma_filtered(names: Seq<Seq<char>>, x: Seq<char>)
    requires
        archives_among(names).contains(x),
    ensures
        names.contains(x),
        is_archive(x),
    decreases names.len(),
{
    if names.len() > 0 {
        let init = names.drop_last();
        let is = |n: Seq<char>| is_archive(n);
        assert(names =~= init.push(names.last()));
        init.lemma_filter_push(names.last(), is);
        let found = archives_among(names);
        let k = choose|k: int| 0 <= k < found.len() && found[k] == x;
        if k < archives_among(init).len() {
            assert(archives_among(init)[k] == x);
            lemma_filtered(init, x);
            let m = choose|m: int| 0 <= m < init.len() && init[m] == x;
            assert(names[m] == x);
        } else {
            assert(names[names.len() - 1] == x);
        }
    }
}

proof fn lemma_count_twice(s: Seq<Seq<char>>, i: int, j: int)
    requires
        0 <= i < j < s.len(),
        s[i] == s[j],
    ensures
        s.to_multiset().count(s[i]) >= 2,
{
    broadcast use vstd::seq_lib::group_to_multiset_ensures;

    let head = s.take(j);
    let tail = s.skip(j);
    assert(s =~= head + tail);
    vstd::seq_lib::lemma_multiset_commutative(head, tail);
    assert(head[i] == s[i]);
    assert(tail[0] == s[j]);
    assert(head.contains(s[i]) && tail.contains(s[i]));
    assert(head.to_multiset().count(s[i]) > 0);
    assert(tail.to_multiset().count(s[i]) > 0);
}

// ---- listing ---------------------------------------------------------------

/// An archive on disk: its name, the stamp in the name, and how much it holds.
#[derive(Debug, PartialEq, Eq)]
pub struct ArchiveEntry {
    pub path: String,
    pub stamp: String,
    pub windows: usize,
    pub tabs: usize,
}

/// How many tabs the first `n` windows hold together.
pub open spec fn tab_total(snap: SessionSnapshot, n: nat) -> nat
    decreases n,
{
    if n == 0 {
        0
    } else {
        tab_total(snap, (n - 1) as nat) + snap.windows@[n - 1].tabs@.len()
    }
}

/// `entry` describes the archive `name` that holds `snap`.
pub open spec fn describes(entry: ArchiveEntry, name: Seq<char>, snap: SessionSnapshot) -> bool {
    &&& entry.path@ == name
    &&& name == archive_prefix() + entry.stamp@
    &&& entry.windows == snap.windows@.len()
    &&& entry.tabs == tab_total(snap, snap.windows@.len())
}

/// Whether a file is listed: an archive that could be parsed.
pub open spec fn is_listed(file: (String, Option<SessionSnapshot>)) -> bool {
    is_archive(file.0@) && file.1 is Some
}

fn describe(name: &str, snap: &SessionSnapshot) -> (r: ArchiveEntry)
    requires
        is_archive(name@),
        tab_total(*snap, snap.windows@.len()) <= usize::MAX,
    ensures
        describes(r, name@, *snap),
{
    let chars = to_chars(name);
    let prefix = to_chars("session.json.prev-");
    let cut: usize = prefix.len();
    let stamp = from_chars(
        vstd::slice::slice_subrange(chars.as_slice(), cut, chars.len()),
    );
    assert(name@ == name@.take(cut as int) + name@.skip(cut as int));
    let mut tabs: usize = 0;
    let mut i: usize = 0;
    while i < snap.windows.len()
        invariant
            i <= snap.windows@.len(),
            tabs == tab_total(*snap, i as nat),
            tab_total(*snap, snap.windows@.len()) <= usize::MAX,
        decreases snap.windows@.len() - i,
    {
        proof {
            lemma_tab_total_grows(*snap, (i + 1) as nat, snap.windows@.len());
        }
        tabs += snap.windows[i].tabs.len();
        i += 1;
    }
    ArchiveEntry { path: name.to_owned(), stamp, windows: snap.windows.len(), tabs }
}

proof fn lemma_tab_total_grows(snap: SessionSnapshot, i: nat, j: nat)
    requires
        i <= j,
    ensures
        tab_total(snap, i) <= tab_total(snap, j),
    decreases j,
{
    if i < j {
        lemma_tab_total_grows(snap, i, (j - 1) as nat);
    }
}

/// The files that are listed, in their order.
pub open spec fn listed(files: Seq<(String, Option<SessionSnapshot>)>) -> Seq<
    (String, Option<SessionSnapshot>),
> {
    files.filter(|f: (String, Option<SessionSnapshot>)| is_listed(f))
}

pub open spec fn stamps(entries: Seq<ArchiveEntry>) -> Seq<Seq<char>> {
    entries.map_values(|e: ArchiveEntry| e.stamp@)
}

/// `entries` describe `files`, in the same order.
pub open spec fn all_described(
    entries: Seq<ArchiveEntry>,
    files: Seq<(String, Option<SessionSnapshot>)>,
) -> bool {
    &&& entries.len() == files.len()
    &&& forall|i: int|
        0 <= i < entries.len() ==> describes(
            #[trigger] entries[i],
            files[i].0@,
            files[i].1->0,
        )
}

fn pick_listed(files: &[(String, Option<SessionSnapshot>)]) -> (r: Vec<ArchiveEntry>)
    requires
        forall|i: int|
            0 <= i < files@.len() && is_listed(#[trigger] files@[i]) ==> tab_total(
                files@[i].1->0,
                files@[i].1->0.windows@.len(),
            ) <= usize::MAX,
    ensures
        all_described(r@, listed(files@)),
{
    let mut out: Vec<ArchiveEntry> = Vec::new();
    let mut i: usize = 0;
    while i < files.len()
        invariant
            i <= files@.len(),
            forall|i: int|
                0 <= i < files@.len() && is_listed(#[trigger] files@[i]) ==> tab_total(
                    files@[i].1->0,
                    files@[i].1->0.windows@.len(),
                ) <= usize::MAX,
            all_described(out@, listed(files@.take(i as int))),
        decreases files@.len() - i,
    {
        proof {
            assert(files@.take(i + 1) == files@.take(i as int).push(files@[i as int]));
            files@.take(i as int).lemma_filter_push(
                files@[i as int],
                |f: (String, Option<SessionSnapshot>)| is_listed(f),
            );
        }
        let file = &files[i];
        if let Some(snap) = &file.1 {
            if names_archive(file.0.as_str()) {
                assert(is_listed(files@[i as int]));
                out.push(describe(file.0.as_str(), snap));
            }
        }
        i += 1;
    }
    assert(files@.take(i as int) == files@);
    out
}

/// `e` put into `s` behind all whose stamp does not sort before its own.
pub open spec fn insert_entry(s: Seq<ArchiveEntry>, e: ArchiveEntry) -> Seq<ArchiveEntry>
    decreases s.len(),
{
    if s.len() == 0 || !text_less(s.last().stamp@, e.stamp@) {
        s.push(e)
    } else {
        insert_entry(s.drop_last(), e).push(s.last())
    }
}

/// Entries by descending stamp; those with one stamp keep their order.
pub open spec fn entries_newest_first(s: Seq<ArchiveEntry>) -> Seq<ArchiveEntry>
    decreases s.len(),
{
    if s.len() == 0 {
        s
    } else {
        insert_entry(entries_newest_first(s.drop_last()), s.last())
    }
}

/// Where an entry belongs: before those whose stamps come before its own.
proof fn lemma_insert_entry_at(s: Seq<ArchiveEntry>, e: ArchiveEntry, at: int)
    requires
        0 <= at <= s.len(),
        at == 0 || !text_less(s[at - 1].stamp@, e.stamp@),
        forall|j: int| at <= j < s.len() ==> text_less((#[trigger] s[j]).stamp@, e.stamp@),
    ensures
        insert_entry(s, e) == s.insert(at, e),
    decreases s.len(),
{
    if at < s.len() {
        let init = s.drop_last();
        assert(s.last() == s[s.len() - 1]);
        assert(forall|j: int| 0 <= j < init.len() ==> init[j] == s[j]);
        lemma_insert_entry_at(init, e, at);
        assert(init.insert(at, e).push(s.last()) =~= s.insert(at, e));
    } else {
        assert(s.push(e) =~= s.insert(at, e));
    }
}

fn insert_sorted(sorted: &mut Vec<ArchiveEntry>, e: ArchiveEntry)
    ensures
        final(sorted)@ == insert_entry(old(sorted)@, e),
{
    let mut i: usize = sorted.len();
    while i > 0 && less(sorted[i - 1].stamp.as_str(), e.stamp.as_str())
        invariant
            i <= sorted@.len(),
            sorted@ == old(sorted)@,
            forall|j: int|
                i <= j < sorted@.len() ==> text_less((#[trigger] sorted@[j]).stamp@, e.stamp@),
        decreases i,
    {
        i -= 1;
    }
    proof {
        lemma_insert_entry_at(sorted@, e, i as int);
    }
    sorted.insert(i, e);
}

/// The archives of a directory, newest first. Files that are no archives or could not be
/// parsed are left out.
pub fn list_archives(files: &[(String, Option<SessionSnapshot>)]) -> (r: Vec<ArchiveEntry>)
    requires
        forall|i: int|
            0 <= i < files@.len() && is_listed(#[trigger] files@[i]) ==> tab_total(
                files@[i].1->0,
                files@[i].1->0.windows@.len(),
            ) <= usize::MAX,
    ensures
        exists|entries: Seq<ArchiveEntry>|
            #[trigger] all_described(entries, listed(files@)) && r@ == entries_newest_first(
                entries,
            ),
{
    let mut found = pick_listed(files);
    let ghost entries = found@;
    let mut out: Vec<ArchiveEntry> = Vec::new();
    let ghost mut done: int = 0;
    while found.len() > 0
        invariant
            0 <= done <= entries.len(),
            found@ == entries.skip(done),
            out@ == entries_newest_first(entries.take(done)),
        decreases found@.len(),
    {
        let e = found.remove(0);
        assert(entries.take(done + 1).drop_last() == entries.take(done));
        assert(entries.take(done + 1).last() == e);
        insert_sorted(&mut out, e);
        proof {
            assert(entries.skip(done).remove(0) == entries.skip(done + 1));
            done = done + 1;
        }
    }
    assert(entries.take(done) == entries);
    assert(all_described(entries, listed(files@)));
    out
}

proof fn lemma_insert_entry_stamps(s: Seq<ArchiveEntry>, e: ArchiveEntry)
    ensures
        stamps(insert_entry(s, e)) == insert_newest_first(stamps(s), e.stamp@),
    decreases s.len(),
{
    if s.len() > 0 {
        assert(stamps(s).last() == s.last().stamp@);
        assert(stamps(s).drop_last() == stamps(s.drop_last()));
        lemma_insert_entry_stamps(s.drop_last(), e);
        assert(stamps(s.push(e)) == stamps(s).push(e.stamp@));
        assert(stamps(insert_entry(s.drop_last(), e).push(s.last())) == stamps(
            insert_entry(s.drop_last(), e),
        ).push(s.last().stamp@));
    } else {
        assert(stamps(s.push(e)) == stamps(s).push(e.stamp@));
    }
}

/// A listing is in descending order of stamps.
pub proof fn law_listing_is_newest_first(entries: Seq<ArchiveEntry>)
    ensures
        stamps(entries_newest_first(entries)) == newest_first(stamps(entries)),
        descending(stamps(entries_newest_first(entries))),
        entries_newest_first(entries).len() == entries.len(),
    decreases entries.len(),
{
    if entries.len() > 0 {
        law_listing_is_newest_first(entries.drop_last());
        lemma_insert_entry_stamps(entries_newest_first(entries.drop_last()), entries.last());
        assert(stamps(entries).drop_last() == stamps(entries.drop_last()));
        assert(stamps(entries).last() == entries.last().stamp@);
    }
    law_newest_first_sorts(stamps(entries));
    assert(stamps(entries_newest_first(entries)).len() == entries_newest_first(entries).len());
}

proof fn lemma_insert_entry_keeps(s: Seq<ArchiveEntry>, e: ArchiveEntry)
    ensures
        insert_entry(s, e).len() == s.len() + 1,
        forall|i: int|
            0 <= i <= s.len() ==> (#[trigger] insert_entry(s, e)[i] == e || s.contains(
                insert_entry(s, e)[i],
            )),
        insert_entry(s, e).contains(e),
        forall|x: ArchiveEntry| s.contains(x) ==> #[trigger] insert_entry(s, e).contains(x),
    decreases s.len(),
{
    let r = insert_entry(s, e);
    if s.len() == 0 || !text_less(s.last().stamp@, e.stamp@) {
        assert(r[s.len() as int] == e);
        assert forall|x: ArchiveEntry| s.contains(x) implies #[trigger] r.contains(x) by {
            let k = choose|k: int| 0 <= k < s.len() && s[k] == x;
            assert(r[k] == x);
        }
    } else {
        let init = s.drop_last();
        let t = insert_entry(init, e);
        lemma_insert_entry_keeps(init, e);
        assert forall|i: int| 0 <= i <= s.len() implies (#[trigger] r[i] == e || s.contains(
            r[i],
        )) by {
            if i < t.len() {
                assert(r[i] == t[i]);
                if t[i] != e {
                    let k = choose|k: int| 0 <= k < init.len() && init[k] == t[i];
                    assert(s[k] == r[i]);
                }
            } else {
                assert(r[i] == s[s.len() - 1]);
            }
        }
        let k = choose|k: int| 0 <= k < t.len() && t[k] == e;
        assert(r[k] == e);
        assert forall|x: ArchiveEntry| s.contains(x) implies #[trigger] r.contains(x) by {
            let k = choose|k: int| 0 <= k < s.len() && s[k] == x;
            if k < init.len() {
                assert(init[k] == x);
                assert(t.contains(x));
                let m = choose|m: int| 0 <= m < t.len() && t[m] == x;
                assert(r[m] == x);
            } else {
                assert(r[t.len() as int] == x);
            }
        }
    }
}

proof fn lemma_listing_keeps(entries: Seq<ArchiveEntry>)
    ensures
        entries_newest_first(entries).len() == entries.len(),
        forall|i: int|
            0 <= i < entries.len() ==> entries.contains(
                #[trigger] entries_newest_first(entries)[i],
            ),
        forall|x: ArchiveEntry|
            entries.contains(x) ==> #[trigger] entries_newest_first(entries).contains(x),
    decreases entries.len(),
{
    if entries.len() > 0 {
        let init = entries.drop_last();
        let sorted = entries_newest_first(init);
        lemma_listing_keeps(init);
        lemma_insert_entry_keeps(sorted, entries.last());
        let all = entries_newest_first(entries);
        assert forall|i: int| 0 <= i < entries.len() implies entries.contains(
            #[trigger] all[i],
        ) by {
            if all[i] == entries.last() {
                assert(entries[entries.len() - 1] == all[i]);
            } else {
                let k = choose|k: int| 0 <= k < sorted.len() && sorted[k] == all[i];
                assert(init.contains(sorted[k]));
                let m = choose|m: int| 0 <= m < init.len() && init[m] == all[i];
                assert(entries[m] == all[i]);
            }
        }
        assert forall|x: ArchiveEntry| entries.contains(x) implies #[trigger] all.contains(x) by {
            let k = choose|k: int| 0 <= k < entries.len() && entries[k] == x;
            if k < init.len() {
                assert(init[k] == x);
                assert(sorted.contains(x));
            }
        }
    }
}

/// Where no archive is newer, a listing begins with the archive just made.
pub proof fn law_new_archive_is_listed_first(
    names: Seq<Seq<char>>,
    stamp: Seq<char>,
    name: Seq<char>,
    entries: Seq<ArchiveEntry>,
    made: int,
)
    requires
        is_next_name(names, stamp, name),
        0 <= made < entries.len(),
        entries[made].path@ == name,
        forall|i: int|
            0 <= i < entries.len() ==> (#[trigger] entries[i]).path@ == archive_prefix()
                + entries[i].stamp@,
        forall|i: int|
            0 <= i < entries.len() && i != made ==> names.contains(
                (#[trigger] entries[i]).path@,
            ) && is_not_newer(entries[i].path@, stamp),
    ensures
        entries_newest_first(entries).len() == entries.len(),
        entries_newest_first(entries)[0].path@ == name,
{
    law_new_name_sorts_last(names, stamp, name);
    law_listing_is_newest_first(entries);
    lemma_listing_keeps(entries);
    let all = entries_newest_first(entries);
    assert(entries.contains(entries[made]));
    assert(all.contains(entries[made]));
    let at = choose|at: int| 0 <= at < all.len() && all[at] == entries[made];
    let first = all[0];
    assert(entries.contains(first));
    let k = choose|k: int| 0 <= k < entries.len() && entries[k] == first;
    if k != made {
        let i = choose|i: int| 0 <= i < names.len() && names[i] == entries[k].path@;
        assert(text_less(names[i], name));
        lemma_text_less_prefix(archive_prefix(), first.stamp@, entries[made].stamp@);
        lemma_text_less_total(first.stamp@, first.stamp@);
        assert(stamps(all).len() == all.len());
        assert(stamps(all)[0] == first.stamp@);
        assert(stamps(all)[at] == entries[made].stamp@);
    }
}

// ---- names and numbers -----------------------------------------------------

/// An archive is a file whose name starts with `session.json.prev-`, followed by its moment and,
/// for all but the first of a moment, a dash and a number.
#[verifier::rlimit(40)]
pub proof fn law_archives_have_their_names(rest: Seq<char>, stamp: Seq<char>, k: nat, name: Seq<char>)
    ensures
        is_archive("session.json.prev-"@ + rest),
        is_archive(name) ==> name == "session.json.prev-"@ + name.skip(18),
        archive_name(stamp, 1) == "session.json.prev-"@ + stamp,
        k >= 2 ==> archive_name(stamp, k) == "session.json.prev-"@ + stamp + seq!['-'] + decimal(k),
        is_archive(archive_name(stamp, k)),
{
    reveal_strlit("session.json.prev-");
    let p = "session.json.prev-"@;
    assert(p.len() == 18);
    assert((p + rest).take(18) =~= p);
    if is_archive(name) {
        assert(name =~= name.take(18) + name.skip(18));
    }
    assert((p + stamp).take(18) =~= p);
    assert((p + stamp + seq!['-'] + decimal(k)).take(18) =~= p);
}

/// What is saved takes up the live file, the one put aside and the archives, and nothing else.
pub proof fn law_the_footprint_is_all_that_is_saved(l: StateListing, n: usize, name: Seq<char>)
    ensures
        l.live ==> footprint(l)[0] == "session.json"@,
        l.corrupt && !l.live ==> footprint(l)[0] == "session.json.corrupt"@,
        l.corrupt && l.live ==> footprint(l)[1] == "session.json.corrupt"@,
        footprint(l).len() == (if l.live { 1int } else { 0 }) + (if l.corrupt { 1int } else { 0 })
            + archives_among(texts(l.names@)).len(),
        archives_among(texts(l.names@)).contains(name) ==> is_archive(name),
        call_ensures(saved_state_count, (Some(&l),), n) ==> n == footprint(l).len(),
        call_ensures(saved_state_count, (None,), n) ==> n == 0,
{
    let p = |x: Seq<char>| is_archive(x);
    lemma_filter_holds(texts(l.names@), p, name);
}

proof fn lemma_filter_holds<A>(s: Seq<A>, p: spec_fn(A) -> bool, x: A)
    ensures
        s.filter(p).contains(x) <==> s.contains(x) && p(x),
    decreases s.len(),
{
    reveal(Seq::filter);
    if s.len() > 0 {
        let t = s.drop_last();
        let z = s.last();
        lemma_filter_holds(t, p, x);
        assert(s =~= t.push(z));
        let f = t.filter(p);
        assert(s.filter(p) == if p(z) { f.push(z) } else { f });
        assert(t.push(z)[t.len() as int] == z && f.push(z)[f.len() as int] == z);
        if t.contains(x) {
            let i = choose|i: int| 0 <= i < t.len() && t[i] == x;
            assert(s[i] == x);
        }
        if f.contains(x) {
            let i = choose|i: int| 0 <= i < f.len() && f[i] == x;
            assert(f.push(z)[i] == x);
        }
        if s.contains(x) {
            let i = choose|i: int| 0 <= i < s.len() && s[i] == x;
            if i < t.len() {
                assert(t[i] == x);
            }
        }
        if f.push(z).contains(x) {
            let i = choose|i: int| 0 <= i < f.push(z).len() && f.push(z)[i] == x;
            if i < f.len() {
                assert(f[i] == x);
            }
        }
    }
}

/// Every archive is kept or pruned: ten are kept, and what goes is an archive.
#[verifier::rlimit(40)]
pub proof fn law_ten_archives_are_kept(names: Seq<Seq<char>>, name: Seq<char>)
    ensures
        archives_among(names).contains(name) <==> names.contains(name) && is_archive(name),
        archives_among(names).len() <= 10 ==> pruned(names).len() == 0,
        archives_among(names).len() > 10 ==> pruned(names).len() == archives_among(names).len() - 10,
        pruned(names).contains(name) ==> names.contains(name) && is_archive(name),
{
    let p = |x: Seq<char>| is_archive(x);
    lemma_filter_holds(names, p, name);
    let own = archives_among(names);
    let all = sorted_archives(names);
    law_newest_first_sorts(own);
    if pruned(names).contains(name) {
        let gone = all.skip(10);
        let i = choose|i: int| 0 <= i < gone.reverse().len() && gone.reverse()[i] == name;
        let at = gone.len() - 1 - i;
        assert(gone[at] == name);
        assert(all[at + 10] == name);
        all.to_multiset_ensures();
        own.to_multiset_ensures();
        assert(all.contains(name) <==> all.to_multiset().count(name) > 0);
        assert(own.contains(name) <==> own.to_multiset().count(name) > 0);
        assert(all.contains(all[at + 10]));
    }
}

/// An entry of the list says where the archive is, of which moment, and how many windows and tabs
/// it has.
pub proof fn law_entries_describe_their_archive(e: ArchiveEntry, name: Seq<char>, snap: SessionSnapshot, n: nat)
    requires
        n < snap.windows@.len(),
    ensures
        describes(e, name, snap) ==> e.path@ == name && name == "session.json.prev-"@ + e.stamp@
            && e.windows == snap.windows@.len() && e.tabs == tab_total(snap, snap.windows@.len()),
        tab_total(snap, n + 1) == tab_total(snap, n) + snap.windows@[n as int].tabs@.len(),
        tab_total(snap, 0) == 0,
{
}

/// Only archives that could be read are listed, all of them.
pub proof fn law_readable_archives_are_listed(files: Seq<(String, Option<SessionSnapshot>)>, f: (String, Option<SessionSnapshot>))
    ensures
        listed(files).contains(f) <==> files.contains(f) && is_archive(f.0@) && f.1 is Some,
{
    lemma_filter_holds(files, |f: (String, Option<SessionSnapshot>)| is_listed(f), f);
}

/// The first archive of a moment bears no number, and the one after it the number 2.
pub proof fn law_archives_of_a_moment_are_numbered_from_two(taken: Seq<Seq<char>>, stamp: Seq<char>, name: Seq<char>)
    requires
        is_next_name(taken, stamp, name),
        forall|i: int|
            0 <= i < taken.len() && bears_stamp(#[trigger] taken[i], stamp) ==> taken[i]
                == archive_name(stamp, 1),
    ensures
        !taken.contains(archive_name(stamp, 1)) ==> name == "session.json.prev-"@ + stamp,
        taken.contains(archive_name(stamp, 1)) ==> name == "session.json.prev-"@ + stamp + seq!['-']
            + decimal(2),
{
    let first = archive_name(stamp, 1);
    law_numbered_names_sort_later(stamp, 2);
    if taken.contains(first) {
        let i = choose|i: int| 0 <= i < taken.len() && taken[i] == first;
        assert(bears_stamp(taken[i], stamp));
        assert(sorts_after_all(taken, stamp, archive_name(stamp, 2)));
    } else if !is_fresh_stamp(taken, stamp) {
        let i = choose|i: int| 0 <= i < taken.len() && bears_stamp(taken[i], stamp);
        assert(taken[i] == first);
    }
}

} // verus!
