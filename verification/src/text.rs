//! Text as sequences of characters: substrings, their occurrences, and the
//! lowercase form of a line.

use vstd::prelude::*;
use vstd::string::StringExecFns;
use crate::tally::{count, lemma_count_front};

verus! {

/// `needle` stands in `hay` from position `at` on.
pub open spec fn occurs_at(hay: Seq<char>, needle: Seq<char>, at: int) -> bool {
    &&& 0 <= at
    &&& at + needle.len() <= hay.len()
    &&& hay.subrange(at, at + needle.len()) == needle
}

/// `needle` stands somewhere in `hay`.
pub open spec fn is_substring(needle: Seq<char>, hay: Seq<char>) -> bool {
    exists|at: int| occurs_at(hay, needle, at)
}

/// The number of occurrences of `needle` that a scan of `hay` from left to
/// right finds, where the scan goes on behind each occurrence it has found:
/// the occurrences counted do not overlap. The empty text occurs before each
/// character and once more at the end.
pub open spec fn occurrences(hay: Seq<char>, needle: Seq<char>) -> nat
    decreases hay.len(),
{
    if needle.len() == 0 {
        hay.len() + 1
    } else if hay.len() < needle.len() {
        0
    } else if occurs_at(hay, needle, 0) {
        1 + occurrences(hay.skip(needle.len() as int), needle)
    } else {
        occurrences(hay.skip(1), needle)
    }
}

/// A text that is not empty occurs at most once for each character of the
/// text it is sought in.
pub proof fn lemma_occurrences_bounded(hay: Seq<char>, needle: Seq<char>)
    requires
        needle.len() > 0,
    ensures
        occurrences(hay, needle) <= hay.len(),
    decreases hay.len(),
{
    if hay.len() >= needle.len() {
        if occurs_at(hay, needle, 0) {
            lemma_occurrences_bounded(hay.skip(needle.len() as int), needle);
        } else {
            lemma_occurrences_bounded(hay.skip(1), needle);
        }
    }
}

/// A text that is not empty is a substring exactly where it occurs at least
/// once.
pub proof fn lemma_occurrences_positive(hay: Seq<char>, needle: Seq<char>)
    requires
        needle.len() > 0,
    ensures
        occurrences(hay, needle) > 0 <==> is_substring(needle, hay),
    decreases hay.len(),
{
    let m = needle.len() as int;
    if hay.len() < needle.len() {
    } else if occurs_at(hay, needle, 0) {
    } else {
        let rest = hay.skip(1);
        lemma_occurrences_positive(rest, needle);
        if is_substring(needle, rest) {
            let at = choose|at: int| occurs_at(rest, needle, at);
            assert(hay.subrange(at + 1, at + 1 + m) =~= rest.subrange(at, at + m));
            assert(occurs_at(hay, needle, at + 1));
        }
        if is_substring(needle, hay) {
            let at = choose|at: int| occurs_at(hay, needle, at);
            assert(at > 0);
            assert(hay.subrange(at, at + m) =~= rest.subrange(at - 1, at - 1 + m));
            assert(occurs_at(rest, needle, at - 1));
        }
    }
}

/// A text of one character occurs as often as that character is counted.
pub proof fn lemma_occurrences_of_one_char(hay: Seq<char>, c: char)
    ensures
        occurrences(hay, seq![c]) == count(hay, c),
    decreases hay.len(),
{
    let needle = seq![c];
    if hay.len() > 0 {
        lemma_count_front(hay, c);
        lemma_occurrences_of_one_char(hay.skip(1), c);
        if hay[0] == c {
            assert(hay.subrange(0, 1) =~= needle);
        } else {
            assert(hay.subrange(0, 1)[0] != needle[0]);
        }
    }
}

/// The characters of `s`, in order.
pub fn chars_of(s: &str) -> (v: Vec<char>)
    ensures
        v@ == s@,
{
    let mut v: Vec<char> = Vec::new();
    for c in it: s.chars()
        invariant
            it.seq() == s@,
            v@ == it.seq().take(it.index()),
    {
        v.push(c);
    }
    v
}

/// Whether `needle` stands in `hay` from position `at` on.
fn matches_at(hay: &Vec<char>, needle: &Vec<char>, at: usize) -> (b: bool)
    requires
        at + needle.len() <= hay.len(),
    ensures
        b == occurs_at(hay@, needle@, at as int),
{
    let m = needle.len();
    let mut k: usize = 0;
    while k < m
        invariant
            m == needle.len(),
            at + m <= hay.len(),
            k <= m,
            forall|j: int| 0 <= j < k ==> hay@[at + j] == needle@[j],
        decreases m - k,
    {
        if hay[at + k] != needle[k] {
            assert(hay@.subrange(at as int, at + m)[k as int] != needle@[k as int]);
            return false;
        }
        k += 1;
    }
    assert(hay@.subrange(at as int, at + m) =~= needle@);
    true
}

/// Whether `needle` occurs in `hay`, as a sequence of characters.
pub fn contains(hay: &str, needle: &str) -> (found: bool)
    ensures
        found == is_substring(needle@, hay@),
{
    let h = chars_of(hay);
    let n = chars_of(needle);
    if n.len() > h.len() {
        return false;
    }
    let m = n.len();
    if m == 0 {
        assert(h@.subrange(0, 0) =~= n@);
        assert(occurs_at(h@, n@, 0));
        return true;
    }
    let mut at: usize = 0;
    while m <= h.len() - at
        invariant
            h@ == hay@,
            n@ == needle@,
            m == n.len(),
            m > 0,
            at <= h.len(),
            forall|j: int| 0 <= j < at ==> !occurs_at(h@, n@, j),
        decreases h.len() - at,
    {
        if matches_at(&h, &n, at) {
            assert(occurs_at(h@, n@, at as int));
            return true;
        }
        at += 1;
    }
    false
}

/// The number of occurrences of `substring` in `line`, counted as a scan
/// from left to right finds them, none overlapping another.
pub fn count_matches(line: &str, substring: &str) -> (n: usize)
    requires
        substring@.len() > 0 || line@.len() < usize::MAX,
    ensures
        n == occurrences(line@, substring@),
{
    let h = chars_of(line);
    let s = chars_of(substring);
    let m = s.len();
    if m == 0 {
        return h.len() + 1;
    }
    let mut n: usize = 0;
    let mut at: usize = 0;
    assert(h@.skip(0) =~= h@);
    while m <= h.len() - at
        invariant
            h@ == line@,
            s@ == substring@,
            m == s.len(),
            m > 0,
            at <= h.len(),
            n <= at,
            n + occurrences(h@.skip(at as int), s@) == occurrences(h@, s@),
        decreases h.len() - at,
    {
        let ghost rest = h@.skip(at as int);
        if matches_at(&h, &s, at) {
            proof {
                assert(rest.subrange(0, m as int) =~= h@.subrange(at as int, at + m));
                assert(rest.skip(m as int) =~= h@.skip(at + m));
            }
            n += 1;
            at += m;
        } else {
            proof {
                assert(rest.subrange(0, m as int) =~= h@.subrange(at as int, at + m));
                assert(rest.skip(1) =~= h@.skip(at + 1));
            }
            at += 1;
        }
    }
    n
}

/// The character that shows the digit `d`.
pub open spec fn digit(d: nat) -> char {
    seq!['0', '1', '2', '3', '4', '5', '6', '7', '8', '9'][d as int]
}

/// The decimal numeral of `n`, without sign or leading zero.
pub open spec fn decimal(n: nat) -> Seq<char>
    decreases n,
{
    if n < 10 {
        seq![digit(n)]
    } else {
        decimal(n / 10).push(digit(n % 10))
    }
}

/// The one-character text of the digit `d`.
fn digit_text(d: usize) -> (t: &'static str)
    requires
        d < 10,
    ensures
        t@ == seq![digit(d as nat)],
{
    let t = match d {
        0 => "0",
        1 => "1",
        2 => "2",
        3 => "3",
        4 => "4",
        5 => "5",
        6 => "6",
        7 => "7",
        8 => "8",
        _ => "9",
    };
    proof {
        reveal_strlit("0");
        reveal_strlit("1");
        reveal_strlit("2");
        reveal_strlit("3");
        reveal_strlit("4");
        reveal_strlit("5");
        reveal_strlit("6");
        reveal_strlit("7");
        reveal_strlit("8");
        reveal_strlit("9");
        assert(t@ =~= seq![digit(d as nat)]);
    }
    t
}

/// The decimal numeral of `n` as a text.
pub fn decimal_text(n: usize) -> (t: String)
    ensures
        t@ == decimal(n as nat),
    decreases n,
{
    if n < 10 {
        String::from_str(digit_text(n))
    } else {
        let mut t = decimal_text(n / 10);
        let d = digit_text(n % 10);
        t.append(d);
        assert(t@ =~= decimal((n / 10) as nat).push(digit((n % 10) as nat)));
        t
    }
}

/// The lowercase form of a text, as the standard library defines it over
/// Unicode.
pub uninterp spec fn lowercase_of(s: Seq<char>) -> Seq<char>;

/// `str::to_lowercase` of the standard library. The result is a function of
/// the text alone; nothing more is claimed of it.
#[verifier::external_body]
pub(crate) fn lowercase(s: &str) -> (lower: String)
    ensures
        lower@ == lowercase_of(s@),
{
    s.to_lowercase()
}

} // verus!
