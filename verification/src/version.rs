//! Version identifiers and release classifications.
//!
//! An identifier is read into one of six shapes. Every string is accepted:
//! one that has none of the five structured shapes is kept as it is. The
//! numbers of a structured shape are canonical decimal numerals that fit in
//! an `i32`, so that the text of the value read is the string it was read
//! from.

use vstd::prelude::*;
use crate::text::{
    char_is_digit, decimal, digit_char, digit_prefix_len, digit_value, digits_value, from_chars,
    is_canonical, is_digit, lemma_canonical_decimal, lemma_decimal_canonical, lemma_digit_char,
    lemma_digit_prefix, lemma_digit_prefix_is, lemma_digit_value, push_decimal,
    push_signed_decimal, push_str, read_number, scan_digits, signed_decimal, to_chars,
};

verus! {

/// A version identifier.
#[derive(Debug)]
pub enum MCVersion {
    /// `1.20.4`: major, minor, patch.
    Release(i32, i32, Option<i32>),
    /// `23w46a`: two-digit year, two-digit week, revision.
    Snapshot(i32, i32, String),
    /// `1.14 Pre-Release 4`: major, minor, patch, number.
    PreReleaseNew(i32, i32, Option<i32>, i32),
    /// `1.9.1-pre2`: major, minor, patch, number.
    PreReleaseOld(i32, i32, Option<i32>, i32),
    /// `1.19.3-rc3`: major, minor, patch, number.
    ReleaseCandidate(i32, i32, Option<i32>, i32),
    /// Anything else, such as the names of old betas and alphas.
    Other(String),
}

/// The mathematical value of an [`MCVersion`].
pub enum MCVersionView {
    Release(int, int, Option<int>),
    Snapshot(int, int, Seq<char>),
    PreReleaseNew(int, int, Option<int>, int),
    PreReleaseOld(int, int, Option<int>, int),
    ReleaseCandidate(int, int, Option<int>, int),
    Other(Seq<char>),
}

/// The patch number as a mathematical integer.
pub open spec fn patch_view(patch: Option<i32>) -> Option<int> {
    match patch {
        Some(p) => Some(p as int),
        None => None,
    }
}

impl View for MCVersion {
    type V = MCVersionView;

    open spec fn view(&self) -> MCVersionView {
        match *self {
            MCVersion::Release(a, b, p) => MCVersionView::Release(a as int, b as int, patch_view(p)),
            MCVersion::Snapshot(y, w, r) => MCVersionView::Snapshot(y as int, w as int, r@),
            MCVersion::PreReleaseNew(a, b, p, n) => MCVersionView::PreReleaseNew(
                a as int,
                b as int,
                patch_view(p),
                n as int,
            ),
            MCVersion::PreReleaseOld(a, b, p, n) => MCVersionView::PreReleaseOld(
                a as int,
                b as int,
                patch_view(p),
                n as int,
            ),
            MCVersion::ReleaseCandidate(a, b, p, n) => MCVersionView::ReleaseCandidate(
                a as int,
                b as int,
                patch_view(p),
                n as int,
            ),
            MCVersion::Other(s) => MCVersionView::Other(s@),
        }
    }
}

/// What stands between the core and the number of a new-style pre-release.
pub open spec fn pre_release_new_mark() -> Seq<char> {
    " Pre-Release "@
}

/// What stands between the core and the number of an old-style pre-release.
pub open spec fn pre_release_old_mark() -> Seq<char> {
    "-pre"@
}

/// What stands between the core and the number of a release candidate.
pub open spec fn release_candidate_mark() -> Seq<char> {
    "-rc"@
}

/// `major.minor`, followed by `.patch` where there is a patch.
pub open spec fn core_text(major: int, minor: int, patch: Option<int>) -> Seq<char> {
    signed_decimal(major) + seq!['.'] + signed_decimal(minor) + match patch {
        Some(p) => seq!['.'] + signed_decimal(p),
        None => Seq::<char>::empty(),
    }
}

/// A number written with at least two characters, padded with a zero.
pub open spec fn padded2(i: int) -> Seq<char> {
    if 0 <= i < 10 {
        seq!['0'] + decimal(i as nat)
    } else {
        signed_decimal(i)
    }
}

/// The text of a version identifier.
pub open spec fn version_text(v: MCVersionView) -> Seq<char> {
    match v {
        MCVersionView::Release(a, b, p) => core_text(a, b, p),
        MCVersionView::Snapshot(y, w, r) => padded2(y) + seq!['w'] + padded2(w) + r,
        MCVersionView::PreReleaseNew(a, b, p, n) => core_text(a, b, p) + pre_release_new_mark()
            + signed_decimal(n),
        MCVersionView::PreReleaseOld(a, b, p, n) => core_text(a, b, p) + pre_release_old_mark()
            + signed_decimal(n),
        MCVersionView::ReleaseCandidate(a, b, p, n) => core_text(a, b, p)
            + release_candidate_mark() + signed_decimal(n),
        MCVersionView::Other(s) => s,
    }
}

/// The number at the start of `s` and what follows it: the longest run of
/// digits there, where it is a canonical numeral that fits in an `i32`.
pub open spec fn number_at(s: Seq<char>) -> Option<(int, Seq<char>)> {
    let n = digit_prefix_len(s) as int;
    let digits = s.take(n);
    if is_canonical(digits) && digits_value(digits) <= i32::MAX {
        Some((digits_value(digits) as int, s.skip(n)))
    } else {
        None
    }
}

/// `major.minor` or `major.minor.patch` at the start of `s`, and what
/// follows it. A dot that no number follows is left in the rest.
pub open spec fn core_at(s: Seq<char>) -> Option<(int, int, Option<int>, Seq<char>)> {
    match number_at(s) {
        Some((major, r1)) => if r1.len() > 0 && r1[0] == '.' {
            match number_at(r1.skip(1)) {
                Some((minor, r2)) => if r2.len() > 0 && r2[0] == '.' {
                    match number_at(r2.skip(1)) {
                        Some((patch, r3)) => Some((major, minor, Some(patch), r3)),
                        None => Some((major, minor, None, r2)),
                    }
                } else {
                    Some((major, minor, None, r2))
                },
                None => None,
            }
        } else {
            None
        },
        None => None,
    }
}

/// The number `n` where `rest` is `mark` followed by `n` and nothing else.
pub open spec fn numbered_suffix(rest: Seq<char>, mark: Seq<char>) -> Option<int> {
    if mark.is_prefix_of(rest) {
        match number_at(rest.skip(mark.len() as int)) {
            Some((n, r)) => if r.len() == 0 {
                Some(n)
            } else {
                None
            },
            None => None,
        }
    } else {
        None
    }
}

/// Year, week and revision where `s` is two digits, `w`, two digits and one
/// character that is no line feed.
pub open spec fn snapshot_at(s: Seq<char>) -> Option<(int, int, Seq<char>)> {
    if s.len() == 6 && is_digit(s[0]) && is_digit(s[1]) && s[2] == 'w' && is_digit(s[3])
        && is_digit(s[4]) && s[5] != '\n' {
        Some(
            (
                digit_value(s[0]) * 10 + digit_value(s[1]),
                digit_value(s[3]) * 10 + digit_value(s[4]),
                s.skip(5),
            ),
        )
    } else {
        None
    }
}

/// The structured version that `s` spells, if it spells one.
pub open spec fn structured_version(s: Seq<char>) -> Option<MCVersionView> {
    match core_at(s) {
        Some((a, b, p, rest)) => {
            if rest.len() == 0 {
                Some(MCVersionView::Release(a, b, p))
            } else if numbered_suffix(rest, pre_release_new_mark()) is Some {
                Some(
                    MCVersionView::PreReleaseNew(
                        a,
                        b,
                        p,
                        numbered_suffix(rest, pre_release_new_mark())->0,
                    ),
                )
            } else if numbered_suffix(rest, pre_release_old_mark()) is Some {
                Some(
                    MCVersionView::PreReleaseOld(
                        a,
                        b,
                        p,
                        numbered_suffix(rest, pre_release_old_mark())->0,
                    ),
                )
            } else if numbered_suffix(rest, release_candidate_mark()) is Some {
                Some(
                    MCVersionView::ReleaseCandidate(
                        a,
                        b,
                        p,
                        numbered_suffix(rest, release_candidate_mark())->0,
                    ),
                )
            } else {
                None
            }
        },
        None => match snapshot_at(s) {
            Some((y, w, r)) => Some(MCVersionView::Snapshot(y, w, r)),
            None => None,
        },
    }
}

/// The version that the identifier `s` denotes.
pub open spec fn parse_version(s: Seq<char>) -> MCVersionView {
    match structured_version(s) {
        Some(v) => v,
        None => MCVersionView::Other(s),
    }
}

/// A number read by [`number_at`] is written back as the digits it was read
/// from.
pub proof fn lemma_number_at(s: Seq<char>)
    requires
        number_at(s) is Some,
    ensures
        0 <= (number_at(s)->0).0 <= i32::MAX,
        s == signed_decimal((number_at(s)->0).0) + (number_at(s)->0).1,
{
    let n = digit_prefix_len(s) as int;
    lemma_digit_prefix(s);
    lemma_canonical_decimal(s.take(n));
    assert(s =~= s.take(n) + s.skip(n));
}

proof fn lemma_core_at(s: Seq<char>)
    requires
        core_at(s) is Some,
    ensures
        s == core_text((core_at(s)->0).0, (core_at(s)->0).1, (core_at(s)->0).2) + (core_at(
            s,
        )->0).3,
{
    lemma_number_at(s);
    let (major, r1) = number_at(s)->0;
    let t1 = r1.skip(1);
    assert(r1 =~= seq!['.'] + t1);
    lemma_number_at(t1);
    let (minor, r2) = number_at(t1)->0;
    let (a, b, p, rest) = core_at(s)->0;
    if r2.len() > 0 && r2[0] == '.' && number_at(r2.skip(1)) is Some {
        let t2 = r2.skip(1);
        assert(r2 =~= seq!['.'] + t2);
        lemma_number_at(t2);
        let (patch, r3) = number_at(t2)->0;
        assert(s =~= core_text(a, b, p) + rest);
    } else {
        assert(s =~= core_text(a, b, p) + rest);
    }
}

proof fn lemma_numbered_suffix(rest: Seq<char>, mark: Seq<char>)
    requires
        numbered_suffix(rest, mark) is Some,
    ensures
        rest == mark + signed_decimal(numbered_suffix(rest, mark)->0),
{
    let t = rest.skip(mark.len() as int);
    lemma_number_at(t);
    assert(rest =~= mark + t);
    let (n, r) = number_at(t)->0;
    assert(t =~= signed_decimal(n));
}

proof fn lemma_padded2(hi: char, lo: char)
    requires
        is_digit(hi),
        is_digit(lo),
    ensures
        padded2(digit_value(hi) * 10 + digit_value(lo)) == seq![hi, lo],
{
    lemma_digit_value(hi);
    lemma_digit_value(lo);
    let v = digit_value(hi) * 10 + digit_value(lo);
    if v < 10 {
        assert(digit_value(hi) == 0);
        assert(hi == '0');
        assert(decimal(v as nat) =~= seq![lo]);
        assert(padded2(v) =~= seq![hi, lo]);
    } else {
        assert(v / 10 == digit_value(hi));
        assert(v % 10 == digit_value(lo));
        assert(decimal((v / 10) as nat) =~= seq![hi]);
        assert(decimal(v as nat) =~= seq![hi, lo]);
    }
}

/// Reading an identifier and writing the value back gives the identifier:
/// for every string `s`, the text of the version that `s` denotes is `s`.
pub proof fn lemma_parse_then_text(s: Seq<char>)
    ensures
        version_text(parse_version(s)) == s,
{
    if core_at(s) is Some {
        lemma_core_at(s);
        let (a, b, p, rest) = core_at(s)->0;
        if rest.len() == 0 {
            assert(s =~= core_text(a, b, p));
        } else if numbered_suffix(rest, pre_release_new_mark()) is Some {
            lemma_numbered_suffix(rest, pre_release_new_mark());
            assert(s =~= version_text(parse_version(s)));
        } else if numbered_suffix(rest, pre_release_old_mark()) is Some {
            lemma_numbered_suffix(rest, pre_release_old_mark());
            assert(s =~= version_text(parse_version(s)));
        } else if numbered_suffix(rest, release_candidate_mark()) is Some {
            lemma_numbered_suffix(rest, release_candidate_mark());
            assert(s =~= version_text(parse_version(s)));
        }
    } else if snapshot_at(s) is Some {
        lemma_padded2(s[0], s[1]);
        lemma_padded2(s[3], s[4]);
        assert(s =~= seq![s[0], s[1]] + seq!['w'] + seq![s[3], s[4]] + s.skip(5));
    }
}

/// Whether a number can stand in a structured version.
pub open spec fn is_version_number(n: int) -> bool {
    0 <= n <= i32::MAX
}

/// Whether a version is one that reading gives: the numbers of a
/// structured version are not negative, those of a snapshot have at most
/// two digits, its revision is one character that is no line feed, and an
/// opaque version spells no structured one.
pub open spec fn is_well_formed(v: MCVersionView) -> bool {
    match v {
        MCVersionView::Release(a, b, p) => is_version_number(a) && is_version_number(b) && (p
            is Some ==> is_version_number(p->0)),
        MCVersionView::Snapshot(y, w, r) => 0 <= y <= 99 && 0 <= w <= 99 && r.len() == 1 && r[0]
            != '\n',
        MCVersionView::PreReleaseNew(a, b, p, n) => is_version_number(a) && is_version_number(b)
            && (p is Some ==> is_version_number(p->0)) && is_version_number(n),
        MCVersionView::PreReleaseOld(a, b, p, n) => is_version_number(a) && is_version_number(b)
            && (p is Some ==> is_version_number(p->0)) && is_version_number(n),
        MCVersionView::ReleaseCandidate(a, b, p, n) => is_version_number(a) && is_version_number(b)
            && (p is Some ==> is_version_number(p->0)) && is_version_number(n),
        MCVersionView::Other(s) => structured_version(s) is None,
    }
}

proof fn lemma_number_at_decimal(n: int, rest: Seq<char>)
    requires
        is_version_number(n),
        rest.len() == 0 || !is_digit(rest[0]),
    ensures
        number_at(signed_decimal(n) + rest) == Some((n, rest)),
{
    let digits = decimal(n as nat);
    let s = digits + rest;
    lemma_decimal_canonical(n as nat);
    assert(s.take(digits.len() as int) =~= digits);
    if digits.len() < s.len() {
        assert(s[digits.len() as int] == rest[0]);
    }
    lemma_digit_prefix_is(s, digits.len());
    assert(s.skip(digits.len() as int) =~= rest);
}

proof fn lemma_core_at_text(a: int, b: int, p: Option<int>, rest: Seq<char>)
    requires
        is_version_number(a),
        is_version_number(b),
        p is Some ==> is_version_number(p->0),
        rest.len() == 0 || (!is_digit(rest[0]) && rest[0] != '.'),
    ensures
        core_at(core_text(a, b, p) + rest) == Some((a, b, p, rest)),
{
    let tail = match p {
        Some(patch) => seq!['.'] + signed_decimal(patch) + rest,
        None => rest,
    };
    let after_major = seq!['.'] + signed_decimal(b) + tail;
    assert(core_text(a, b, p) + rest =~= signed_decimal(a) + after_major);
    lemma_number_at_decimal(a, after_major);
    assert(after_major.skip(1) =~= signed_decimal(b) + tail);
    lemma_number_at_decimal(b, tail);
    match p {
        Some(patch) => {
            assert(tail.skip(1) =~= signed_decimal(patch) + rest);
            lemma_number_at_decimal(patch, rest);
        },
        None => {},
    }
}

proof fn lemma_suffix_text(mark: Seq<char>, n: int)
    requires
        is_version_number(n),
    ensures
        numbered_suffix(mark + signed_decimal(n), mark) == Some(n),
{
    let rest = mark + signed_decimal(n);
    assert(rest.subrange(0, mark.len() as int) =~= mark);
    assert(rest.skip(mark.len() as int) =~= signed_decimal(n) + Seq::<char>::empty());
    lemma_number_at_decimal(n, Seq::<char>::empty());
}

proof fn lemma_two_digits(y: int)
    requires
        0 <= y <= 99,
    ensures
        padded2(y) == seq![digit_char(y / 10), digit_char(y % 10)],
{
    if y < 10 {
        assert(padded2(y) =~= seq![digit_char(y / 10), digit_char(y % 10)]);
    } else {
        assert(decimal((y / 10) as nat) =~= seq![digit_char(y / 10)]);
        assert(decimal(y as nat) =~= seq![digit_char(y / 10), digit_char(y % 10)]);
    }
}

proof fn lemma_marks()
    ensures
        pre_release_new_mark().len() == 13,
        pre_release_new_mark()[0] == ' ',
        pre_release_old_mark() == seq!['-', 'p', 'r', 'e'],
        release_candidate_mark() == seq!['-', 'r', 'c'],
{
    reveal_strlit(" Pre-Release ");
    reveal_strlit("-pre");
    reveal_strlit("-rc");
    assert(pre_release_old_mark() =~= seq!['-', 'p', 'r', 'e']);
    assert(release_candidate_mark() =~= seq!['-', 'r', 'c']);
}

/// Writing a version and reading the text back gives the version: every
/// well-formed version is what its own text denotes.
pub proof fn lemma_text_then_parse(v: MCVersionView)
    requires
        is_well_formed(v),
    ensures
        parse_version(version_text(v)) == v,
{
    lemma_marks();
    let none = Seq::<char>::empty();
    match v {
        MCVersionView::Release(a, b, p) => {
            lemma_core_at_text(a, b, p, none);
            assert(core_text(a, b, p) + none =~= core_text(a, b, p));
        },
        MCVersionView::Snapshot(y, w, r) => {
            lemma_two_digits(y);
            lemma_two_digits(w);
            lemma_digit_char(y / 10);
            lemma_digit_char(y % 10);
            lemma_digit_char(w / 10);
            lemma_digit_char(w % 10);
            let s = version_text(v);
            assert(s =~= seq![
                digit_char(y / 10),
                digit_char(y % 10),
                'w',
                digit_char(w / 10),
                digit_char(w % 10),
                r[0],
            ]);
            assert(s.skip(5) =~= r);
            assert(s.take(2) =~= seq![digit_char(y / 10), digit_char(y % 10)]);
            assert forall|i: int| 0 <= i < 2 implies is_digit(#[trigger] s.take(2)[i]) by {}
            lemma_digit_prefix_is(s, 2);
            assert(s.skip(2)[0] == 'w');
            assert(core_at(s) is None);
        },
        MCVersionView::PreReleaseNew(a, b, p, n) => {
            let rest = pre_release_new_mark() + signed_decimal(n);
            assert(rest[0] == ' ');
            lemma_core_at_text(a, b, p, rest);
            assert(version_text(v) =~= core_text(a, b, p) + rest);
            lemma_suffix_text(pre_release_new_mark(), n);
        },
        MCVersionView::PreReleaseOld(a, b, p, n) => {
            let rest = pre_release_old_mark() + signed_decimal(n);
            assert(rest[0] == '-');
            lemma_core_at_text(a, b, p, rest);
            assert(version_text(v) =~= core_text(a, b, p) + rest);
            lemma_suffix_text(pre_release_old_mark(), n);
            if pre_release_new_mark().is_prefix_of(rest) {
                assert(rest[0] == pre_release_new_mark()[0]);
            }
        },
        MCVersionView::ReleaseCandidate(a, b, p, n) => {
            let rest = release_candidate_mark() + signed_decimal(n);
            assert(rest[0] == '-');
            assert(rest[1] == 'r');
            lemma_core_at_text(a, b, p, rest);
            assert(version_text(v) =~= core_text(a, b, p) + rest);
            lemma_suffix_text(release_candidate_mark(), n);
            if pre_release_new_mark().is_prefix_of(rest) {
                assert(rest[0] == pre_release_new_mark()[0]);
            }
            if pre_release_old_mark().is_prefix_of(rest) {
                assert(rest[1] == pre_release_old_mark()[1]);
            }
        },
        MCVersionView::Other(s) => {},
    }
}

/// What reading gives is well-formed.
pub proof fn lemma_parse_is_well_formed(s: Seq<char>)
    ensures
        is_well_formed(parse_version(s)),
{
    if core_at(s) is Some {
        lemma_number_at(s);
        let (major, r1) = number_at(s)->0;
        lemma_number_at(r1.skip(1));
        let (minor, r2) = number_at(r1.skip(1))->0;
        if r2.len() > 0 && r2[0] == '.' && number_at(r2.skip(1)) is Some {
            lemma_number_at(r2.skip(1));
        }
        let rest = (core_at(s)->0).3;
        if rest.len() == 0 {
        } else if numbered_suffix(rest, pre_release_new_mark()) is Some {
            lemma_number_at(rest.skip(pre_release_new_mark().len() as int));
        } else if numbered_suffix(rest, pre_release_old_mark()) is Some {
            lemma_number_at(rest.skip(pre_release_old_mark().len() as int));
        } else if numbered_suffix(rest, release_candidate_mark()) is Some {
            lemma_number_at(rest.skip(release_candidate_mark().len() as int));
        }
    } else if snapshot_at(s) is Some {
        lemma_digit_value(s[0]);
        lemma_digit_value(s[1]);
        lemma_digit_value(s[3]);
        lemma_digit_value(s[4]);
    }
}

/// Whether `mark` stands in `chars` at `start`.
fn mark_at(chars: &Vec<char>, start: usize, mark: &str) -> (found: Option<usize>)
    requires
        start <= chars.len(),
    ensures
        found is Some <==> mark@.is_prefix_of(chars@.skip(start as int)),
        found is Some ==> found->0 == start + mark@.len(),
{
    let m = to_chars(mark);
    let ghost rest = chars@.skip(start as int);
    if m.len() > chars.len() - start {
        return None;
    }
    let mut i: usize = 0;
    while i < m.len()
        invariant
            i <= m.len(),
            m@ == mark@,
            start <= chars.len(),
            m.len() <= chars.len() - start,
            rest == chars@.skip(start as int),
            forall|j: int| 0 <= j < i ==> m@[j] == rest[j],
        decreases m.len() - i,
    {
        if m[i] != chars[start + i] {
            assert(rest[i as int] == chars@[start + i]);
            return None;
        }
        assert(rest[i as int] == chars@[start + i]);
        i += 1;
    }
    assert(m@ =~= rest.subrange(0, m@.len() as int));
    Some(start + m.len())
}

/// The number at `start` and the index after it.
fn number_from(chars: &Vec<char>, start: usize) -> (found: Option<(i32, usize)>)
    requires
        start <= chars.len(),
    ensures
        found is Some <==> number_at(chars@.skip(start as int)) is Some,
        found is Some ==> {
            let (n, end) = found->0;
            &&& start < end <= chars.len()
            &&& 0 <= n
            &&& number_at(chars@.skip(start as int)) == Some(
                (n as int, chars@.skip(end as int)),
            )
        },
{
    let end = scan_digits(chars, start);
    let ghost s = chars@.skip(start as int);
    proof {
        lemma_digit_prefix(s);
        assert(s.take(end - start) =~= chars@.subrange(start as int, end as int));
        assert(s.skip(end - start) =~= chars@.skip(end as int));
    }
    match read_number(chars, start, end, 2147483647) {
        Some(n) => Some((n as i32, end)),
        None => None,
    }
}

/// Reads `.patch` at `at`, where a dot and a number stand there.
fn patch_from(chars: &Vec<char>, at: usize) -> (found: Option<(i32, usize)>)
    requires
        at <= chars.len(),
    ensures
        found is Some <==> {
            let r = chars@.skip(at as int);
            r.len() > 0 && r[0] == '.' && number_at(r.skip(1)) is Some
        },
        found is Some ==> {
            let (n, end) = found->0;
            &&& at < end <= chars.len()
            &&& 0 <= n
            &&& number_at(chars@.skip(at as int).skip(1)) == Some(
                (n as int, chars@.skip(end as int)),
            )
        },
{
    let ghost r = chars@.skip(at as int);
    if at < chars.len() && chars[at] == '.' {
        assert(r[0] == chars@[at as int]);
        assert(r.skip(1) =~= chars@.skip(at + 1));
        number_from(chars, at + 1)
    } else {
        if at < chars.len() {
            assert(r[0] == chars@[at as int]);
        }
        None
    }
}

/// Reads `mark` and a number that ends the text, at `at`.
fn suffix_from(chars: &Vec<char>, at: usize, mark: &str) -> (found: Option<i32>)
    requires
        at <= chars.len(),
    ensures
        found is Some <==> numbered_suffix(chars@.skip(at as int), mark@) is Some,
        found is Some ==> 0 <= found->0 && numbered_suffix(chars@.skip(at as int), mark@)
            == Some(found->0 as int),
{
    match mark_at(chars, at, mark) {
        Some(after) => {
            assert(chars@.skip(at as int).skip(mark@.len() as int) =~= chars@.skip(
                after as int,
            ));
            match number_from(chars, after) {
                Some((n, end)) => {
                    if end == chars.len() {
                        Some(n)
                    } else {
                        None
                    }
                },
                None => None,
            }
        },
        None => None,
    }
}

/// The value of two digits.
fn two_digits(hi: char, lo: char) -> (v: i32)
    requires
        is_digit(hi),
        is_digit(lo),
    ensures
        v == digit_value(hi) * 10 + digit_value(lo),
{
    let h: u32 = hi as u32 - 48;
    let l: u32 = lo as u32 - 48;
    (h * 10 + l) as i32
}

/// Appends `major.minor[.patch]`.
fn push_core(out: &mut Vec<char>, major: i32, minor: i32, patch: Option<i32>)
    ensures
        final(out)@ == old(out)@ + core_text(major as int, minor as int, patch_view(patch)),
{
    push_signed_decimal(out, major as i64);
    out.push('.');
    push_signed_decimal(out, minor as i64);
    match patch {
        Some(p) => {
            out.push('.');
            push_signed_decimal(out, p as i64);
        },
        None => {},
    }
    assert(out@ =~= old(out)@ + core_text(major as int, minor as int, patch_view(patch)));
}

/// Appends a number in at least two characters.
fn push_padded2(out: &mut Vec<char>, i: i32)
    ensures
        final(out)@ == old(out)@ + padded2(i as int),
{
    if 0 <= i && i < 10 {
        out.push('0');
        push_decimal(out, i as u64);
        assert(out@ =~= old(out)@ + padded2(i as int));
    } else {
        push_signed_decimal(out, i as i64);
    }
}

/// Reads `major.minor[.patch]` at the start of the text.
fn core_from(chars: &Vec<char>) -> (found: Option<(i32, i32, Option<i32>, usize)>)
    ensures
        found is Some <==> core_at(chars@) is Some,
        found is Some ==> {
            let (major, minor, patch, end) = found->0;
            &&& end <= chars.len()
            &&& core_at(chars@) == Some(
                (major as int, minor as int, patch_view(patch), chars@.skip(end as int)),
            )
        },
{
    assert(chars@.skip(0) =~= chars@);
    let (major, e1) = match number_from(chars, 0) {
        Some(found) => found,
        None => {
            return None;
        },
    };
    if e1 < chars.len() {
        assert(chars@.skip(e1 as int)[0] == chars@[e1 as int]);
    }
    if !(e1 < chars.len() && chars[e1] == '.') {
        return None;
    }
    assert(chars@.skip(e1 as int).skip(1) =~= chars@.skip(e1 + 1));
    let (minor, e2) = match number_from(chars, e1 + 1) {
        Some(found) => found,
        None => {
            return None;
        },
    };
    match patch_from(chars, e2) {
        Some((patch, e3)) => Some((major, minor, Some(patch), e3)),
        None => Some((major, minor, None, e2)),
    }
}

/// Reads a structured version whose core has been read and ends at `end`.
fn with_suffix(chars: &Vec<char>, major: i32, minor: i32, patch: Option<i32>, end: usize) -> (found:
    Option<MCVersion>)
    requires
        end <= chars.len(),
        core_at(chars@) == Some(
            (major as int, minor as int, patch_view(patch), chars@.skip(end as int)),
        ),
    ensures
        crate::model::view_opt(found) == structured_version(chars@),
{
    if end == chars.len() {
        return Some(MCVersion::Release(major, minor, patch));
    }
    if let Some(n) = suffix_from(chars, end, " Pre-Release ") {
        return Some(MCVersion::PreReleaseNew(major, minor, patch, n));
    }
    if let Some(n) = suffix_from(chars, end, "-pre") {
        return Some(MCVersion::PreReleaseOld(major, minor, patch, n));
    }
    if let Some(n) = suffix_from(chars, end, "-rc") {
        return Some(MCVersion::ReleaseCandidate(major, minor, patch, n));
    }
    None
}

/// Reads a snapshot.
fn snapshot_from(chars: &Vec<char>) -> (found: Option<MCVersion>)
    ensures
        match found {
            Some(version) => snapshot_at(chars@) is Some && version@ == MCVersionView::Snapshot(
                (snapshot_at(chars@)->0).0,
                (snapshot_at(chars@)->0).1,
                (snapshot_at(chars@)->0).2,
            ),
            None => snapshot_at(chars@) is None,
        },
{
    if chars.len() == 6 && char_is_digit(chars[0]) && char_is_digit(chars[1]) && chars[2] == 'w'
        && char_is_digit(chars[3]) && char_is_digit(chars[4]) && chars[5] != '\n' {
        let year = two_digits(chars[0], chars[1]);
        let week = two_digits(chars[3], chars[4]);
        let mut revision: Vec<char> = Vec::new();
        revision.push(chars[5]);
        assert(revision@ =~= chars@.skip(5));
        Some(MCVersion::Snapshot(year, week, from_chars(revision.as_slice())))
    } else {
        None
    }
}

impl MCVersion {
    /// Reads a version identifier.
    pub fn new(value: &str) -> (version: MCVersion)
        ensures
            version@ == parse_version(value@),
            version_text(version@) == value@,
    {
        let chars = to_chars(value);
        proof {
            lemma_parse_then_text(value@);
        }
        let structured = match core_from(&chars) {
            Some((major, minor, patch, end)) => with_suffix(&chars, major, minor, patch, end),
            None => snapshot_from(&chars),
        };
        match structured {
            Some(version) => version,
            None => MCVersion::Other(value.to_owned()),
        }
    }

    /// Reads a version identifier from an owned string.
    pub fn from(value: String) -> (version: MCVersion)
        ensures
            version@ == parse_version(value@),
            version_text(version@) == value@,
    {
        MCVersion::new(value.as_str())
    }

    /// The text of the identifier.
    pub fn to_string(&self) -> (text: String)
        ensures
            text@ == version_text(self@),
    {
        let mut out: Vec<char> = Vec::new();
        match self {
            MCVersion::Release(major, minor, patch) => {
                push_core(&mut out, *major, *minor, *patch);
            },
            MCVersion::Snapshot(year, week, revision) => {
                push_padded2(&mut out, *year);
                out.push('w');
                push_padded2(&mut out, *week);
                push_str(&mut out, revision.as_str());
            },
            MCVersion::PreReleaseNew(major, minor, patch, number) => {
                push_core(&mut out, *major, *minor, *patch);
                push_str(&mut out, " Pre-Release ");
                push_signed_decimal(&mut out, *number as i64);
            },
            MCVersion::PreReleaseOld(major, minor, patch, number) => {
                push_core(&mut out, *major, *minor, *patch);
                push_str(&mut out, "-pre");
                push_signed_decimal(&mut out, *number as i64);
            },
            MCVersion::ReleaseCandidate(major, minor, patch, number) => {
                push_core(&mut out, *major, *minor, *patch);
                push_str(&mut out, "-rc");
                push_signed_decimal(&mut out, *number as i64);
            },
            MCVersion::Other(value) => {
                push_str(&mut out, value.as_str());
            },
        }
        assert(out@ =~= version_text(self@));
        from_chars(out.as_slice())
    }
}

impl Clone for MCVersion {
    fn clone(&self) -> (out: Self)
        ensures
            out@ == self@,
    {
        match self {
            MCVersion::Release(a, b, p) => MCVersion::Release(*a, *b, *p),
            MCVersion::Snapshot(y, w, r) => MCVersion::Snapshot(*y, *w, r.clone()),
            MCVersion::PreReleaseNew(a, b, p, n) => MCVersion::PreReleaseNew(*a, *b, *p, *n),
            MCVersion::PreReleaseOld(a, b, p, n) => MCVersion::PreReleaseOld(*a, *b, *p, *n),
            MCVersion::ReleaseCandidate(a, b, p, n) => MCVersion::ReleaseCandidate(
                *a,
                *b,
                *p,
                *n,
            ),
            MCVersion::Other(s) => MCVersion::Other(s.clone()),
        }
    }
}

impl PartialEq for MCVersion {
    fn eq(&self, other: &MCVersion) -> (equal: bool) {
        match (self, other) {
            (MCVersion::Release(a, b, p), MCVersion::Release(a2, b2, p2)) => *a == *a2 && *b
                == *b2 && *p == *p2,
            (MCVersion::Snapshot(y, w, r), MCVersion::Snapshot(y2, w2, r2)) => *y == *y2 && *w
                == *w2 && *r == *r2,
            (MCVersion::PreReleaseNew(a, b, p, n), MCVersion::PreReleaseNew(a2, b2, p2, n2)) => *a
                == *a2 && *b == *b2 && *p == *p2 && *n == *n2,
            (MCVersion::PreReleaseOld(a, b, p, n), MCVersion::PreReleaseOld(a2, b2, p2, n2)) => *a
                == *a2 && *b == *b2 && *p == *p2 && *n == *n2,
            (
                MCVersion::ReleaseCandidate(a, b, p, n),
                MCVersion::ReleaseCandidate(a2, b2, p2, n2),
            ) => *a == *a2 && *b == *b2 && *p == *p2 && *n == *n2,
            (MCVersion::Other(s), MCVersion::Other(s2)) => *s == *s2,
            _ => false,
        }
    }
}

impl vstd::std_specs::cmp::PartialEqSpecImpl for MCVersion {
    open spec fn obeys_eq_spec() -> bool {
        true
    }

    open spec fn eq_spec(&self, other: &MCVersion) -> bool {
        self@ == other@
    }
}

impl Eq for MCVersion {

}

/// The classification of a release.
#[derive(Debug, Clone, Copy, PartialEq, Eq, Hash, Structural)]
pub enum ReleaseType {
    Release,
    Snapshot,
    OldBeta,
    OldAlpha,
}

impl ReleaseType {
    /// The name of the classification as manifests write it.
    pub open spec fn name(self) -> Seq<char> {
        match self {
            ReleaseType::Release => "release"@,
            ReleaseType::Snapshot => "snapshot"@,
            ReleaseType::OldBeta => "old_beta"@,
            ReleaseType::OldAlpha => "old_alpha"@,
        }
    }

    /// The name of the classification as manifests write it.
    pub fn get_name(&self) -> (name: &'static str)
        ensures
            name@ == self.name(),
    {
        match self {
            ReleaseType::Release => "release",
            ReleaseType::Snapshot => "snapshot",
            ReleaseType::OldBeta => "old_beta",
            ReleaseType::OldAlpha => "old_alpha",
        }
    }
}

} // verus!
