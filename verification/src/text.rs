//! Character-level helpers: conversions between strings and character
//! vectors, and decimal numerals with their specification.

use vstd::prelude::*;

verus! {

/// The characters of `s`, in order.
pub fn to_chars(s: &str) -> (out: Vec<char>)
    ensures
        out@ == s@,
{
    let mut out: Vec<char> = Vec::new();
    for c in it: s.chars()
        invariant
            it.seq() == s@,
            out@ == it.seq().take(it.index()),
    {
        out.push(c);
    }
    out
}

/// `String::push`: appends one character to the string.
#[verifier::external_body]
fn push_char(text: &mut String, c: char)
    ensures
        final(text)@ == old(text)@.push(c),
{
    text.push(c);
}

/// The string made of the given characters, in order.
pub fn from_chars(chars: &[char]) -> (out: String)
    ensures
        out@ == chars@,
{
    let mut out = String::new();
    let mut i: usize = 0;
    while i < chars.len()
        invariant
            i <= chars.len(),
            out@ == chars@.take(i as int),
        decreases chars.len() - i,
    {
        push_char(&mut out, chars[i]);
        assert(chars@.take(i + 1) =~= chars@.take(i as int).push(chars@[i as int]));
        i += 1;
    }
    assert(chars@.take(chars@.len() as int) =~= chars@);
    out
}

/// Appends the characters of `s` to `out`.
pub fn push_str(out: &mut Vec<char>, s: &str)
    ensures
        final(out)@ == old(out)@ + s@,
{
    let ghost before = out@;
    for c in it: s.chars()
        invariant
            it.seq() == s@,
            out@ == before + it.seq().take(it.index()),
    {
        out.push(c);
        assert(it.seq().take(it.index() + 1) == it.seq().take(it.index()).push(c));
    }
    assert(s@.take(s@.len() as int) == s@);
}

/// Appends a copy of `chars` to `out`.
pub fn push_chars(out: &mut Vec<char>, chars: &Vec<char>)
    ensures
        final(out)@ == old(out)@ + chars@,
{
    let ghost before = out@;
    let mut i: usize = 0;
    while i < chars.len()
        invariant
            i <= chars.len(),
            out@ == before + chars@.take(i as int),
        decreases chars.len() - i,
    {
        out.push(chars[i]);
        assert(chars@.take(i + 1) == chars@.take(i as int).push(chars@[i as int]));
        i += 1;
    }
    assert(chars@.take(chars@.len() as int) == chars@);
}

/// Whether `c` is one of the ten ASCII digits.
pub open spec fn is_digit(c: char) -> bool {
    48 <= c as u32 <= 57
}

/// The value of an ASCII digit.
pub open spec fn digit_value(c: char) -> int {
    c as u32 as int - 48
}

/// The ASCII digit of a value below ten.
pub open spec fn digit_char(d: int) -> char {
    if d == 0 {
        '0'
    } else if d == 1 {
        '1'
    } else if d == 2 {
        '2'
    } else if d == 3 {
        '3'
    } else if d == 4 {
        '4'
    } else if d == 5 {
        '5'
    } else if d == 6 {
        '6'
    } else if d == 7 {
        '7'
    } else if d == 8 {
        '8'
    } else {
        '9'
    }
}

/// Whether every character of `s` is an ASCII digit.
pub open spec fn all_digits(s: Seq<char>) -> bool {
    forall|i: int| 0 <= i < s.len() ==> is_digit(#[trigger] s[i])
}

/// The number that a run of digits denotes, most significant digit first.
pub open spec fn digits_value(s: Seq<char>) -> nat
    decreases s.len(),
{
    if s.len() == 0 {
        0
    } else {
        (digits_value(s.drop_last()) * 10 + digit_value(s.last())) as nat
    }
}

/// A canonical numeral: at least one digit, and no leading zero unless the
/// numeral is `0` itself.
pub open spec fn is_canonical(s: Seq<char>) -> bool {
    &&& s.len() > 0
    &&& all_digits(s)
    &&& (s.len() > 1 ==> s[0] != '0')
}

/// The canonical decimal numeral of `n`.
pub open spec fn decimal(n: nat) -> Seq<char>
    decreases n,
{
    if n < 10 {
        seq![digit_char(n as int)]
    } else {
        decimal(n / 10).push(digit_char((n % 10) as int))
    }
}

/// The decimal text of an integer, with a minus sign where it is negative.
pub open spec fn signed_decimal(i: int) -> Seq<char> {
    if i < 0 {
        seq!['-'] + decimal((-i) as nat)
    } else {
        decimal(i as nat)
    }
}

/// The length of the longest prefix of `s` made of digits.
pub open spec fn digit_prefix_len(s: Seq<char>) -> nat
    decreases s.len(),
{
    if s.len() > 0 && is_digit(s[0]) {
        1 + digit_prefix_len(s.skip(1))
    } else {
        0
    }
}

/// The digit of a value below ten is a digit with that value.
pub proof fn lemma_digit_char(d: int)
    requires
        0 <= d < 10,
    ensures
        is_digit(digit_char(d)),
        digit_value(digit_char(d)) == d,
{
}

/// The value of a digit is below ten, and the digit of that value is the
/// digit itself.
pub proof fn lemma_digit_value(c: char)
    requires
        is_digit(c),
    ensures
        0 <= digit_value(c) < 10,
        digit_char(digit_value(c)) == c,
{
}

/// `decimal(n)` is canonical and denotes `n`; it starts with `0` only for
/// `n == 0`.
pub proof fn lemma_decimal_canonical(n: nat)
    ensures
        is_canonical(decimal(n)),
        digits_value(decimal(n)) == n,
        decimal(n)[0] == '0' <==> n == 0,
    decreases n,
{
    if n < 10 {
        lemma_digit_char(n as int);
        let s = decimal(n);
        assert(s.drop_last() =~= Seq::<char>::empty());
        assert(digits_value(s.drop_last()) == 0);
    } else {
        lemma_decimal_canonical(n / 10);
        lemma_digit_char((n % 10) as int);
        let p = decimal(n / 10);
        let s = decimal(n);
        assert(s.drop_last() =~= p);
        assert(s.last() == digit_char((n % 10) as int));
        assert(s[0] == p[0]);
        assert forall|i: int| 0 <= i < s.len() implies is_digit(#[trigger] s[i]) by {
            if i < p.len() {
                assert(s[i] == p[i]);
            }
        }
    }
}

/// A canonical numeral is the decimal text of the number it denotes.
pub proof fn lemma_canonical_decimal(s: Seq<char>)
    requires
        is_canonical(s),
    ensures
        decimal(digits_value(s)) == s,
    decreases s.len(),
{
    lemma_digit_value(s.last());
    if s.len() == 1 {
        assert(s.drop_last() =~= Seq::<char>::empty());
        assert(digits_value(s.drop_last()) == 0);
        assert(decimal(digits_value(s)) =~= s);
    } else {
        let p = s.drop_last();
        assert(p[0] == s[0]);
        assert forall|i: int| 0 <= i < p.len() implies is_digit(#[trigger] p[i]) by {
            assert(p[i] == s[i]);
        }
        if p.len() == 1 {
            lemma_digit_value(p[0]);
            assert(p.drop_last() =~= Seq::<char>::empty());
            assert(digits_value(p.drop_last()) == 0);
            assert(digits_value(p) == digit_value(p[0]));
            assert(digits_value(p) >= 1);
        } else {
            lemma_canonical_decimal(p);
            lemma_decimal_canonical(digits_value(p));
            assert(digits_value(p) >= 1);
        }
        lemma_canonical_decimal(p);
        let n = digits_value(s);
        assert(n / 10 == digits_value(p));
        assert(n % 10 == digit_value(s.last()));
        assert(decimal(n) =~= s);
    }
}

/// The digit prefix of `s` is made of digits, and the character after it,
/// if there is one, is no digit.
pub proof fn lemma_digit_prefix(s: Seq<char>)
    ensures
        digit_prefix_len(s) <= s.len(),
        all_digits(s.take(digit_prefix_len(s) as int)),
        digit_prefix_len(s) < s.len() ==> !is_digit(s[digit_prefix_len(s) as int]),
    decreases s.len(),
{
    if s.len() > 0 && is_digit(s[0]) {
        let t = s.skip(1);
        lemma_digit_prefix(t);
        let n = digit_prefix_len(t) as int;
        assert forall|i: int| 0 <= i < n + 1 implies is_digit(#[trigger] s.take(n + 1)[i]) by {
            if i > 0 {
                assert(s.take(n + 1)[i] == t.take(n)[i - 1]);
            }
        }
        if n + 1 < s.len() {
            assert(s[n + 1] == t[n]);
        }
    }
}

/// A run of digits followed by a non-digit, or by nothing, is the digit
/// prefix.
pub proof fn lemma_digit_prefix_is(s: Seq<char>, n: nat)
    requires
        n <= s.len(),
        all_digits(s.take(n as int)),
        n < s.len() ==> !is_digit(s[n as int]),
    ensures
        digit_prefix_len(s) == n,
    decreases n,
{
    if n > 0 {
        assert(s.take(n as int)[0] == s[0]);
        let t = s.skip(1);
        assert forall|i: int| 0 <= i < n - 1 implies is_digit(#[trigger] t.take(n - 1)[i]) by {
            assert(t.take(n - 1)[i] == s.take(n as int)[i + 1]);
        }
        if n - 1 < t.len() {
            assert(t[n - 1] == s[n as int]);
        }
        lemma_digit_prefix_is(t, (n - 1) as nat);
    }
}

/// The digit of a value below ten.
pub fn digit_of(d: u64) -> (c: char)
    requires
        d < 10,
    ensures
        c == digit_char(d as int),
{
    if d == 0 {
        '0'
    } else if d == 1 {
        '1'
    } else if d == 2 {
        '2'
    } else if d == 3 {
        '3'
    } else if d == 4 {
        '4'
    } else if d == 5 {
        '5'
    } else if d == 6 {
        '6'
    } else if d == 7 {
        '7'
    } else if d == 8 {
        '8'
    } else {
        '9'
    }
}

/// Whether `c` is an ASCII digit.
pub fn char_is_digit(c: char) -> (b: bool)
    ensures
        b == is_digit(c),
{
    let code: u32 = c as u32;
    48 <= code && code <= 57
}

/// Appends the decimal numeral of `n` to `out`.
pub fn push_decimal(out: &mut Vec<char>, n: u64)
    ensures
        final(out)@ == old(out)@ + decimal(n as nat),
    decreases n,
{
    if n < 10 {
        out.push(digit_of(n));
        assert(out@ =~= old(out)@ + decimal(n as nat));
    } else {
        push_decimal(out, n / 10);
        out.push(digit_of(n % 10));
        assert(out@ =~= old(out)@ + decimal(n as nat));
    }
}

/// Appends the decimal text of `i` to `out`.
pub fn push_signed_decimal(out: &mut Vec<char>, i: i64)
    ensures
        final(out)@ == old(out)@ + signed_decimal(i as int),
{
    if i < 0 {
        out.push('-');
        let magnitude: u64 = if i == i64::MIN {
            9223372036854775808u64
        } else {
            (-i) as u64
        };
        push_decimal(out, magnitude);
        assert(out@ =~= old(out)@ + signed_decimal(i as int));
    } else {
        push_decimal(out, i as u64);
    }
}

/// The end of the run of digits of `chars` that begins at `start`.
pub fn scan_digits(chars: &Vec<char>, start: usize) -> (end: usize)
    requires
        start <= chars.len(),
    ensures
        start <= end <= chars.len(),
        end - start == digit_prefix_len(chars@.skip(start as int)),
{
    let mut end: usize = start;
    while end < chars.len() && char_is_digit(chars[end])
        invariant
            start <= end <= chars.len(),
            all_digits(chars@.skip(start as int).take(end - start)),
        decreases chars.len() - end,
    {
        let ghost before = chars@.skip(start as int).take(end - start);
        end += 1;
        let ghost after = chars@.skip(start as int).take(end - start);
        assert forall|i: int| 0 <= i < after.len() implies is_digit(#[trigger] after[i]) by {
            if i < before.len() {
                assert(after[i] == before[i]);
            }
        }
    }
    proof {
        lemma_digit_prefix_is(chars@.skip(start as int), (end - start) as nat);
    }
    end
}

/// The number denoted by the digits `chars[start..end]`, where they form a
/// canonical numeral no greater than `limit`.
pub fn read_number(chars: &Vec<char>, start: usize, end: usize, limit: u64) -> (value: Option<u64>)
    requires
        start <= end <= chars.len(),
        all_digits(chars@.subrange(start as int, end as int)),
        limit < u64::MAX / 10 - 1,
    ensures
        value is Some <==> is_canonical(chars@.subrange(start as int, end as int))
            && digits_value(chars@.subrange(start as int, end as int)) <= limit,
        value is Some ==> value->0 == digits_value(chars@.subrange(start as int, end as int)),
{
    let ghost s = chars@.subrange(start as int, end as int);
    if start == end {
        return None;
    }
    assert(s[0] == chars@[start as int]);
    if end - start > 1 && chars[start] == '0' {
        return None;
    }
    let mut value: u64 = 0;
    let mut i: usize = start;
    while i < end
        invariant
            start <= i <= end <= chars.len(),
            s == chars@.subrange(start as int, end as int),
            all_digits(s),
            value == digits_value(s.take(i - start)),
            value <= limit,
            limit < u64::MAX / 10 - 1,
        decreases end - i,
    {
        let c = chars[i];
        assert(s[i - start] == c);
        let d: u64 = (c as u32 - 48) as u64;
        let ghost next = s.take(i - start + 1);
        assert(next.drop_last() =~= s.take(i - start));
        assert(next.last() == c);
        let grown: u64 = value * 10 + d;
        if grown > limit {
            proof {
                lemma_digits_value_monotone(s, (i - start + 1) as nat);
            }
            return None;
        }
        value = grown;
        i += 1;
    }
    assert(s.take(end - start) =~= s);
    Some(value)
}

/// A prefix of a run of digits denotes no more than the whole run.
pub proof fn lemma_digits_value_monotone(s: Seq<char>, n: nat)
    requires
        n <= s.len(),
        all_digits(s),
    ensures
        digits_value(s.take(n as int)) <= digits_value(s),
    decreases s.len(),
{
    if n == s.len() {
        assert(s.take(n as int) =~= s);
    } else {
        let p = s.drop_last();
        assert forall|i: int| 0 <= i < p.len() implies is_digit(#[trigger] p[i]) by {
            assert(p[i] == s[i]);
        }
        assert(p.take(n as int) =~= s.take(n as int));
        lemma_digits_value_monotone(p, n);
        assert(is_digit(s[s.len() - 1]));
    }
}

/// Whether `needle` stands in `hay` at index `i`.
pub open spec fn occurs_at(hay: Seq<char>, needle: Seq<char>, i: int) -> bool {
    &&& 0 <= i
    &&& i + needle.len() <= hay.len()
    &&& hay.subrange(i, i + needle.len()) == needle
}

/// Whether `needle` stands somewhere in `hay`.
pub open spec fn contains(hay: Seq<char>, needle: Seq<char>) -> bool {
    exists|i: int| occurs_at(hay, needle, i)
}

/// Whether `needle` stands in `hay` at index `i`.
pub fn stands_at(hay: &Vec<char>, needle: &Vec<char>, i: usize) -> (found: bool)
    ensures
        found == occurs_at(hay@, needle@, i as int),
{
    if i > hay.len() || needle.len() > hay.len() - i {
        return false;
    }
    let mut k: usize = 0;
    while k < needle.len()
        invariant
            k <= needle.len(),
            i + needle.len() <= hay.len(),
            forall|j: int| 0 <= j < k ==> hay@[i + j] == needle@[j],
        decreases needle.len() - k,
    {
        if hay[i + k] != needle[k] {
            assert(hay@.subrange(i as int, i + needle.len())[k as int] != needle@[k as int]);
            return false;
        }
        k += 1;
    }
    assert(hay@.subrange(i as int, i + needle.len()) =~= needle@);
    true
}

/// The first index at or after `from` where `needle` stands in `hay`.
pub fn find_from(hay: &Vec<char>, needle: &Vec<char>, from: usize) -> (found: Option<usize>)
    ensures
        match found {
            Some(i) => from <= i && occurs_at(hay@, needle@, i as int) && forall|j: int|
                from <= j < i ==> !occurs_at(hay@, needle@, j),
            None => forall|j: int| from <= j ==> !occurs_at(hay@, needle@, j),
        },
{
    if from > hay.len() {
        return None;
    }
    let mut i: usize = from;
    while i <= hay.len()
        invariant
            from <= i <= hay.len() + 1,
            forall|j: int| from <= j < i ==> !occurs_at(hay@, needle@, j),
        decreases hay.len() + 1 - i,
    {
        if stands_at(hay, needle, i) {
            return Some(i);
        }
        if i == hay.len() {
            return None;
        }
        i += 1;
    }
    None
}

/// Whether `needle` stands somewhere in `hay`.
pub fn has_substring(hay: &Vec<char>, needle: &Vec<char>) -> (found: bool)
    ensures
        found == contains(hay@, needle@),
{
    match find_from(hay, needle, 0) {
        Some(i) => {
            assert(occurs_at(hay@, needle@, i as int));
            true
        },
        None => false,
    }
}

/// Whether the character `c` occurs in `s`.
pub fn has_char(s: &Vec<char>, c: char) -> (found: bool)
    ensures
        found == s@.contains(c),
{
    let mut i: usize = 0;
    while i < s.len()
        invariant
            i <= s.len(),
            forall|j: int| 0 <= j < i ==> s@[j] != c,
        decreases s.len() - i,
    {
        if s[i] == c {
            return true;
        }
        i += 1;
    }
    false
}

/// Whether two character vectors hold the same characters.
pub fn same_chars(a: &Vec<char>, b: &Vec<char>) -> (same: bool)
    ensures
        same == (a@ == b@),
{
    if a.len() != b.len() {
        return false;
    }
    let same = stands_at(a, b, 0);
    assert(a@.subrange(0, a@.len() as int) =~= a@);
    same
}

/// Whether two strings hold the same characters.
pub fn str_eq(a: &str, b: &str) -> (same: bool)
    ensures
        same == (a@ == b@),
{
    let left = to_chars(a);
    let right = to_chars(b);
    same_chars(&left, &right)
}

/// Whether `needle` stands somewhere in `hay`.
pub fn str_contains(hay: &str, needle: &str) -> (found: bool)
    ensures
        found == contains(hay@, needle@),
{
    let h = to_chars(hay);
    let n = to_chars(needle);
    has_substring(&h, &n)
}

/// The index of the first `c` in `s`, or the length of `s` where it has
/// none.
pub open spec fn first_index(s: Seq<char>, c: char) -> int
    decreases s.len(),
{
    if s.len() == 0 || s[0] == c {
        0
    } else {
        1 + first_index(s.skip(1), c)
    }
}

/// The pieces of `s` between the separators `sep`; a text without a
/// separator is one piece.
pub open spec fn split(s: Seq<char>, sep: char) -> Seq<Seq<char>>
    decreases s.len(),
{
    let i = first_index(s, sep);
    if 0 <= i < s.len() {
        seq![s.take(i)] + split(s.skip(i + 1), sep)
    } else {
        seq![s]
    }
}

/// The pieces, each followed by `sep` but for the last.
pub open spec fn join(pieces: Seq<Seq<char>>, sep: Seq<char>) -> Seq<char>
    decreases pieces.len(),
{
    if pieces.len() == 0 {
        Seq::<char>::empty()
    } else if pieces.len() == 1 {
        pieces[0]
    } else {
        join(pieces.drop_last(), sep) + sep + pieces.last()
    }
}

/// The first index of `c` lies within the text or at its end; `c` stands
/// there unless the text has ended, and nowhere before.
pub proof fn lemma_first_index(s: Seq<char>, c: char)
    ensures
        0 <= first_index(s, c) <= s.len(),
        first_index(s, c) < s.len() ==> s[first_index(s, c)] == c,
        forall|j: int| 0 <= j < first_index(s, c) ==> s[j] != c,
    decreases s.len(),
{
    if s.len() == 0 || s[0] == c {
    } else {
        let t = s.skip(1);
        lemma_first_index(t, c);
        assert forall|j: int| 0 <= j < first_index(s, c) implies s[j] != c by {
            if j > 0 {
                assert(s[j] == t[j - 1]);
            }
        }
    }
}

/// An index before which no `c` stands, and at which one does or the text
/// ends, is the first index of `c`.
pub proof fn lemma_first_index_is(s: Seq<char>, c: char, i: int)
    requires
        0 <= i <= s.len(),
        forall|j: int| 0 <= j < i ==> s[j] != c,
        i < s.len() ==> s[i] == c,
    ensures
        first_index(s, c) == i,
    decreases i,
{
    if i > 0 {
        let t = s.skip(1);
        assert forall|j: int| 0 <= j < i - 1 implies t[j] != c by {
            assert(t[j] == s[j + 1]);
        }
        lemma_first_index_is(t, c, i - 1);
    }
}

/// The index of the first `c` in `chars` at or after `from`, or the length
/// of `chars`.
pub fn find_char(chars: &Vec<char>, c: char, from: usize) -> (at: usize)
    requires
        from <= chars.len(),
    ensures
        from <= at <= chars.len(),
        at - from == first_index(chars@.skip(from as int), c),
{
    let mut at: usize = from;
    while at < chars.len() && chars[at] != c
        invariant
            from <= at <= chars.len(),
            forall|j: int| from <= j < at ==> chars@[j] != c,
        decreases chars.len() - at,
    {
        at += 1;
    }
    proof {
        let rest = chars@.skip(from as int);
        assert forall|j: int| 0 <= j < at - from implies rest[j] != c by {
            assert(rest[j] == chars@[from + j]);
        }
        lemma_first_index_is(rest, c, at - from);
    }
    at
}

/// A copy of `chars[from..to]`.
pub fn slice_chars(chars: &Vec<char>, from: usize, to: usize) -> (out: Vec<char>)
    requires
        from <= to <= chars.len(),
    ensures
        out@ == chars@.subrange(from as int, to as int),
{
    let mut out: Vec<char> = Vec::new();
    let mut i: usize = from;
    while i < to
        invariant
            from <= i <= to <= chars.len(),
            out@ == chars@.subrange(from as int, i as int),
        decreases to - i,
    {
        out.push(chars[i]);
        assert(chars@.subrange(from as int, i + 1) =~= chars@.subrange(from as int, i as int).push(
            chars@[i as int],
        ));
        i += 1;
    }
    out
}

/// The pieces of `chars` between the separators `sep`.
pub fn split_chars(chars: &Vec<char>, sep: char) -> (pieces: Vec<Vec<char>>)
    ensures
        pieces@.len() == split(chars@, sep).len(),
        forall|i: int| 0 <= i < pieces@.len() ==> (#[trigger] pieces@[i])@ == split(chars@, sep)[i],
{
    let mut pieces: Vec<Vec<char>> = Vec::new();
    let mut from: usize = 0;
    let ghost mut done: Seq<Seq<char>> = Seq::empty();
    assert(chars@.skip(0) =~= chars@);
    loop
        invariant_except_break
            from <= chars.len(),
            done.len() == pieces@.len(),
            forall|i: int| 0 <= i < pieces@.len() ==> (#[trigger] pieces@[i])@ == done[i],
            split(chars@, sep) == done + split(chars@.skip(from as int), sep),
        ensures
            pieces@.len() == split(chars@, sep).len(),
            forall|i: int|
                0 <= i < pieces@.len() ==> (#[trigger] pieces@[i])@ == split(chars@, sep)[i],
        decreases chars.len() - from,
    {
        let at = find_char(chars, sep, from);
        let piece = slice_chars(chars, from, at);
        let ghost rest = chars@.skip(from as int);
        proof {
            assert(rest.take(at - from) =~= chars@.subrange(from as int, at as int));
        }
        pieces.push(piece);
        if at == chars.len() {
            proof {
                assert(rest.take(rest.len() as int) =~= rest);
                assert(split(rest, sep) =~= seq![rest]);
                done = done.push(rest);
                assert(split(chars@, sep) =~= done);
            }
            break;
        }
        proof {
            assert(rest.skip(at - from + 1) =~= chars@.skip(at + 1));
            assert(split(rest, sep) == seq![rest.take(at - from)] + split(
                chars@.skip(at + 1),
                sep,
            ));
            let grown = done.push(rest.take(at - from));
            assert(grown + split(chars@.skip(at + 1), sep) =~= done + split(rest, sep));
            done = grown;
        }
        from = at + 1;
    }
    pieces
}

/// The text `hay` with `with` in the place of each occurrence of `needle`,
/// found from left to right without overlap. An empty `needle` occurs
/// nowhere.
pub open spec fn replaced(hay: Seq<char>, needle: Seq<char>, with: Seq<char>) -> Seq<char>
    decreases hay.len(),
{
    if needle.len() == 0 || hay.len() < needle.len() {
        hay
    } else if hay.take(needle.len() as int) == needle {
        with + replaced(hay.skip(needle.len() as int), needle, with)
    } else {
        seq![hay[0]] + replaced(hay.skip(1), needle, with)
    }
}

/// Puts `with` in the place of each occurrence of `needle` in `hay`.
pub fn replace_all(hay: &Vec<char>, needle: &Vec<char>, with: &Vec<char>) -> (out: Vec<char>)
    ensures
        out@ == replaced(hay@, needle@, with@),
{
    let mut out: Vec<char> = Vec::new();
    if needle.len() == 0 {
        push_chars(&mut out, hay);
        return out;
    }
    let mut i: usize = 0;
    assert(hay@.skip(0) =~= hay@);
    while i < hay.len()
        invariant
            i <= hay.len(),
            needle.len() > 0,
            replaced(hay@, needle@, with@) == out@ + replaced(hay@.skip(i as int), needle@, with@),
        decreases hay.len() - i,
    {
        let ghost rest = hay@.skip(i as int);
        if stands_at(hay, needle, i) {
            assert(rest.take(needle@.len() as int) =~= hay@.subrange(
                i as int,
                i + needle@.len(),
            ));
            assert(rest.skip(needle@.len() as int) =~= hay@.skip(i + needle@.len()));
            let ghost before = out@;
            push_chars(&mut out, with);
            assert(before + (with@ + replaced(rest.skip(needle@.len() as int), needle@, with@))
                =~= out@ + replaced(hay@.skip(i + needle@.len()), needle@, with@));
            i += needle.len();
        } else {
            proof {
                if rest.len() >= needle@.len() {
                    assert(rest.take(needle@.len() as int) =~= hay@.subrange(
                        i as int,
                        i + needle@.len(),
                    ));
                } else {
                    assert(replaced(rest.skip(1), needle@, with@) == rest.skip(1));
                    assert(rest =~= seq![rest[0]] + rest.skip(1));
                }
                assert(rest.skip(1) =~= hay@.skip(i + 1));
            }
            let ghost before = out@;
            out.push(hay[i]);
            assert(before + (seq![rest[0]] + replaced(rest.skip(1), needle@, with@)) =~= out@
                + replaced(hay@.skip(i + 1), needle@, with@));
            i += 1;
        }
    }
    assert(hay@.skip(hay@.len() as int) =~= Seq::<char>::empty());
    assert(out@ + Seq::<char>::empty() =~= out@);
    out
}

} // verus!
