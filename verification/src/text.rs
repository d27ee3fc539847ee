//! Text on the level of characters: trimming, prefixes, splitting, comparison
//! without regard to ASCII case, and decimal numerals.

use vstd::prelude::*;
use vstd::string::*;

verus! {

/// The characters that carry the Unicode property `White_Space`.
pub open spec fn whitespace(c: char) -> bool {
    ||| '\u{9}' <= c <= '\u{d}'
    ||| c == '\u{20}'
    ||| c == '\u{85}'
    ||| c == '\u{a0}'
    ||| c == '\u{1680}'
    ||| '\u{2000}' <= c <= '\u{200a}'
    ||| c == '\u{2028}'
    ||| c == '\u{2029}'
    ||| c == '\u{202f}'
    ||| c == '\u{205f}'
    ||| c == '\u{3000}'
}

/// `s` without the whitespace at its start.
pub open spec fn trimmed_start(s: Seq<char>) -> Seq<char>
    decreases s.len(),
{
    if s.len() > 0 && whitespace(s[0]) {
        trimmed_start(s.drop_first())
    } else {
        s
    }
}

/// `s` without the whitespace at its end.
pub open spec fn trimmed_end(s: Seq<char>) -> Seq<char>
    decreases s.len(),
{
    if s.len() > 0 && whitespace(s.last()) {
        trimmed_end(s.drop_last())
    } else {
        s
    }
}

/// `s` without the whitespace at either end.
pub open spec fn trimmed(s: Seq<char>) -> Seq<char> {
    trimmed_end(trimmed_start(s))
}

/// `s` without the occurrences of `c` at its end.
pub open spec fn without_trailing(s: Seq<char>, c: char) -> Seq<char>
    decreases s.len(),
{
    if s.len() > 0 && s.last() == c {
        without_trailing(s.drop_last(), c)
    } else {
        s
    }
}

/// Does `s` begin with `prefix`?
pub open spec fn begins_with(s: Seq<char>, prefix: Seq<char>) -> bool {
    prefix.len() <= s.len() && s.take(prefix.len() as int) == prefix
}

/// What follows `prefix` in `s`, if `s` begins with it.
pub open spec fn stripped(s: Seq<char>, prefix: Seq<char>) -> Option<Seq<char>> {
    if begins_with(s, prefix) {
        Some(s.skip(prefix.len() as int))
    } else {
        None
    }
}

/// The view of an optional text.
pub open spec fn text_of(s: Option<&str>) -> Option<Seq<char>> {
    match s {
        Some(s) => Some(s@),
        None => None,
    }
}

/// The view of an optional owned text.
pub open spec fn owned_text_of(s: Option<String>) -> Option<Seq<char>> {
    match s {
        Some(s) => Some(s@),
        None => None,
    }
}

/// The characters of a text.
pub fn chars_of(s: &str) -> (res: Vec<char>)
    ensures
        res@ == s@,
{
    let mut res: Vec<char> = Vec::new();
    for c in it: s.chars()
        invariant
            it.seq() == s@,
            res@ == it.seq().take(it.index() as int),
    {
        res.push(c);
    }
    res
}

/// Does this character carry the Unicode property `White_Space`?
pub fn is_whitespace(c: char) -> (res: bool)
    ensures
        res == whitespace(c),
{
    ('\u{9}' <= c && c <= '\u{d}') || c == '\u{20}' || c == '\u{85}' || c == '\u{a0}' || c
        == '\u{1680}' || ('\u{2000}' <= c && c <= '\u{200a}') || c == '\u{2028}' || c == '\u{2029}'
        || c == '\u{202f}' || c == '\u{205f}' || c == '\u{3000}'
}

proof fn lemma_trimmed_start(s: Seq<char>, from: int)
    requires
        0 <= from <= s.len(),
        forall|i: int| 0 <= i < from ==> whitespace(#[trigger] s[i]),
        from < s.len() ==> !whitespace(s[from]),
    ensures
        trimmed_start(s) == s.skip(from),
    decreases from,
{
    if from > 0 {
        let rest = s.drop_first();
        assert(forall|i: int| 0 <= i < from - 1 ==> rest[i] == s[i + 1]);
        lemma_trimmed_start(rest, from - 1);
        assert(rest.skip(from - 1) =~= s.skip(from));
    } else {
        assert(s.skip(0) =~= s);
    }
}

proof fn lemma_trimmed_end(s: Seq<char>, to: int)
    requires
        0 <= to <= s.len(),
        forall|i: int| to <= i < s.len() ==> whitespace(#[trigger] s[i]),
        to > 0 ==> !whitespace(s[to - 1]),
    ensures
        trimmed_end(s) == s.take(to),
    decreases s.len() - to,
{
    if to < s.len() {
        let rest = s.drop_last();
        lemma_trimmed_end(rest, to);
        assert(rest.take(to) =~= s.take(to));
    } else {
        assert(s.take(to) =~= s);
    }
}

/// The text without the whitespace at either end.
pub fn trim<'a>(s: &'a str) -> (res: &'a str)
    ensures
        res@ == trimmed(s@),
{
    let chars: Vec<char> = chars_of(s);
    let mut from: usize = 0;
    while from < chars.len() && is_whitespace(chars[from])
        invariant
            from <= chars.len(),
            chars@ == s@,
            forall|i: int| 0 <= i < from ==> whitespace(#[trigger] s@[i]),
        decreases chars.len() - from,
    {
        from = from + 1;
    }
    let mut to: usize = chars.len();
    while from < to && is_whitespace(chars[to - 1])
        invariant
            from <= to <= chars.len(),
            chars@ == s@,
            from < chars.len() ==> !whitespace(s@[from as int]),
            forall|i: int| to <= i < s@.len() ==> whitespace(#[trigger] s@[i]),
        decreases to,
    {
        to = to - 1;
    }
    proof {
        lemma_trimmed_start(s@, from as int);
        let rest = s@.skip(from as int);
        assert forall|i: int| to - from <= i < rest.len() implies whitespace(#[trigger] rest[i]) by {
            assert(rest[i] == s@[i + from]);
        }
        lemma_trimmed_end(rest, to - from);
        assert(rest.take(to - from) =~= s@.subrange(from as int, to as int));
    }
    s.substring_char(from, to)
}

proof fn lemma_without_trailing(s: Seq<char>, c: char, to: int)
    requires
        0 <= to <= s.len(),
        forall|i: int| to <= i < s.len() ==> #[trigger] s[i] == c,
        to > 0 ==> s[to - 1] != c,
    ensures
        without_trailing(s, c) == s.take(to),
    decreases s.len() - to,
{
    if to < s.len() {
        let rest = s.drop_last();
        lemma_without_trailing(rest, c, to);
        assert(rest.take(to) =~= s.take(to));
    } else {
        assert(s.take(to) =~= s);
    }
}

/// The text without the occurrences of `c` at its end.
pub fn trim_end_matches<'a>(s: &'a str, c: char) -> (res: &'a str)
    ensures
        res@ == without_trailing(s@, c),
{
    let chars: Vec<char> = chars_of(s);
    let mut to: usize = chars.len();
    while 0 < to && chars[to - 1] == c
        invariant
            to <= chars.len(),
            chars@ == s@,
            forall|i: int| to <= i < s@.len() ==> #[trigger] s@[i] == c,
        decreases to,
    {
        to = to - 1;
    }
    proof {
        lemma_without_trailing(s@, c, to as int);
        assert(s@.take(to as int) =~= s@.subrange(0, to as int));
    }
    s.substring_char(0, to)
}

/// Does `needle` stand in `chars` at position `at`?
pub fn occurs_at(chars: &Vec<char>, needle: &Vec<char>, at: usize) -> (res: bool)
    ensures
        res == occurs(chars@, needle@, at as int),
{
    if at > chars.len() || needle.len() > chars.len() - at {
        return false;
    }
    let mut i: usize = 0;
    while i < needle.len()
        invariant
            i <= needle.len(),
            at + needle.len() <= chars.len(),
            forall|j: int| 0 <= j < i ==> chars@[at + j] == #[trigger] needle@[j],
        decreases needle.len() - i,
    {
        if chars[at + i] != needle[i] {
            proof {
                let there = chars@.subrange(at as int, at + needle@.len());
                assert(there[i as int] == chars@[at + i]);
            }
            return false;
        }
        i = i + 1;
    }
    assert(chars@.subrange(at as int, at + needle@.len()) =~= needle@);
    true
}

/// `needle` stands in `s` at position `at`.
pub open spec fn occurs(s: Seq<char>, needle: Seq<char>, at: int) -> bool {
    0 <= at && at + needle.len() <= s.len() && s.subrange(at, at + needle.len()) == needle
}

/// What follows `prefix` in `s`, if `s` begins with it.
pub fn strip_prefix<'a>(s: &'a str, prefix: &str) -> (res: Option<&'a str>)
    ensures
        text_of(res) == stripped(s@, prefix@),
{
    let chars: Vec<char> = chars_of(s);
    let head: Vec<char> = chars_of(prefix);
    if occurs_at(&chars, &head, 0) {
        proof {
            assert(s@.subrange(0, prefix@.len() as int) =~= s@.take(prefix@.len() as int));
            assert(s@.subrange(prefix@.len() as int, s@.len() as int) =~= s@.skip(
                prefix@.len() as int,
            ));
        }
        Some(s.substring_char(head.len(), chars.len()))
    } else {
        proof {
            if begins_with(s@, prefix@) {
                assert(s@.subrange(0, prefix@.len() as int) =~= s@.take(prefix@.len() as int));
            }
        }
        None
    }
}

/// Are the two texts the same?
pub fn same_text(a: &str, b: &str) -> (res: bool)
    ensures
        res == (a@ == b@),
{
    a.to_string() == b.to_string()
}

/// `needle` stands somewhere in `s`.
pub open spec fn contains_text(s: Seq<char>, needle: Seq<char>) -> bool {
    exists|at: int| #[trigger] occurs(s, needle, at)
}

/// Does `needle` stand somewhere in `s`?
pub fn contains(s: &str, needle: &str) -> (res: bool)
    ensures
        res == contains_text(s@, needle@),
{
    let chars: Vec<char> = chars_of(s);
    let sought: Vec<char> = chars_of(needle);
    let mut at: usize = 0;
    while at < chars.len()
        invariant
            at <= chars.len(),
            chars@ == s@,
            sought@ == needle@,
            forall|i: int| 0 <= i < at ==> !#[trigger] occurs(s@, needle@, i),
        decreases chars.len() - at,
    {
        if occurs_at(&chars, &sought, at) {
            return true;
        }
        at = at + 1;
    }
    occurs_at(&chars, &sought, at)
}

/// The lower-case form of an ASCII capital; every other character unchanged.
pub open spec fn ascii_lower(c: char) -> char {
    if 'A' <= c <= 'Z' {
        (c as u32 + 32) as char
    } else {
        c
    }
}

/// `s` with its ASCII capitals in lower case.
pub open spec fn ascii_lowercase(s: Seq<char>) -> Seq<char> {
    s.map_values(|c: char| ascii_lower(c))
}

/// The two texts differ at most in the case of ASCII letters.
pub open spec fn same_ignoring_case(a: Seq<char>, b: Seq<char>) -> bool {
    ascii_lowercase(a) == ascii_lowercase(b)
}

/// The code point of [`ascii_lower`] of `c`.
fn folded(c: char) -> (res: u32)
    ensures
        res == ascii_lower(c) as u32,
{
    let code: u32 = c as u32;
    if 'A' <= c && c <= 'Z' {
        code + 32
    } else {
        code
    }
}

/// Do the two texts differ at most in the case of ASCII letters?
pub fn eq_ignore_ascii_case(a: &str, b: &str) -> (res: bool)
    ensures
        res == same_ignoring_case(a@, b@),
{
    let x: Vec<char> = chars_of(a);
    let y: Vec<char> = chars_of(b);
    if x.len() != y.len() {
        assert(ascii_lowercase(a@).len() != ascii_lowercase(b@).len());
        return false;
    }
    let mut i: usize = 0;
    while i < x.len()
        invariant
            i <= x.len(),
            x@ == a@,
            y@ == b@,
            x@.len() == y@.len(),
            forall|j: int|
                0 <= j < i ==> #[trigger] ascii_lowercase(a@)[j] == ascii_lowercase(b@)[j],
        decreases x.len() - i,
    {
        if folded(x[i]) != folded(y[i]) {
            assert(ascii_lowercase(a@)[i as int] != ascii_lowercase(b@)[i as int]);
            return false;
        }
        i = i + 1;
    }
    assert(ascii_lowercase(a@) =~= ascii_lowercase(b@));
    true
}

/// What [`str::to_lowercase`] makes of a text: every character replaced by its
/// lower-case mapping in Unicode.
pub uninterp spec fn lowercase(s: Seq<char>) -> Seq<char>;

/// Calls [`str::to_lowercase`]. Trusted: the result depends on the text alone,
/// and the ASCII capitals of a text made of ASCII characters come out as the
/// corresponding small letters, with nothing else changed. What becomes of
/// other characters is left to the name [`lowercase`].
#[verifier::external_body]
pub(crate) fn to_lowercase(s: &str) -> (res: String)
    ensures
        res@ == lowercase(s@),
        vstd::utf8::is_ascii_chars(s@) ==> res@ == ascii_lowercase(s@),
{
    s.to_lowercase()
}

/// Calls [`str::to_ascii_lowercase`]. Trusted: the ASCII capitals come out as the
/// corresponding small letters, and every other character as it is.
#[verifier::external_body]
pub(crate) fn to_ascii_lowercase(s: &str) -> (res: String)
    ensures
        res@ == ascii_lowercase(s@),
{
    s.to_ascii_lowercase()
}

/// `a` comes before `b` or is equal to it, in the order of code points.
pub open spec fn text_le(a: Seq<char>, b: Seq<char>) -> bool
    decreases a.len(),
{
    if a.len() == 0 {
        true
    } else if b.len() == 0 {
        false
    } else if a[0] != b[0] {
        a[0] < b[0]
    } else {
        text_le(a.drop_first(), b.drop_first())
    }
}

/// Does `a` come before `b`, or is it equal to it, in the order of code points?
pub fn at_most(a: &str, b: &str) -> (res: bool)
    ensures
        res == text_le(a@, b@),
{
    let x: Vec<char> = chars_of(a);
    let y: Vec<char> = chars_of(b);
    let mut i: usize = 0;
    assert(a@.skip(0) =~= a@);
    assert(b@.skip(0) =~= b@);
    while i < x.len() && i < y.len()
        invariant
            i <= x.len(),
            i <= y.len(),
            x@ == a@,
            y@ == b@,
            text_le(a@, b@) == text_le(a@.skip(i as int), b@.skip(i as int)),
        decreases x.len() - i,
    {
        if x[i] != y[i] {
            return x[i] < y[i];
        }
        assert(a@.skip(i as int).drop_first() =~= a@.skip(i + 1));
        assert(b@.skip(i as int).drop_first() =~= b@.skip(i + 1));
        i = i + 1;
    }
    i >= x.len()
}

/// The order of code points is total.
pub proof fn text_le_total(a: Seq<char>, b: Seq<char>)
    ensures
        text_le(a, b) || text_le(b, a),
    decreases a.len(),
{
    if a.len() > 0 && b.len() > 0 && a[0] == b[0] {
        text_le_total(a.drop_first(), b.drop_first());
    }
}

/// The order of code points is transitive.
pub proof fn text_le_transitive(a: Seq<char>, b: Seq<char>, c: Seq<char>)
    requires
        text_le(a, b),
        text_le(b, c),
    ensures
        text_le(a, c),
    decreases a.len(),
{
    if a.len() > 0 && b.len() > 0 && c.len() > 0 && a[0] == b[0] && b[0] == c[0] {
        text_le_transitive(a.drop_first(), b.drop_first(), c.drop_first());
    }
}

/// The decimal digit that stands for `d`.
pub open spec fn digit(d: nat) -> char {
    (48 + d) as char
}

/// The decimal numeral of `n`, without leading zeros.
pub open spec fn numeral(n: nat) -> Seq<char>
    decreases n,
{
    if n < 10 {
        seq![digit(n)]
    } else {
        numeral(n / 10).push(digit(n % 10))
    }
}

fn digit_text(d: u128) -> (res: &'static str)
    requires
        d < 10,
    ensures
        res@ == seq![digit(d as nat)],
{
    proof {
        reveal_strlit("0");
        reveal_strlit("1");
        reveal_strlit("2");
        reveal_strlit("3");
        reveal_strlit("4");
        reveal_strlit("5");
        reveal_strlit("6");
        reveal_strlit("7");
        reveal_strlit("8");
        reveal_strlit("9");
    }
    let res: &'static str = match d {
        0 => "0",
        1 => "1",
        2 => "2",
        3 => "3",
        4 => "4",
        5 => "5",
        6 => "6",
        7 => "7",
        8 => "8",
        _ => "9",
    };
    assert(res@ =~= seq![digit(d as nat)]);
    res
}

/// The decimal numeral of `n`.
pub fn decimal(n: u128) -> (res: String)
    ensures
        res@ == numeral(n as nat),
    decreases n,
{
    if n < 10 {
        digit_text(n).to_string()
    } else {
        let mut res: String = decimal(n / 10);
        res.append(digit_text(n % 10));
        assert(res@ =~= numeral(n as nat));
        res
    }
}

/// How many characters of `s` stand before the first `c`; all of them if there
/// is none.
pub open spec fn before_first(s: Seq<char>, c: char) -> nat
    decreases s.len(),
{
    if s.len() == 0 || s[0] == c {
        0
    } else {
        1 + before_first(s.drop_first(), c)
    }
}

/// The pieces of `s` between the occurrences of `c`.
pub open spec fn split(s: Seq<char>, c: char) -> Seq<Seq<char>>
    decreases s.len(),
{
    let n = before_first(s, c) as int;
    if n < s.len() {
        seq![s.take(n)] + split(s.skip(n + 1), c)
    } else {
        seq![s]
    }
}

/// [`before_first`] in terms of the positions of `c`.
pub proof fn lemma_before_first(s: Seq<char>, c: char, n: int)
    requires
        0 <= n <= s.len(),
        forall|i: int| 0 <= i < n ==> #[trigger] s[i] != c,
        n < s.len() ==> s[n] == c,
    ensures
        before_first(s, c) == n,
    decreases n,
{
    if n > 0 {
        let rest = s.drop_first();
        assert(forall|i: int| 0 <= i < n - 1 ==> rest[i] == s[i + 1]);
        lemma_before_first(rest, c, n - 1);
    }
}

/// Trimming takes off whitespace alone, and all of it: what is left is a middle
/// part of the text with nothing but whitespace around it, and whitespace at
/// neither of its ends.
pub proof fn trimming_takes_off_whitespace_only(s: Seq<char>)
    ensures
        exists|from: int, to: int|
            {
                &&& 0 <= from <= to <= s.len()
                &&& trimmed(s) == #[trigger] s.subrange(from, to)
                &&& forall|i: int| 0 <= i < from ==> whitespace(#[trigger] s[i])
                &&& forall|i: int| to <= i < s.len() ==> whitespace(#[trigger] s[i])
            },
        trimmed(s).len() > 0 ==> !whitespace(trimmed(s)[0]) && !whitespace(trimmed(s).last()),
{
    let from = lemma_trim_from(s);
    lemma_trimmed_start(s, from);
    let rest = s.skip(from);
    let end = lemma_trim_to(rest);
    lemma_trimmed_end(rest, end);
    let to = from + end;
    assert(rest.take(end) =~= s.subrange(from, to));
    assert forall|i: int| to <= i < s.len() implies whitespace(#[trigger] s[i]) by {
        assert(rest[i - from] == s[i]);
    }
    if end > 0 {
        assert(rest[0] == s[from]);
    }
}

proof fn lemma_trim_from(s: Seq<char>) -> (from: int)
    ensures
        0 <= from <= s.len(),
        forall|i: int| 0 <= i < from ==> whitespace(#[trigger] s[i]),
        from < s.len() ==> !whitespace(s[from]),
    decreases s.len(),
{
    if s.len() > 0 && whitespace(s[0]) {
        let rest = s.drop_first();
        let from = lemma_trim_from(rest);
        assert forall|i: int| 0 <= i < from + 1 implies whitespace(#[trigger] s[i]) by {
            if i > 0 {
                assert(rest[i - 1] == s[i]);
            }
        }
        from + 1
    } else {
        0
    }
}

proof fn lemma_trim_to(s: Seq<char>) -> (to: int)
    ensures
        0 <= to <= s.len(),
        forall|i: int| to <= i < s.len() ==> whitespace(#[trigger] s[i]),
        to > 0 ==> !whitespace(s[to - 1]),
    decreases s.len(),
{
    if s.len() > 0 && whitespace(s.last()) {
        let rest = s.drop_last();
        let to = lemma_trim_to(rest);
        assert forall|i: int| to <= i < s.len() implies whitespace(#[trigger] s[i]) by {
            if i < rest.len() {
                assert(rest[i] == s[i]);
            }
        }
        to
    } else {
        s.len() as int
    }
}

/// Whitespace around a text that has none at its ends comes off, and nothing
/// else.
pub proof fn trimming_finds_the_core(before: Seq<char>, core: Seq<char>, after: Seq<char>)
    requires
        forall|i: int| 0 <= i < before.len() ==> whitespace(#[trigger] before[i]),
        forall|i: int| 0 <= i < after.len() ==> whitespace(#[trigger] after[i]),
        core.len() > 0 ==> !whitespace(core[0]) && !whitespace(core.last()),
        core.len() == 0 ==> before.len() == 0,
    ensures
        trimmed(before + core + after) == core,
{
    let s = before + core + after;
    if core.len() == 0 {
        assert forall|i: int| 0 <= i < s.len() implies whitespace(#[trigger] s[i]) by {
            assert(s[i] == after[i]);
        }
        lemma_trimmed_start(s, s.len() as int);
        assert(s.skip(s.len() as int) =~= core);
        assert(trimmed_end(core) == core);
    } else {
        let n = before.len() as int;
        assert(forall|i: int| 0 <= i < n ==> s[i] == before[i]);
        assert(s[n] == core[0]);
        lemma_trimmed_start(s, n);
        let rest = s.skip(n);
        assert(rest =~= core + after);
        assert forall|i: int| core.len() <= i < rest.len() implies whitespace(#[trigger] rest[i]) by {
            assert(rest[i] == after[i - core.len()]);
        }
        assert(rest[core.len() - 1] == core.last());
        lemma_trimmed_end(rest, core.len() as int);
        assert(rest.take(core.len() as int) =~= core);
    }
}

/// Occurrences of a character at the end come off, and nothing else.
pub proof fn trailing_characters_come_off(s: Seq<char>, c: char, n: nat)
    requires
        s.len() > 0 ==> s.last() != c,
    ensures
        without_trailing(s + Seq::new(n, |i: int| c), c) == s,
{
    let whole = s + Seq::new(n, |i: int| c);
    assert(forall|i: int| s.len() <= i < whole.len() ==> whole[i] == c);
    assert(s.len() > 0 ==> whole[s.len() - 1] == s.last());
    lemma_without_trailing(whole, c, s.len() as int);
    assert(whole.take(s.len() as int) =~= s);
}

/// What is stripped of its prefix is the text behind it: prefix and rest make up
/// the text again, and a text that is no such sum has nothing to strip.
pub proof fn stripping_undoes_prepending(s: Seq<char>, prefix: Seq<char>, rest: Seq<char>)
    ensures
        stripped(s, prefix) == Some(rest) <==> s == prefix + rest,
        stripped(s, prefix) is Some <==> begins_with(s, prefix),
{
    let n = prefix.len() as int;
    if s == prefix + rest {
        assert(s.take(n) =~= prefix);
        assert(s.skip(n) =~= rest);
    }
    if stripped(s, prefix) == Some(rest) {
        assert(s =~= s.take(n) + s.skip(n));
    }
}

/// A text stands in another one exactly where the other is made up of something,
/// the text, and something.
pub proof fn containing_is_being_around(s: Seq<char>, needle: Seq<char>)
    ensures
        contains_text(s, needle) <==> exists|before: Seq<char>, after: Seq<char>| s == #[trigger] (
        before + needle + after),
{
    if contains_text(s, needle) {
        let at = choose|at: int| #[trigger] occurs(s, needle, at);
        let before = s.take(at);
        let after = s.skip(at + needle.len());
        assert(s.subrange(at, at + needle.len()) == needle);
        assert(s =~= before + needle + after);
    }
    if exists|before: Seq<char>, after: Seq<char>| s == #[trigger] (before + needle + after) {
        let (before, after) = choose|before: Seq<char>, after: Seq<char>| s == #[trigger] (before
            + needle + after);
        let at = before.len() as int;
        assert(s.subrange(at, at + needle.len()) =~= needle);
        assert(occurs(s, needle, at));
    }
}

/// The same character, or the capital and the small form of an ASCII letter.
pub open spec fn case_pair(a: char, b: char) -> bool {
    ||| a == b
    ||| 'A' <= a <= 'Z' && b as int == a as int + 32
    ||| 'A' <= b <= 'Z' && a as int == b as int + 32
}

/// Two texts are the same but for case exactly if they are as long as each other
/// and agree in every place up to the case of an ASCII letter.
pub proof fn same_but_for_case_is_per_character(a: Seq<char>, b: Seq<char>)
    ensures
        same_ignoring_case(a, b) <==> a.len() == b.len() && forall|i: int|
            0 <= i < a.len() ==> case_pair(#[trigger] a[i], b[i]),
        ascii_lowercase(a) == ascii_lowercase(b) <==> same_ignoring_case(a, b),
        same_ignoring_case(a, ascii_lowercase(a)),
        forall|i: int|
            0 <= i < a.len() ==> !('A' <= #[trigger] ascii_lowercase(a)[i] <= 'Z'),
{
    let x = ascii_lowercase(a);
    let y = ascii_lowercase(b);
    assert(forall|i: int| 0 <= i < a.len() ==> x[i] == ascii_lower(a[i]));
    assert(forall|i: int| 0 <= i < b.len() ==> y[i] == ascii_lower(b[i]));
    if a.len() == b.len() && forall|i: int| 0 <= i < a.len() ==> case_pair(#[trigger] a[i], b[i]) {
        assert forall|i: int| 0 <= i < x.len() implies x[i] == y[i] by {
            assert(case_pair(a[i], b[i]));
        }
        assert(x =~= y);
    }
    if x == y {
        assert(x.len() == a.len() && y.len() == b.len());
        assert forall|i: int| 0 <= i < a.len() implies case_pair(#[trigger] a[i], b[i]) by {
            assert(x[i] == y[i]);
        }
    }
    assert(ascii_lowercase(x) =~= x);
}

/// Texts are ordered by the first place in which they differ, and a text comes
/// before what continues it.
pub proof fn order_is_by_first_difference(common: Seq<char>, x: Seq<char>, y: Seq<char>)
    ensures
        text_le(common, common + x),
        x.len() > 0 ==> !text_le(common + x, common),
        x.len() > 0 && y.len() > 0 && x[0] < y[0] ==> text_le(common + x, common + y) && !text_le(
            common + y,
            common + x,
        ),
    decreases common.len(),
{
    if common.len() == 0 {
        assert(common + x =~= x);
        assert(common + y =~= y);
    } else {
        let rest = common.drop_first();
        order_is_by_first_difference(rest, x, y);
        assert((common + x).drop_first() =~= rest + x);
        assert((common + y).drop_first() =~= rest + y);
        assert((common + x)[0] == common[0] && (common + y)[0] == common[0]);
    }
}

/// A numeral is read from left to right: a digit behind the numeral of `n` makes
/// it ten times as much, and the digit.
pub proof fn numeral_is_positional(n: nat, d: nat)
    requires
        d < 10,
    ensures
        numeral(d) == seq![('0' as int + d) as char],
        n > 0 ==> numeral((10 * n + d) as nat) == numeral(n).push(('0' as int + d) as char),
{
    if n > 0 {
        assert((10 * n + d) / 10 == n);
        assert((10 * n + d) % 10 == d);
    }
}

/// Splitting cuts at every occurrence of the character, and nowhere else.
pub proof fn split_cuts_at_every_occurrence(piece: Seq<char>, rest: Seq<char>, c: char)
    requires
        forall|i: int| 0 <= i < piece.len() ==> #[trigger] piece[i] != c,
    ensures
        split(piece, c) == seq![piece],
        split(piece + seq![c] + rest, c) == seq![piece] + split(rest, c),
{
    lemma_before_first(piece, c, piece.len() as int);
    let whole = piece + seq![c] + rest;
    let n = piece.len() as int;
    assert(forall|i: int| 0 <= i < n ==> whole[i] == piece[i]);
    assert(whole[n] == c);
    lemma_before_first(whole, c, n);
    assert(whole.take(n) =~= piece);
    assert(whole.skip(n + 1) =~= rest);
}

/// An optional text is seen as that text.
pub proof fn optional_texts_are_seen_as_they_are(s: &str, owned: String)
    ensures
        text_of(Some(s)) == Some(s@),
        text_of(None) is None,
        owned_text_of(Some(owned)) == Some(owned@),
        owned_text_of(None) is None,
{
}

/// Among ASCII characters, the space and the controls from tab to carriage return
/// are whitespace, and nothing that can be seen is.
pub proof fn ascii_whitespace_is_blank(c: char)
    requires
        c <= '\u{7f}',
    ensures
        whitespace(c) <==> c == ' ' || '\t' <= c <= '\r',
        '!' <= c <= '~' ==> !whitespace(c),
{
}

} // verus!
