//! Text as sequences of characters: the cutting, searching and joining that
//! the rest of the library is written in.

use vstd::prelude::*;

verus! {

/// What `String::push` does: the character goes to the end of the text.
pub assume_specification[ String::push ](text: &mut String, c: char)
    ensures
        final(text)@ == old(text)@.push(c),
;

/// The Unicode `White_Space` characters.
pub open spec fn is_space(c: char) -> bool {
    ||| '\u{9}' <= c && c <= '\u{d}'
    ||| c == ' '
    ||| c == '\u{85}'
    ||| c == '\u{a0}'
    ||| c == '\u{1680}'
    ||| '\u{2000}' <= c && c <= '\u{200a}'
    ||| c == '\u{2028}'
    ||| c == '\u{2029}'
    ||| c == '\u{202f}'
    ||| c == '\u{205f}'
    ||| c == '\u{3000}'
}

/// `0` to `9`.
pub open spec fn is_digit(c: char) -> bool {
    '0' <= c && c <= '9'
}

/// Nothing but decimal digits.
pub open spec fn all_digits(s: Seq<char>) -> bool {
    forall|i: int| 0 <= i < s.len() ==> is_digit(#[trigger] s[i])
}

/// An ASCII letter.
pub open spec fn is_letter(c: char) -> bool {
    ||| 'a' <= c && c <= 'z'
    ||| 'A' <= c && c <= 'Z'
}

/// A hexadecimal digit of either case.
pub open spec fn is_hex(c: char) -> bool {
    ||| is_digit(c)
    ||| 'a' <= c && c <= 'f'
    ||| 'A' <= c && c <= 'F'
}

/// The text without its leading white space.
pub open spec fn trim_start(s: Seq<char>) -> Seq<char>
    decreases s.len(),
{
    if s.len() > 0 && is_space(s[0]) {
        trim_start(s.drop_first())
    } else {
        s
    }
}

/// The text without its trailing white space.
pub open spec fn trim_end(s: Seq<char>) -> Seq<char>
    decreases s.len(),
{
    if s.len() > 0 && is_space(s.last()) {
        trim_end(s.drop_last())
    } else {
        s
    }
}

/// The text without the white space around it.
pub open spec fn trim(s: Seq<char>) -> Seq<char> {
    trim_end(trim_start(s))
}

/// The text without the marks at its end.
pub open spec fn trim_last(s: Seq<char>, c: char) -> Seq<char>
    decreases s.len(),
{
    if s.len() > 0 && s.last() == c {
        trim_last(s.drop_last(), c)
    } else {
        s
    }
}

/// Nothing but white space, or nothing at all.
pub open spec fn is_blank(s: Seq<char>) -> bool {
    forall|i: int| 0 <= i < s.len() ==> is_space(#[trigger] s[i])
}

/// The place of the first `c` at or after `from`; the length where there is none.
pub open spec fn find_from(s: Seq<char>, c: char, from: int) -> int
    decreases s.len() - from,
{
    if 0 <= from < s.len() && s[from] != c {
        find_from(s, c, from + 1)
    } else {
        from
    }
}

/// The place of the first `c`; the length where there is none.
pub open spec fn find(s: Seq<char>, c: char) -> int {
    find_from(s, c, 0)
}

/// Cuts the text at its first `c`, which belongs to neither part.
pub open spec fn split_once(s: Seq<char>, c: char) -> Option<(Seq<char>, Seq<char>)> {
    let at = find(s, c);
    if at < s.len() {
        Some((s.take(at), s.skip(at + 1)))
    } else {
        None
    }
}

/// The pieces of the text between one `c` and the next.
pub open spec fn split(s: Seq<char>, c: char) -> Seq<Seq<char>>
    decreases s.len(),
    via split_decreases
{
    let at = find(s, c);
    if at < s.len() {
        seq![s.take(at)] + split(s.skip(at + 1), c)
    } else {
        seq![s]
    }
}

#[via_fn]
proof fn split_decreases(s: Seq<char>, c: char) {
    lemma_find_from(s, c, 0);
}

/// The place of the last `c` before `to`; minus one where there is none.
pub open spec fn find_last_before(s: Seq<char>, c: char, to: int) -> int
    decreases to,
{
    if 0 < to <= s.len() && s[to - 1] != c {
        find_last_before(s, c, to - 1)
    } else {
        to - 1
    }
}

/// Cuts the text at its last `c`, which belongs to neither part.
pub open spec fn split_last(s: Seq<char>, c: char) -> Option<(Seq<char>, Seq<char>)> {
    let at = find_last_before(s, c, s.len() as int);
    if 0 <= at {
        Some((s.take(at), s.skip(at + 1)))
    } else {
        None
    }
}

/// The text cut behind every line feed; what follows the last one is a piece of
/// its own unless it is empty.
pub open spec fn raw_lines(s: Seq<char>) -> Seq<Seq<char>>
    decreases s.len(),
    via raw_lines_decreases
{
    let at = find(s, '\n');
    if at < s.len() {
        seq![s.take(at + 1)] + raw_lines(s.skip(at + 1))
    } else if s.len() > 0 {
        seq![s]
    } else {
        Seq::empty()
    }
}

#[via_fn]
proof fn raw_lines_decreases(s: Seq<char>) {
    lemma_find_from(s, '\n', 0);
}

/// A piece of `raw_lines` without its line ending: a line feed, and the carriage
/// return that stands before one.
pub open spec fn line_body(raw: Seq<char>) -> Seq<char> {
    if raw.len() > 0 && raw.last() == '\n' {
        let cut = raw.drop_last();
        if cut.len() > 0 && cut.last() == '\r' {
            cut.drop_last()
        } else {
            cut
        }
    } else {
        raw
    }
}

/// The line ending of a piece of `raw_lines`.
pub open spec fn line_end(raw: Seq<char>) -> Seq<char> {
    raw.skip(line_body(raw).len() as int)
}

/// The lines of the text, without their line endings.
pub open spec fn lines(s: Seq<char>) -> Seq<Seq<char>> {
    raw_lines(s).map_values(|raw: Seq<char>| line_body(raw))
}

/// The values that a sequence of values stands for.
pub open spec fn views<T: View>(items: Seq<T>) -> Seq<T::V> {
    items.map_values(|item: T| item@)
}

/// What a value that may be missing stands for.
pub open spec fn option_view<T: View>(item: Option<T>) -> Option<T::V> {
    match item {
        Some(value) => Some(value@),
        None => None,
    }
}

/// The elements joined into one text, `separator` between one and the next.
pub open spec fn join(parts: Seq<Seq<char>>, separator: Seq<char>) -> Seq<char>
    decreases parts.len(),
{
    if parts.len() == 0 {
        Seq::empty()
    } else if parts.len() == 1 {
        parts[0]
    } else {
        join(parts.drop_last(), separator) + separator + parts.last()
    }
}

/// The texts put one behind the other.
pub open spec fn concat(parts: Seq<Seq<char>>) -> Seq<char>
    decreases parts.len(),
{
    if parts.len() == 0 {
        Seq::empty()
    } else {
        concat(parts.drop_last()) + parts.last()
    }
}

/// `needle` stands in the text at place `at`.
pub open spec fn occurs_at(s: Seq<char>, needle: Seq<char>, at: int) -> bool {
    &&& 0 <= at
    &&& at + needle.len() <= s.len()
    &&& s.subrange(at, at + needle.len()) == needle
}

/// `needle` stands somewhere in the text.
pub open spec fn contains_text(s: Seq<char>, needle: Seq<char>) -> bool {
    exists|at: int| #[trigger] occurs_at(s, needle, at)
}

/// The text begins with `prefix`.
pub open spec fn starts_with(s: Seq<char>, prefix: Seq<char>) -> bool {
    occurs_at(s, prefix, 0)
}

/// The text ends with `suffix`.
pub open spec fn ends_with(s: Seq<char>, suffix: Seq<char>) -> bool {
    occurs_at(s, suffix, s.len() - suffix.len())
}

/// The ASCII capitals made small; every other character as it is.
pub open spec fn lower(c: char) -> char {
    if 'A' <= c && c <= 'Z' {
        ((c as u8 + 32) as u8) as char
    } else {
        c
    }
}

/// The text with its ASCII capitals made small.
pub open spec fn lowercase(s: Seq<char>) -> Seq<char> {
    s.map_values(|c: char| lower(c))
}

/// The text with every `from` replaced by `to`.
pub open spec fn replace_char(s: Seq<char>, from: char, to: char) -> Seq<char> {
    s.map_values(
        |c: char|
            if c == from {
                to
            } else {
                c
            },
    )
}

/// The text with every `from` replaced by `to`: what was replaced is not looked
/// at again, and the search goes from left to right.
pub open spec fn replace_text(s: Seq<char>, from: Seq<char>, to: Seq<char>) -> Seq<char>
    decreases s.len(),
{
    if from.len() == 0 || s.len() == 0 {
        s
    } else if occurs_at(s, from, 0) {
        to + replace_text(s.skip(from.len() as int), from, to)
    } else {
        seq![s[0]] + replace_text(s.skip(1), from, to)
    }
}

/// The decimal digits of a number, without leading zeros.
pub open spec fn decimal(n: nat) -> Seq<char>
    decreases n,
{
    if n < 10 {
        seq![digit(n)]
    } else {
        decimal(n / 10).push(digit(n % 10))
    }
}

/// The character of a number below ten.
pub open spec fn digit(n: nat) -> char {
    (('0' as u8 + n) as u8) as char
}

/// The number below ten that a decimal digit writes.
pub open spec fn digit_value(c: char) -> nat {
    if is_digit(c) {
        (c as int - '0' as int) as nat
    } else {
        0
    }
}

/// The number that a sequence of decimal digits writes.
pub open spec fn digits_value(s: Seq<char>) -> nat
    decreases s.len(),
{
    if s.len() == 0 {
        0
    } else {
        digits_value(s.drop_last()) * 10 + digit_value(s.last())
    }
}

/// The one text comes before the other, character by character.
pub open spec fn text_before(a: Seq<char>, b: Seq<char>) -> bool
    decreases a.len(),
{
    if b.len() == 0 {
        false
    } else if a.len() == 0 {
        true
    } else if a[0] != b[0] {
        a[0] < b[0]
    } else {
        text_before(a.skip(1), b.skip(1))
    }
}

/// The unsigned number below 2^64 that the text writes: decimal digits, at least
/// one of them, with at most one `+` in front.
pub open spec fn number(s: Seq<char>) -> Option<u64> {
    let digits = if s.len() > 0 && s[0] == '+' {
        s.skip(1)
    } else {
        s
    };
    if digits.len() > 0 && all_digits(digits) && digits_value(digits) <= u64::MAX {
        Some(digits_value(digits) as u64)
    } else {
        None
    }
}

// ---------------------------------------------------------------------------
// Facts
// ---------------------------------------------------------------------------
/// `find_from` stays in range, passes over no `c`, and stops at one or at the end.
pub proof fn lemma_find_from(s: Seq<char>, c: char, from: int)
    requires
        0 <= from <= s.len(),
    ensures
        from <= find_from(s, c, from) <= s.len(),
        find_from(s, c, from) < s.len() ==> s[find_from(s, c, from)] == c,
        forall|i: int| from <= i < find_from(s, c, from) ==> s[i] != c,
    decreases s.len() - from,
{
    if from < s.len() && s[from] != c {
        lemma_find_from(s, c, from + 1);
    }
}

/// A place before which there is no `c`, and which is one or the end, is `find`.
pub proof fn lemma_find_is(s: Seq<char>, c: char, from: int, at: int)
    requires
        0 <= from <= at <= s.len(),
        forall|i: int| from <= i < at ==> s[i] != c,
        at < s.len() ==> s[at] == c,
    ensures
        find_from(s, c, from) == at,
    decreases at - from,
{
    if from < at {
        lemma_find_is(s, c, from + 1, at);
    }
}

/// Finding in what is left of a text is finding in the text.
pub proof fn lemma_find_skip(s: Seq<char>, c: char, start: int, from: int)
    requires
        0 <= start <= from <= s.len(),
    ensures
        find_from(s.skip(start), c, from - start) + start == find_from(s, c, from),
    decreases s.len() - from,
{
    if from < s.len() {
        assert(s.skip(start)[from - start] == s[from]);
        if s[from] != c {
            lemma_find_skip(s, c, start, from + 1);
        }
    }
}

/// More digits never write a smaller number.
proof fn lemma_digits_value_grows(s: Seq<char>, to: int)
    requires
        0 <= to <= s.len(),
    ensures
        digits_value(s.take(to)) <= digits_value(s),
    decreases s.len() - to,
{
    if to < s.len() {
        let shorter = s.drop_last();
        assert(shorter.take(to) == s.take(to));
        lemma_digits_value_grows(shorter, to);
    } else {
        assert(s.take(to) == s);
    }
}

/// Trimming cuts a piece out of the text and leaves no white space at its ends.
pub proof fn lemma_trim_start(s: Seq<char>)
    ensures
        trim_start(s).len() <= s.len(),
        trim_start(s) == s.skip(s.len() - trim_start(s).len()),
        trim_start(s).len() > 0 ==> !is_space(trim_start(s)[0]),
        forall|i: int| 0 <= i < s.len() - trim_start(s).len() ==> is_space(#[trigger] s[i]),
    decreases s.len(),
{
    if s.len() > 0 && is_space(s[0]) {
        lemma_trim_start(s.drop_first());
        let n = trim_start(s).len();
        assert(s.drop_first().skip(s.len() - 1 - n) =~= s.skip(s.len() - n));
        assert forall|i: int| 0 <= i < s.len() - n implies is_space(#[trigger] s[i]) by {
            if i > 0 {
                assert(s.drop_first()[i - 1] == s[i]);
            }
        }
    } else {
        assert(s.skip(0) =~= s);
    }
}

/// The same at the end of the text.
pub proof fn lemma_trim_end(s: Seq<char>)
    ensures
        trim_end(s).len() <= s.len(),
        trim_end(s) == s.take(trim_end(s).len() as int),
        trim_end(s).len() > 0 ==> !is_space(trim_end(s).last()),
        forall|i: int| trim_end(s).len() <= i < s.len() ==> is_space(#[trigger] s[i]),
    decreases s.len(),
{
    if s.len() > 0 && is_space(s.last()) {
        lemma_trim_end(s.drop_last());
        let n = trim_end(s).len();
        assert(s.drop_last().take(n as int) =~= s.take(n as int));
        assert forall|i: int| n <= i < s.len() implies is_space(#[trigger] s[i]) by {
            if i < s.len() - 1 {
                assert(s.drop_last()[i] == s[i]);
            }
        }
    } else {
        assert(s.take(s.len() as int) =~= s);
    }
}

/// A trimmed text is empty exactly where the text is blank.
pub proof fn lemma_trim_empty(s: Seq<char>)
    ensures
        (trim(s).len() == 0) == is_blank(s),
{
    lemma_trim_start(s);
    lemma_trim_end(trim_start(s));
    let t = trim_start(s);
    if t.len() > 0 {
        assert(s[s.len() - t.len()] == t[0]);
        if trim_end(t).len() == 0 {
            assert(is_space(t[0]));
        }
    }
}

/// Text with no white space at either end is left as it is by trimming.
pub proof fn lemma_trim_same(s: Seq<char>)
    requires
        s.len() > 0 ==> !is_space(s[0]) && !is_space(s.last()),
    ensures
        trim(s) == s,
{
}

/// One text more goes to the end.
pub proof fn lemma_concat_push(parts: Seq<Seq<char>>, part: Seq<char>)
    ensures
        concat(parts.push(part)) == concat(parts) + part,
{
    assert(parts.push(part).drop_last() == parts);
}

/// The first text stands in front.
pub proof fn lemma_concat_first(parts: Seq<Seq<char>>)
    requires
        parts.len() > 0,
    ensures
        concat(parts) == parts[0] + concat(parts.drop_first()),
    decreases parts.len(),
{
    if parts.len() == 1 {
        assert(parts.drop_last() == Seq::<Seq<char>>::empty());
        assert(parts.drop_first() == Seq::<Seq<char>>::empty());
        assert(concat(parts) == parts[0] + concat(parts.drop_first()));
    } else {
        lemma_concat_first(parts.drop_last());
        assert(parts.drop_last().drop_first() == parts.drop_first().drop_last());
        assert(concat(parts) == parts[0] + concat(parts.drop_first()));
    }
}

// ---------------------------------------------------------------------------
// Functions
// ---------------------------------------------------------------------------
/// Whether the two texts are the same.
pub fn same(left: &str, right: &str) -> (result: bool)
    ensures
        result == (left@ == right@),
{
    let a = left.to_owned();
    let b = right.to_owned();
    a == b
}

/// The characters of a text, in order.
pub fn characters(text: &str) -> (result: Vec<char>)
    ensures
        result@ == text@,
{
    let mut result: Vec<char> = Vec::new();
    for c in it: text.chars()
        invariant
            it.seq() == text@,
            result@ == text@.take(it.index() as int),
    {
        result.push(c);
    }
    assert(text@.take(text@.len() as int) == text@);
    result
}

/// The text of the characters from `from` up to `to`.
pub fn text_between(chars: &Vec<char>, from: usize, to: usize) -> (result: String)
    requires
        from <= to <= chars.len(),
    ensures
        result@ == chars@.subrange(from as int, to as int),
{
    let mut result = String::new();
    let mut i: usize = from;
    while i < to
        invariant
            from <= i <= to <= chars.len(),
            result@ == chars@.subrange(from as int, i as int),
        decreases to - i,
    {
        result.push(chars[i]);
        i = i + 1;
    }
    result
}

/// `left` and `right` as one text.
pub fn join_two(left: &str, right: &str) -> (result: String)
    ensures
        result@ == left@ + right@,
{
    let mut result = left.to_owned();
    result.append(right);
    result
}

/// Three texts as one.
pub fn join_three(a: &str, b: &str, c: &str) -> (result: String)
    ensures
        result@ == a@ + b@ + c@,
{
    let mut result = join_two(a, b);
    result.append(c);
    result
}

/// Four texts as one.
pub fn join_four(a: &str, b: &str, c: &str, d: &str) -> (result: String)
    ensures
        result@ == a@ + b@ + c@ + d@,
{
    let mut result = join_three(a, b, c);
    result.append(d);
    result
}

/// Five texts as one.
pub fn join_five(a: &str, b: &str, c: &str, d: &str, e: &str) -> (result: String)
    ensures
        result@ == a@ + b@ + c@ + d@ + e@,
{
    let mut result = join_four(a, b, c, d);
    result.append(e);
    result
}

/// Six texts as one.
pub fn join_six(a: &str, b: &str, c: &str, d: &str, e: &str, f: &str) -> (result: String)
    ensures
        result@ == a@ + b@ + c@ + d@ + e@ + f@,
{
    let mut result = join_five(a, b, c, d, e);
    result.append(f);
    result
}

/// Whether the character is white space.
pub fn space(c: char) -> (result: bool)
    ensures
        result == is_space(c),
{
    ('\u{9}' <= c && c <= '\u{d}') || c == ' ' || c == '\u{85}' || c == '\u{a0}' || c == '\u{1680}'
        || ('\u{2000}' <= c && c <= '\u{200a}') || c == '\u{2028}' || c == '\u{2029}' || c
        == '\u{202f}' || c == '\u{205f}' || c == '\u{3000}'
}

/// The text without the white space around it.
pub fn trimmed(text: &str) -> (result: String)
    ensures
        result@ == trim(text@),
{
    let chars = characters(text);
    let mut from: usize = 0;
    assert(chars@.skip(0) == chars@);
    while from < chars.len() && space(chars[from])
        invariant
            from <= chars.len(),
            trim_start(chars@) == trim_start(chars@.skip(from as int)),
        decreases chars.len() - from,
    {
        proof {
            assert(chars@.skip(from as int).drop_first() =~= chars@.skip(from + 1));
        }
        from = from + 1;
    }
    let ghost rest = chars@.skip(from as int);
    assert(trim_start(chars@) == rest);
    let mut to: usize = chars.len();
    while to > from && space(chars[to - 1])
        invariant
            from <= to <= chars.len(),
            trim_end(rest) == trim_end(chars@.subrange(from as int, to as int)),
        decreases to,
    {
        proof {
            assert(chars@.subrange(from as int, to as int).drop_last() =~= chars@.subrange(
                from as int,
                to - 1,
            ));
        }
        to = to - 1;
    }
    text_between(&chars, from, to)
}

/// Whether there is nothing in the text but white space.
pub fn blank(text: &str) -> (result: bool)
    ensures
        result == is_blank(text@),
{
    proof {
        lemma_trim_empty(text@);
    }
    trimmed(text).as_str().is_empty()
}

/// A copy of a text that may be missing.
pub fn copy_option(text: &Option<String>) -> (result: Option<String>)
    ensures
        option_view(result) == option_view(*text),
{
    match text {
        Some(value) => Some(value.clone()),
        None => None,
    }
}

/// The first place of `c` at or after `from`; the length where there is none.
pub fn find_char(chars: &Vec<char>, c: char, from: usize) -> (result: usize)
    requires
        from <= chars.len(),
    ensures
        result == find_from(chars@, c, from as int),
        from <= result <= chars.len(),
{
    let mut at: usize = from;
    while at < chars.len() && chars[at] != c
        invariant
            from <= at <= chars.len(),
            find_from(chars@, c, from as int) == find_from(chars@, c, at as int),
        decreases chars.len() - at,
    {
        at = at + 1;
    }
    at
}

/// Cuts the text at its first `c`.
pub fn cut(text: &str, c: char) -> (result: Option<(String, String)>)
    ensures
        match result {
            Some((before, after)) => split_once(text@, c) == Some((before@, after@)),
            None => split_once(text@, c) is None,
        },
{
    let chars = characters(text);
    let at = find_char(&chars, c, 0);
    if at < chars.len() {
        Some((text_between(&chars, 0, at), text_between(&chars, at + 1, chars.len())))
    } else {
        None
    }
}

/// Cuts the text at its last `c`.
pub fn cut_last(text: &str, c: char) -> (result: Option<(String, String)>)
    ensures
        match result {
            Some((before, after)) => split_last(text@, c) == Some((before@, after@)),
            None => split_last(text@, c) is None,
        },
{
    let chars = characters(text);
    let mut to: usize = chars.len();
    while to > 0 && chars[to - 1] != c
        invariant
            to <= chars.len(),
            find_last_before(chars@, c, chars@.len() as int) == find_last_before(
                chars@,
                c,
                to as int,
            ),
        decreases to,
    {
        to = to - 1;
    }
    if to > 0 {
        Some((text_between(&chars, 0, to - 1), text_between(&chars, to, chars.len())))
    } else {
        None
    }
}

/// The pieces of the text between one `c` and the next.
pub fn pieces(text: &str, c: char) -> (result: Vec<String>)
    ensures
        views(result@) == split(text@, c),
        result.len() > 0,
{
    let chars = characters(text);
    let mut result: Vec<String> = Vec::new();
    let mut from: usize = 0;
    let mut at: usize = find_char(&chars, c, 0);
    assert(chars@.skip(0) == chars@);
    assert(views(result@) + split(chars@, c) == split(chars@, c));
    while at < chars.len()
        invariant
            from <= at <= chars.len(),
            at == find_from(chars@, c, from as int),
            views(result@) + split(chars@.skip(from as int), c) == split(chars@, c),
        decreases chars.len() - from,
    {
        proof {
            let rest = chars@.skip(from as int);
            lemma_find_skip(chars@, c, from as int, from as int);
            assert(rest.take(at - from) == chars@.subrange(from as int, at as int));
            assert(rest.skip(at - from + 1) == chars@.skip(at + 1));
            assert(split(rest, c) == seq![rest.take(at - from)] + split(chars@.skip(at + 1), c));
        }
        let ghost before = result@;
        result.push(text_between(&chars, from, at));
        assert(views(result@) == views(before) + seq![chars@.subrange(from as int, at as int)]);
        from = at + 1;
        at = find_char(&chars, c, from);
        assert(views(result@) + split(chars@.skip(from as int), c) == split(chars@, c));
    }
    proof {
        let rest = chars@.skip(from as int);
        lemma_find_skip(chars@, c, from as int, from as int);
        assert(rest == chars@.subrange(from as int, chars@.len() as int));
        assert(split(rest, c) == seq![rest]);
    }
    let ghost before = result@;
    result.push(text_between(&chars, from, chars.len()));
    assert(views(result@) == views(before) + seq![
        chars@.subrange(from as int, chars@.len() as int),
    ]);
    result
}

/// The text cut behind every line feed.
pub fn raw_pieces(text: &str) -> (result: Vec<String>)
    ensures
        views(result@) == raw_lines(text@),
{
    let chars = characters(text);
    let mut result: Vec<String> = Vec::new();
    let mut from: usize = 0;
    let mut at: usize = find_char(&chars, '\n', 0);
    assert(chars@.skip(0) == chars@);
    assert(views(result@) + raw_lines(chars@) == raw_lines(chars@));
    while at < chars.len()
        invariant
            from <= at <= chars.len(),
            at == find_from(chars@, '\n', from as int),
            views(result@) + raw_lines(chars@.skip(from as int)) == raw_lines(chars@),
        decreases chars.len() - from,
    {
        proof {
            let rest = chars@.skip(from as int);
            lemma_find_skip(chars@, '\n', from as int, from as int);
            assert(rest.take(at - from + 1) == chars@.subrange(from as int, at + 1));
            assert(rest.skip(at - from + 1) == chars@.skip(at + 1));
            assert(raw_lines(rest) == seq![rest.take(at - from + 1)] + raw_lines(
                chars@.skip(at + 1),
            ));
        }
        let ghost before = result@;
        result.push(text_between(&chars, from, at + 1));
        assert(views(result@) == views(before) + seq![chars@.subrange(from as int, at + 1)]);
        from = at + 1;
        at = find_char(&chars, '\n', from);
        assert(views(result@) + raw_lines(chars@.skip(from as int)) == raw_lines(chars@));
    }
    proof {
        let rest = chars@.skip(from as int);
        lemma_find_skip(chars@, '\n', from as int, from as int);
        assert(rest == chars@.subrange(from as int, chars@.len() as int));
    }
    let ghost before = result@;
    if from < chars.len() {
        result.push(text_between(&chars, from, chars.len()));
        assert(views(result@) == views(before) + seq![
            chars@.subrange(from as int, chars@.len() as int),
        ]);
    } else {
        assert(views(result@) == views(before) + raw_lines(chars@.skip(from as int)));
    }
    result
}

/// A piece of `raw_pieces` without its line ending.
pub fn body_of(raw: &str) -> (result: String)
    ensures
        result@ == line_body(raw@),
{
    let chars = characters(raw);
    let mut to: usize = chars.len();
    if to > 0 && chars[to - 1] == '\n' {
        to = to - 1;
        if to > 0 && chars[to - 1] == '\r' {
            to = to - 1;
        }
    }
    let result = text_between(&chars, 0, to);
    assert(result@ == line_body(raw@));
    result
}

/// The line ending of a piece of `raw_pieces`.
pub fn end_of(raw: &str) -> (result: String)
    ensures
        result@ == line_end(raw@),
{
    let chars = characters(raw);
    let mut to: usize = chars.len();
    if to > 0 && chars[to - 1] == '\n' {
        to = to - 1;
        if to > 0 && chars[to - 1] == '\r' {
            to = to - 1;
        }
    }
    assert(chars@.subrange(0, to as int) == line_body(raw@));
    text_between(&chars, to, chars.len())
}

/// The lines of the text, without their line endings.
pub fn lines_of(text: &str) -> (result: Vec<String>)
    ensures
        views(result@) == lines(text@),
{
    let raw = raw_pieces(text);
    let mut result: Vec<String> = Vec::new();
    let mut i: usize = 0;
    while i < raw.len()
        invariant
            i <= raw.len(),
            views(raw@) == raw_lines(text@),
            result.len() == i,
            forall|j: int| 0 <= j < i ==> (#[trigger] result@[j])@ == line_body(raw@[j]@),
        decreases raw.len() - i,
    {
        result.push(body_of(&raw[i]));
        i = i + 1;
    }
    proof {
        assert forall|j: int| 0 <= j < result@.len() implies views(result@)[j] == lines(
            text@,
        )[j] by {
            assert(views(raw@)[j] == raw@[j]@);
        }
        assert(views(result@) == lines(text@));
    }
    result
}

/// The text without the marks at its end.
pub fn without_last(text: &str, c: char) -> (result: String)
    ensures
        result@ == trim_last(text@, c),
{
    let chars = characters(text);
    let mut to: usize = chars.len();
    assert(chars@.take(to as int) == chars@);
    while to > 0 && chars[to - 1] == c
        invariant
            to <= chars.len(),
            trim_last(chars@, c) == trim_last(chars@.take(to as int), c),
        decreases to,
    {
        assert(chars@.take(to as int).drop_last() == chars@.take(to - 1));
        to = to - 1;
    }
    assert(chars@.take(to as int) == chars@.subrange(0, to as int));
    text_between(&chars, 0, to)
}

/// Whether `needle` stands in the characters at place `at`.
fn stands_at(chars: &Vec<char>, needle: &Vec<char>, at: usize) -> (result: bool)
    ensures
        result == occurs_at(chars@, needle@, at as int),
{
    if at > chars.len() || needle.len() > chars.len() - at {
        return false;
    }
    let mut i: usize = 0;
    while i < needle.len()
        invariant
            i <= needle.len(),
            at + needle.len() <= chars.len(),
            forall|j: int| 0 <= j < i ==> chars@[at + j] == #[trigger] needle@[j],
        decreases needle.len() - i,
    {
        if chars[at + i] != needle[i] {
            proof {
                if occurs_at(chars@, needle@, at as int) {
                    assert(chars@.subrange(at as int, at + needle@.len())[i as int] == chars@[at
                        + i]);
                }
            }
            return false;
        }
        i = i + 1;
    }
    assert(chars@.subrange(at as int, at + needle@.len()) == needle@);
    true
}

/// Whether the text begins with `prefix`.
pub fn begins(text: &str, prefix: &str) -> (result: bool)
    ensures
        result == starts_with(text@, prefix@),
{
    stands_at(&characters(text), &characters(prefix), 0)
}

/// Whether the text ends with `suffix`.
pub fn ends(text: &str, suffix: &str) -> (result: bool)
    ensures
        result == ends_with(text@, suffix@),
{
    let chars = characters(text);
    let needle = characters(suffix);
    if needle.len() > chars.len() {
        return false;
    }
    stands_at(&chars, &needle, chars.len() - needle.len())
}

/// Whether `needle` stands somewhere in the text.
pub fn holds(text: &str, needle: &str) -> (result: bool)
    ensures
        result == contains_text(text@, needle@),
{
    let chars = characters(text);
    let wanted = characters(needle);
    let mut at: usize = 0;
    while at < chars.len()
        invariant
            at <= chars.len(),
            chars@ == text@,
            wanted@ == needle@,
            forall|j: int| 0 <= j < at ==> !#[trigger] occurs_at(chars@, wanted@, j),
        decreases chars.len() - at,
    {
        if stands_at(&chars, &wanted, at) {
            return true;
        }
        at = at + 1;
    }
    stands_at(&chars, &wanted, at)
}

/// Whether the character stands somewhere in the text.
pub fn holds_char(text: &str, c: char) -> (result: bool)
    ensures
        result == text@.contains(c),
{
    let chars = characters(text);
    let at = find_char(&chars, c, 0);
    proof {
        lemma_find_from(chars@, c, 0);
    }
    at < chars.len()
}

/// The rest of the text behind `prefix`, where it begins with it.
pub fn without_prefix(text: &str, prefix: &str) -> (result: Option<String>)
    ensures
        match result {
            Some(rest) => starts_with(text@, prefix@) && rest@ == text@.skip(prefix@.len() as int),
            None => !starts_with(text@, prefix@),
        },
{
    let chars = characters(text);
    let needle = characters(prefix);
    if stands_at(&chars, &needle, 0) {
        Some(text_between(&chars, needle.len(), chars.len()))
    } else {
        None
    }
}

/// The text with its ASCII capitals made small.
pub fn lowered(text: &str) -> (result: String)
    ensures
        result@ == lowercase(text@),
{
    let chars = characters(text);
    let mut result = String::new();
    let mut i: usize = 0;
    while i < chars.len()
        invariant
            i <= chars.len(),
            result@ == lowercase(chars@.take(i as int)),
        decreases chars.len() - i,
    {
        let c = chars[i];
        assert(chars@.take(i + 1) == chars@.take(i as int).push(c));
        if 'A' <= c && c <= 'Z' {
            result.push((c as u8 + 32) as char);
        } else {
            result.push(c);
        }
        assert(result@ == lowercase(chars@.take(i + 1)));
        i = i + 1;
    }
    assert(chars@.take(i as int) == text@);
    result
}

/// The text with every `from` replaced by `to`.
pub fn replaced(text: &str, from: &str, to: &str) -> (result: String)
    requires
        from@.len() > 0,
    ensures
        result@ == replace_text(text@, from@, to@),
{
    let chars = characters(text);
    let needle = characters(from);
    let mut result = String::new();
    let mut at: usize = 0;
    assert(chars@.skip(0) == chars@);
    while at < chars.len()
        invariant
            at <= chars.len(),
            needle@ == from@,
            needle.len() > 0,
            result@ + replace_text(chars@.skip(at as int), needle@, to@) == replace_text(
                chars@,
                needle@,
                to@,
            ),
        decreases chars.len() - at,
    {
        let ghost rest = chars@.skip(at as int);
        let ghost before = result@;
        if stands_at(&chars, &needle, at) {
            proof {
                assert(rest.subrange(0, needle@.len() as int) == chars@.subrange(
                    at as int,
                    at + needle@.len(),
                ));
                assert(rest.skip(needle@.len() as int) == chars@.skip(at + needle@.len()));
            }
            result.append(to);
            at = at + needle.len();
            assert(result@ + replace_text(chars@.skip(at as int), needle@, to@) == before
                + replace_text(rest, needle@, to@));
        } else {
            proof {
                if occurs_at(rest, needle@, 0) {
                    assert(rest.subrange(0, needle@.len() as int) == chars@.subrange(
                        at as int,
                        at + needle@.len(),
                    ));
                }
                assert(rest.skip(1) == chars@.skip(at + 1));
            }
            result.push(chars[at]);
            at = at + 1;
            assert(result@ + replace_text(chars@.skip(at as int), needle@, to@) == before
                + replace_text(rest, needle@, to@));
        }
    }
    assert(chars@.skip(at as int).len() == 0);
    assert(result@ + replace_text(chars@.skip(at as int), needle@, to@) == result@);
    result
}

/// The texts joined into one, `separator` between one and the next.
pub fn joined(parts: &Vec<String>, separator: &str) -> (result: String)
    ensures
        result@ == join(views(parts@), separator@),
{
    let mut result = String::new();
    let mut i: usize = 0;
    while i < parts.len()
        invariant
            i <= parts.len(),
            result@ == join(views(parts@).take(i as int), separator@),
        decreases parts.len() - i,
    {
        let ghost before = result@;
        if i > 0 {
            result.append(separator);
        }
        result.append(&parts[i]);
        i = i + 1;
        proof {
            let now = views(parts@).take(i as int);
            assert(now.drop_last() == views(parts@).take(i - 1));
            assert(now.last() == parts@[i - 1]@);
            if i == 1 {
                assert(result@ == now[0]);
            }
        }
    }
    assert(views(parts@).take(i as int) == views(parts@));
    result
}

/// The decimal digits of a number.
pub fn decimal_text(n: u64) -> (result: String)
    ensures
        result@ == decimal(n as nat),
    decreases n,
{
    let last = (48u8 + (n % 10) as u8) as char;
    assert(last == digit((n % 10) as nat));
    if n < 10 {
        let mut result = String::new();
        result.push(last);
        assert(result@ == seq![last]);
        result
    } else {
        let mut result = decimal_text(n / 10);
        result.push(last);
        result
    }
}

/// The unsigned number below 2^64 that the text writes.
pub fn read_number(text: &str) -> (result: Option<u64>)
    ensures
        result == number(text@),
{
    let chars = characters(text);
    let mut at: usize = 0;
    if chars.len() > 0 && chars[0] == '+' {
        at = 1;
    }
    let ghost digits = chars@.skip(at as int);
    let start = at;
    assert(start == 0 ==> digits == chars@);
    if at == chars.len() {
        return None;
    }
    let mut value: u64 = 0;
    while at < chars.len()
        invariant
            start <= at <= chars.len(),
            digits == chars@.skip(start as int),
            digits == (if chars@.len() > 0 && chars@[0] == '+' {
                chars@.skip(1)
            } else {
                chars@
            }),
            text@ == chars@,
            digits.len() > 0,
            value == digits_value(digits.take(at - start)),
            forall|j: int| 0 <= j < at - start ==> is_digit(#[trigger] digits[j]),
        decreases chars.len() - at,
    {
        let c = chars[at];
        assert(digits[at - start] == c);
        if !('0' <= c && c <= '9') {
            assert(!is_digit(digits[at - start]) && !all_digits(digits));
            return None;
        }
        let worth: u64 = (c as u64) - 48;
        proof {
            let now = digits.take(at - start + 1);
            assert(now.drop_last() == digits.take(at - start));
            assert(now.last() == c);
            assert(digit_value(c) == worth);
            assert(digits_value(now) == value * 10 + worth);
            lemma_digits_value_grows(digits, at - start + 1);
        }
        if value > (0xffff_ffff_ffff_ffffu64 - worth) / 10 {
            assert(digits_value(digits) > u64::MAX);
            return None;
        }
        value = value * 10 + worth;
        at = at + 1;
    }
    assert(digits.take(at - start) == digits);
    Some(value)
}

} // verus!
