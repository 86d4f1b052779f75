//! What cutting, joining, trimming and comparing texts does to them.

use vstd::prelude::*;

use crate::text::{
    concat, contains_text, decimal, ends_with, find, is_digit, is_space, join, lemma_find_from,
    lemma_find_is, line_body, line_end, lines, lowercase, number, occurs_at, raw_lines,
    replace_char, replace_text, split, split_last, split_once, starts_with, text_before, trim,
    trim_end, trim_last, trim_start,
};
use crate::workflow_laws::{lemma_find_last, lemma_find_last_is};

verus! {

// ---------------------------------------------------------------------------
// Cutting
// ---------------------------------------------------------------------------
/// A text is cut at the first mark.
pub proof fn law_cut_at_the_first_mark(front: Seq<char>, rest: Seq<char>, c: char)
    requires
        !front.contains(c),
    ensures
        split_once(front + seq![c] + rest, c) == Some((front, rest)),
        split_once(front, c) is None,
{
    let s = front + seq![c] + rest;
    lemma_absent(front, c);
    assert forall|i: int| 0 <= i < front.len() implies #[trigger] s[i] != c by {
        assert(s[i] == front[i]);
        assert(front.contains(front[i]));
    }
    assert(s[front.len() as int] == c);
    lemma_find_is(s, c, 0, front.len() as int);
    assert(s.take(front.len() as int) == front);
    assert(s.skip(front.len() as int + 1) == rest);
}

proof fn lemma_absent(s: Seq<char>, c: char)
    requires
        !s.contains(c),
    ensures
        find(s, c) == s.len(),
{
    assert forall|i: int| 0 <= i < s.len() implies #[trigger] s[i] != c by {
        assert(s.contains(s[i]));
    }
    lemma_find_is(s, c, 0, s.len() as int);
}

/// A text is cut at the last mark.
pub proof fn law_cut_at_the_last_mark(front: Seq<char>, rest: Seq<char>, c: char)
    requires
        !rest.contains(c),
    ensures
        split_last(front + seq![c] + rest, c) == Some((front, rest)),
        split_last(rest, c) is None,
{
    let s = front + seq![c] + rest;
    assert(s[front.len() as int] == c);
    assert forall|i: int| front.len() < i < s.len() implies #[trigger] s[i] != c by {
        assert(s[i] == rest[i - front.len() - 1]);
        assert(rest.contains(rest[i - front.len() - 1]));
    }
    lemma_find_last_is(s, c, s.len() as int, front.len() as int);
    assert(s.take(front.len() as int) == front);
    assert(s.skip(front.len() as int + 1) == rest);
    lemma_find_last(rest, c, rest.len() as int);
    let at = crate::text::find_last_before(rest, c, rest.len() as int);
    if at >= 0 {
        assert(rest.contains(rest[at]));
    }
}

/// Cutting at every mark and joining with the mark gives the text back, and no mark is left in
/// a piece.
pub proof fn law_pieces_are_joined(s: Seq<char>, c: char)
    ensures
        split(s, c).len() > 0,
        join(split(s, c), seq![c]) == s,
        forall|i: int| 0 <= i < split(s, c).len() ==> !(#[trigger] split(s, c)[i]).contains(c),
    decreases s.len(),
{
    lemma_find_from(s, c, 0);
    let at = find(s, c);
    if at < s.len() {
        let rest = s.skip(at + 1);
        let first = s.take(at);
        law_pieces_are_joined(rest, c);
        lemma_join_first(first, split(rest, c), seq![c]);
        assert(s == first + seq![c] + rest);
        assert(!first.contains(c)) by {
            if first.contains(c) {
                let i = choose|i: int| 0 <= i < first.len() && first[i] == c;
                assert(s[i] == c);
            }
        }
        let all = split(s, c);
        assert forall|i: int| 0 <= i < all.len() implies !(#[trigger] all[i]).contains(c) by {
            if i > 0 {
                assert(all[i] == split(rest, c)[i - 1]);
            } else {
                assert(all[0] == first);
            }
        }
    } else {
        assert(!s.contains(c)) by {
            if s.contains(c) {
                let i = choose|i: int| 0 <= i < s.len() && s[i] == c;
                assert(s[i] == c);
            }
        }
    }
}

pub(crate) proof fn lemma_join_first(
    first: Seq<char>,
    rest: Seq<Seq<char>>,
    separator: Seq<char>,
)
    requires
        rest.len() > 0,
    ensures
        join(seq![first] + rest, separator) == first + separator + join(rest, separator),
    decreases rest.len(),
{
    let all = seq![first] + rest;
    assert(all.last() == rest.last());
    if rest.len() == 1 {
        assert(all.drop_last() == seq![first]);
        assert(join(all.drop_last(), separator) == first);
    } else {
        assert(all.drop_last() == seq![first] + rest.drop_last());
        lemma_join_first(first, rest.drop_last(), separator);
        assert(join(all, separator) == first + separator + join(rest, separator));
    }
}

/// What stands on both sides of a mark is cut on its own.
pub proof fn law_pieces_of_both_sides(a: Seq<char>, b: Seq<char>, c: char)
    ensures
        split(a + seq![c] + b, c) == split(a, c) + split(b, c),
    decreases a.len(),
{
    let s = a + seq![c] + b;
    lemma_find_from(a, c, 0);
    let at = find(a, c);
    assert(s[a.len() as int] == c);
    assert forall|i: int| 0 <= i < at implies #[trigger] s[i] != c by {
        assert(s[i] == a[i]);
    }
    if at < a.len() {
        assert(s[at] == a[at]);
        lemma_find_is(s, c, 0, at);
        let rest = a.skip(at + 1);
        assert(s.take(at) == a.take(at));
        assert(s.skip(at + 1) == rest + seq![c] + b);
        law_pieces_of_both_sides(rest, b, c);
        assert(split(s, c) == split(a, c) + split(b, c));
    } else {
        lemma_find_is(s, c, 0, a.len() as int);
        assert(s.take(a.len() as int) == a);
        assert(s.skip(a.len() as int + 1) == b);
        assert(split(a, c) == seq![a]);
    }
}

// ---------------------------------------------------------------------------
// Lines
// ---------------------------------------------------------------------------
/// A line ends at a line feed, and a carriage return in front of it does not belong to the
/// line.
pub proof fn law_line_ends_at_the_line_feed(line: Seq<char>, rest: Seq<char>)
    requires
        !line.contains('\n'),
    ensures
        line.len() > 0 && line.last() == '\r' ==> lines(line + seq!['\n'] + rest) == seq![
            line.drop_last(),
        ] + lines(rest),
        !(line.len() > 0 && line.last() == '\r') ==> lines(line + seq!['\n'] + rest) == seq![line]
            + lines(rest),
        line.len() > 0 ==> lines(line) == seq![line],
        lines(Seq::empty()) == Seq::<Seq<char>>::empty(),
{
    let s = line + seq!['\n'] + rest;
    let n = line.len() as int;
    lemma_absent(line, '\n');
    assert forall|i: int| 0 <= i < n implies #[trigger] s[i] != '\n' by {
        assert(s[i] == line[i]);
        assert(line.contains(line[i]));
    }
    assert(s[n] == '\n');
    lemma_find_is(s, '\n', 0, n);
    let raw = s.take(n + 1);
    assert(raw == line.push('\n'));
    assert(s.skip(n + 1) == rest);
    assert(raw.last() == '\n');
    assert(raw.drop_last() == line);
    assert(raw_lines(s) == seq![raw] + raw_lines(rest));
    assert(lines(s) == seq![line_body(raw)] + lines(rest));
    if line.len() > 0 {
        assert(line.contains(line.last()));
        assert(raw_lines(line) == seq![line]);
        assert(lines(line) == seq![line]);
    }
    lemma_find_is(Seq::empty(), '\n', 0, 0);
    assert(raw_lines(Seq::empty()) == Seq::<Seq<char>>::empty());
    assert(lines(Seq::empty()) == Seq::<Seq<char>>::empty());
}

/// The lines with their ends are the text.
pub proof fn law_lines_make_the_text(s: Seq<char>)
    ensures
        concat(raw_lines(s)) == s,
        forall|i: int|
            0 <= i < raw_lines(s).len() ==> line_body(raw_lines(s)[i]) + line_end(raw_lines(s)[i])
                == #[trigger] raw_lines(s)[i],
    decreases s.len(),
{
    lemma_find_from(s, '\n', 0);
    let at = find(s, '\n');
    let all = raw_lines(s);
    if at < s.len() {
        let rest = s.skip(at + 1);
        law_lines_make_the_text(rest);
        crate::text::lemma_concat_first(all);
        assert(all.skip(1) == raw_lines(rest));
        assert(all.drop_first() == raw_lines(rest));
        assert(s == s.take(at + 1) + rest);
        assert forall|i: int| 0 <= i < all.len() implies line_body(all[i]) + line_end(all[i])
            == #[trigger] all[i] by {
            if i > 0 {
                assert(all[i] == raw_lines(rest)[i - 1]);
            } else {
                lemma_body_and_end(all[0]);
            }
        }
    } else if s.len() > 0 {
        assert(all.drop_last() == Seq::<Seq<char>>::empty());
        assert(concat(all.drop_last()) == Seq::<char>::empty());
        lemma_body_and_end(s);
        assert(concat(all) == s);
    } else {
        assert(s == Seq::<char>::empty());
    }
}

proof fn lemma_body_and_end(raw: Seq<char>)
    ensures
        line_body(raw) + line_end(raw) == raw,
{
    assert(line_body(raw) == raw.take(line_body(raw).len() as int));
}

// ---------------------------------------------------------------------------
// Trimming
// ---------------------------------------------------------------------------
/// White space in front of a text and behind it is taken off, and nothing else.
pub proof fn law_white_space_is_trimmed(front: Seq<char>, text: Seq<char>, back: Seq<char>)
    requires
        forall|i: int| 0 <= i < front.len() ==> is_space(#[trigger] front[i]),
        forall|i: int| 0 <= i < back.len() ==> is_space(#[trigger] back[i]),
        text.len() > 0 ==> !is_space(text[0]) && !is_space(text.last()),
    ensures
        trim(front + text + back) == text,
{
    lemma_trim_front(front, text + back);
    assert(front + text + back == front + (text + back));
    if text.len() > 0 {
        assert((text + back)[0] == text[0]);
        assert(trim_start(text + back) == text + back);
        lemma_trim_back(text, back);
    } else {
        assert(text + back == back);
        lemma_trim_front(back, Seq::empty());
        assert(back + Seq::<char>::empty() == back);
        assert(trim_start(Seq::<char>::empty()) == Seq::<char>::empty());
        assert(trim_start(back) == Seq::<char>::empty());
        assert(trim_end(Seq::<char>::empty()) == Seq::<char>::empty());
        assert(text == Seq::<char>::empty());
    }
}

proof fn lemma_trim_front(front: Seq<char>, text: Seq<char>)
    requires
        forall|i: int| 0 <= i < front.len() ==> is_space(#[trigger] front[i]),
    ensures
        trim_start(front + text) == trim_start(text),
    decreases front.len(),
{
    let s = front + text;
    if front.len() > 0 {
        assert(s[0] == front[0]);
        assert(is_space(front[0]));
        assert(s.drop_first() == front.drop_first() + text);
        assert forall|i: int| 0 <= i < front.drop_first().len() implies is_space(
            #[trigger] front.drop_first()[i],
        ) by {
            assert(front.drop_first()[i] == front[i + 1]);
        }
        lemma_trim_front(front.drop_first(), text);
    } else {
        assert(s == text);
    }
}

proof fn lemma_trim_back(text: Seq<char>, back: Seq<char>)
    requires
        forall|i: int| 0 <= i < back.len() ==> is_space(#[trigger] back[i]),
        text.len() > 0,
        !is_space(text.last()),
    ensures
        trim_end(text + back) == text,
    decreases back.len(),
{
    let s = text + back;
    if back.len() > 0 {
        assert(s.last() == back.last());
        assert(is_space(back[back.len() - 1]));
        assert(s.drop_last() == text + back.drop_last());
        assert forall|i: int| 0 <= i < back.drop_last().len() implies is_space(
            #[trigger] back.drop_last()[i],
        ) by {
            assert(back.drop_last()[i] == back[i]);
        }
        lemma_trim_back(text, back.drop_last());
    } else {
        assert(s == text);
    }
}

/// All marks at the end of a text are taken off, and nothing else.
pub proof fn law_marks_at_the_end_are_trimmed(text: Seq<char>, back: Seq<char>, c: char)
    requires
        forall|i: int| 0 <= i < back.len() ==> #[trigger] back[i] == c,
        text.len() > 0 ==> text.last() != c,
    ensures
        trim_last(text + back, c) == text,
    decreases back.len(),
{
    let s = text + back;
    if back.len() > 0 {
        assert(s.last() == back[back.len() - 1]);
        assert(s.drop_last() == text + back.drop_last());
        assert forall|i: int| 0 <= i < back.drop_last().len() implies #[trigger] back.drop_last()[i]
            == c by {
            assert(back.drop_last()[i] == back[i]);
        }
        law_marks_at_the_end_are_trimmed(text, back.drop_last(), c);
    } else {
        assert(s == text);
    }
}

// ---------------------------------------------------------------------------
// Beginnings, ends and parts
// ---------------------------------------------------------------------------
/// A text begins with what stands at its front, ends with what stands at its end and holds
/// what stands in it.
pub proof fn law_parts_are_seen(front: Seq<char>, part: Seq<char>, back: Seq<char>)
    ensures
        starts_with(front + part + back, front),
        ends_with(front + part + back, back),
        contains_text(front + part + back, part),
{
    let s = front + part + back;
    assert(s.subrange(0, front.len() as int) == front);
    assert(s.subrange(s.len() - back.len(), s.len() as int) == back);
    assert(s.subrange(front.len() as int, (front.len() + part.len()) as int) == part);
    assert(occurs_at(s, part, front.len() as int));
}

/// What a text begins with, ends with or holds stands there.
pub proof fn law_seen_parts_are_there(s: Seq<char>, part: Seq<char>)
    ensures
        starts_with(s, part) ==> s == part + s.skip(part.len() as int),
        ends_with(s, part) ==> s == s.take(s.len() - part.len()) + part,
        contains_text(s, part) ==> exists|at: int|
            0 <= at <= s.len() - part.len() && #[trigger] s.subrange(at, at + part.len()) == part,
{
    if starts_with(s, part) {
        assert(s == s.subrange(0, part.len() as int) + s.skip(part.len() as int));
    }
    if ends_with(s, part) {
        assert(s == s.take(s.len() - part.len()) + s.subrange(
            s.len() - part.len(),
            s.len() as int,
        ));
    }
    if contains_text(s, part) {
        let at = choose|at: int| #[trigger] occurs_at(s, part, at);
        assert(s.subrange(at, at + part.len()) == part);
    }
}

/// The first place where a text occurs is replaced, and the rest behind it in the same way.
pub proof fn law_occurrence_is_replaced(
    front: Seq<char>,
    from: Seq<char>,
    rest: Seq<char>,
    to: Seq<char>,
)
    requires
        from.len() > 0,
        !front.contains(from[0]),
    ensures
        replace_text(front + from + rest, from, to) == front + to + replace_text(rest, from, to),
        replace_text(front, from, to) == front,
    decreases front.len(),
{
    let s = front + from + rest;
    if front.len() == 0 {
        assert(s.subrange(0, from.len() as int) == from);
        assert(s.skip(from.len() as int) == rest);
        assert(front + to == to);
        assert(s.len() > 0);
        assert(occurs_at(s, from, 0));
        assert(front + to + replace_text(rest, from, to) == to + replace_text(rest, from, to));
    } else {
        let tail = front.skip(1);
        assert(s[0] == front[0]);
        assert(front.contains(front[0]));
        assert(!occurs_at(s, from, 0)) by {
            if occurs_at(s, from, 0) {
                assert(s.subrange(0, from.len() as int)[0] == s[0]);
            }
        }
        assert(!occurs_at(front, from, 0)) by {
            if occurs_at(front, from, 0) {
                assert(front.subrange(0, from.len() as int)[0] == front[0]);
            }
        }
        assert(!tail.contains(from[0])) by {
            if tail.contains(from[0]) {
                let i = choose|i: int| 0 <= i < tail.len() && tail[i] == from[0];
                assert(front[i + 1] == from[0]);
            }
        }
        assert(s.skip(1) == tail + from + rest);
        law_occurrence_is_replaced(tail, from, rest, to);
        assert(front == seq![front[0]] + tail);
        assert(replace_text(s, from, to) == seq![front[0]] + (tail + to + replace_text(
            rest,
            from,
            to,
        )));
        assert(front + to + replace_text(rest, from, to) == seq![front[0]] + (tail + to
            + replace_text(rest, from, to)));
    }
}

/// Every character is replaced at its place: a mark by the other mark, a capital letter by the
/// small one, and every other character by itself.
pub proof fn law_characters_are_replaced(s: Seq<char>, from: char, to: char)
    ensures
        replace_char(s, from, to).len() == s.len(),
        forall|i: int|
            0 <= i < s.len() ==> (#[trigger] replace_char(s, from, to)[i]) == if s[i] == from {
                to
            } else {
                s[i]
            },
        lowercase(s).len() == s.len(),
        forall|i: int|
            0 <= i < s.len() ==> if 'A' <= s[i] && s[i] <= 'Z' {
                (#[trigger] lowercase(s)[i]) as int == s[i] as int + 32
            } else {
                lowercase(s)[i] == s[i]
            },
{
}

// ---------------------------------------------------------------------------
// Order and numbers
// ---------------------------------------------------------------------------
/// The first difference decides which of two texts comes first.
pub proof fn law_first_difference_decides(
    front: Seq<char>,
    a: Seq<char>,
    b: Seq<char>,
)
    requires
        a.len() > 0 && b.len() > 0 ==> a[0] != b[0],
    ensures
        text_before(front + a, front + b) == (b.len() > 0 && (a.len() == 0 || a[0] < b[0])),
    decreases front.len(),
{
    if front.len() > 0 {
        assert((front + a)[0] == front[0]);
        assert((front + b)[0] == front[0]);
        assert((front + a).skip(1) == front.skip(1) + a);
        assert((front + b).skip(1) == front.skip(1) + b);
        law_first_difference_decides(front.skip(1), a, b);
    } else {
        assert(front + a == a);
        assert(front + b == b);
    }
}

/// The decimal digits of a number are read as that number; text with anything else in it is
/// read as none.
pub proof fn law_numbers_are_read(n: u64, s: Seq<char>)
    ensures
        number(decimal(n as nat)) == Some(n),
        s.len() == 0 || (exists|i: int| 1 <= i < s.len() && !is_digit(#[trigger] s[i]))
            ==> number(s) is None,
        s.len() > 0 && s[0] != '+' && !is_digit(s[0]) ==> number(s) is None,
{
    crate::version::lemma_decimal(n as nat);
    let text = decimal(n as nat);
    assert(is_digit(text[0]));
    if exists|i: int| 1 <= i < s.len() && !is_digit(#[trigger] s[i]) {
        let i = choose|i: int| 1 <= i < s.len() && !is_digit(#[trigger] s[i]);
        assert(s.skip(1)[i - 1] == s[i]);
    }
}

/// A number is written digit by digit, without a zero in front.
pub proof fn law_numbers_are_written_digit_by_digit(n: nat, d: nat)
    requires
        d < 10,
    ensures
        decimal(d).len() == 1,
        decimal(d)[0] as int == '0' as int + d,
        n > 0 ==> decimal(10 * n + d) == decimal(n) + decimal(d),
        n > 0 ==> decimal(n)[0] != '0',
    decreases n,
{
    let whole = 10 * n + d;
    assert(whole / 10 == n && whole % 10 == d);
    assert(decimal(d) == seq![crate::text::digit(d)]);
    if n > 0 {
        assert(decimal(whole) == decimal(n).push(crate::text::digit(d)));
        assert(decimal(n).push(crate::text::digit(d)) == decimal(n) + decimal(d));
        if n >= 10 {
            law_numbers_are_written_digit_by_digit(n / 10, n % 10);
            assert(10 * (n / 10) + n % 10 == n);
            crate::version::lemma_decimal(n / 10);
        }
    }
}

} // verus!
