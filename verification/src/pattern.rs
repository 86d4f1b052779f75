//! The regular expressions that workflow files and commit messages are read with.
//!
//! Each pattern is a constant. Beside it stands a spec function that says, from
//! left to right, which texts the pattern matches and what its groups hold.

use vstd::prelude::*;

use crate::text::{is_digit, is_letter, is_space, occurs_at, option_view};

verus! {

/// A step that uses an action: indentation, list marker, action and comment.
pub const USES_LINE: &'static str =
    r"^(?P<indent>\s*)(?P<list>-\s*)?uses:\s*(?P<uses>[^#\s]+)\s*(?:#\s*(?P<comment>.*))?$";

/// A `permissions` key: indentation and value.
pub const PERMISSIONS_LINE: &'static str = r"^(?P<indent>\s*)permissions:\s*(?P<value>[^#]*)";

/// An entry of a `permissions` block: scope and value.
pub const PERMISSION_ENTRY: &'static str =
    r"^\s*(?P<scope>[A-Za-z0-9_-]+):\s*(?P<value>[A-Za-z0-9_-]+)";

/// A key at the left margin.
pub const TOP_LEVEL_KEY: &'static str = r"^[A-Za-z_][A-Za-z0-9_-]*\s*:";

/// A key at any indentation.
pub const YAML_KEY: &'static str = r"^\s*[A-Za-z_][A-Za-z0-9_-]*\s*:";

/// The line that opens a job: its name.
pub const JOB_LINE: &'static str = r"^  (?P<name>[A-Za-z0-9_-]+):\s*(?:#.*)?$";

/// A field inside a job: its name.
pub const JOB_FIELD: &'static str = r"^\s+(?P<field>[A-Za-z0-9_-]+):";

/// The subject of a conventional commit: type, scope, marker and description.
pub const SUBJECT: &'static str =
    r"^(?P<type>[A-Za-z][A-Za-z0-9-]*)(?:\((?P<scope>[^)]+)\))?(?P<bang>!)?:\s?(?P<description>.+)$";

/// A footer that announces a breaking change.
pub const BREAKING_FOOTER: &'static str = r"(?m)^BREAKING[- ]CHANGE\b";

/// The classes of characters that the patterns speak of.
pub enum Class {
    /// `\s`
    Space,
    /// `[^#\s]`
    Reference,
    /// `[^#]`
    NotHash,
    /// `[A-Za-z0-9_-]`
    Name,
    /// `[A-Za-z0-9-]`
    Type,
    /// `[^)]`
    NotParenthesis,
}

/// Whether the class holds the character.
pub open spec fn in_class(class: Class, c: char) -> bool {
    match class {
        Class::Space => is_space(c),
        Class::Reference => c != '#' && !is_space(c),
        Class::NotHash => c != '#',
        Class::Name => is_letter(c) || is_digit(c) || c == '_' || c == '-',
        Class::Type => is_letter(c) || is_digit(c) || c == '-',
        Class::NotParenthesis => c != ')',
    }
}

/// Where the longest run of the class from `from` on ends.
pub open spec fn run_end(s: Seq<char>, from: int, class: Class) -> int
    decreases s.len() - from,
{
    if 0 <= from < s.len() && in_class(class, s[from]) {
        run_end(s, from + 1, class)
    } else {
        from
    }
}

/// The character `c` stands at place `at`.
pub open spec fn is_at(s: Seq<char>, at: int, c: char) -> bool {
    0 <= at < s.len() && s[at] == c
}

/// No line feed in the text from `from` on.
pub open spec fn one_line_from(s: Seq<char>, from: int) -> bool {
    forall|i: int| from <= i < s.len() ==> #[trigger] s[i] != '\n'
}

/// What the groups of a match hold, in the order in which they open; a group that
/// took no part holds nothing.
pub type Groups = Option<Seq<Option<Seq<char>>>>;

/// The groups of `USES_LINE`.
pub open spec fn uses_line(s: Seq<char>) -> Groups {
    let indent = run_end(s, 0, Class::Space);
    let marked = is_at(s, indent, '-');
    let key = if marked {
        run_end(s, indent + 1, Class::Space)
    } else {
        indent
    };
    let from = run_end(s, key + 5, Class::Space);
    let to = run_end(s, from, Class::Reference);
    let rest = run_end(s, to, Class::Space);
    let comment = run_end(s, rest + 1, Class::Space);
    if !occurs_at(s, "uses:"@, key) || to <= from {
        None
    } else {
        let head = seq![
            Some(s.take(indent)),
            if marked {
                Some(s.subrange(indent, key))
            } else {
                None
            },
            Some(s.subrange(from, to)),
        ];
        if rest == s.len() {
            Some(head.push(None))
        } else if is_at(s, rest, '#') && one_line_from(s, comment) {
            Some(head.push(Some(s.skip(comment))))
        } else {
            None
        }
    }
}

/// The groups of `PERMISSIONS_LINE`.
pub open spec fn permissions_line(s: Seq<char>) -> Groups {
    let indent = run_end(s, 0, Class::Space);
    let from = run_end(s, indent + 12, Class::Space);
    let to = run_end(s, from, Class::NotHash);
    if occurs_at(s, "permissions:"@, indent) {
        Some(seq![Some(s.take(indent)), Some(s.subrange(from, to))])
    } else {
        None
    }
}

/// The groups of `PERMISSION_ENTRY`.
pub open spec fn permission_entry(s: Seq<char>) -> Groups {
    let scope = run_end(s, 0, Class::Space);
    let colon = run_end(s, scope, Class::Name);
    let from = run_end(s, colon + 1, Class::Space);
    let to = run_end(s, from, Class::Name);
    if scope < colon && is_at(s, colon, ':') && from < to {
        Some(seq![Some(s.subrange(scope, colon)), Some(s.subrange(from, to))])
    } else {
        None
    }
}

/// A key, blanks and a colon from `from` on.
pub open spec fn key_from(s: Seq<char>, from: int) -> bool {
    &&& 0 <= from < s.len()
    &&& is_letter(s[from]) || s[from] == '_'
    &&& is_at(s, run_end(s, run_end(s, from + 1, Class::Name), Class::Space), ':')
}

/// The groups of `TOP_LEVEL_KEY`, which has none.
pub open spec fn top_level_key(s: Seq<char>) -> Groups {
    if key_from(s, 0) {
        Some(Seq::empty())
    } else {
        None
    }
}

/// The groups of `YAML_KEY`, which has none.
pub open spec fn yaml_key(s: Seq<char>) -> Groups {
    if key_from(s, run_end(s, 0, Class::Space)) {
        Some(Seq::empty())
    } else {
        None
    }
}

/// The groups of `JOB_LINE`.
pub open spec fn job_line(s: Seq<char>) -> Groups {
    let colon = run_end(s, 2, Class::Name);
    let rest = run_end(s, colon + 1, Class::Space);
    if is_at(s, 0, ' ') && is_at(s, 1, ' ') && 2 < colon && is_at(s, colon, ':') && (rest
        == s.len() || is_at(s, rest, '#') && one_line_from(s, rest)) {
        Some(seq![Some(s.subrange(2, colon))])
    } else {
        None
    }
}

/// The groups of `JOB_FIELD`.
pub open spec fn job_field(s: Seq<char>) -> Groups {
    let from = run_end(s, 0, Class::Space);
    let colon = run_end(s, from, Class::Name);
    if 0 < from < colon && is_at(s, colon, ':') {
        Some(seq![Some(s.subrange(from, colon))])
    } else {
        None
    }
}

/// The type of the subject of a conventional commit, and whether it is marked as
/// breaking.
pub open spec fn subject(s: Seq<char>) -> Option<(Seq<char>, bool)> {
    let open = run_end(s, 1, Class::Type);
    let scoped = is_at(s, open, '(');
    let close = run_end(s, open + 1, Class::NotParenthesis);
    let mark = if scoped {
        close + 1
    } else {
        open
    };
    let marked = is_at(s, mark, '!');
    let colon = if marked {
        mark + 1
    } else {
        mark
    };
    if s.len() > 0 && is_letter(s[0]) && (scoped ==> open + 1 < close < s.len()) && is_at(
        s,
        colon,
        ':',
    ) && colon + 1 < s.len() && (one_line_from(s, colon + 1) || (is_space(s[colon + 1]) && colon + 2
        < s.len() && one_line_from(s, colon + 2))) {
        Some((s.take(open), marked))
    } else {
        None
    }
}

/// The words of a breaking-change footer stand at place `at`, at the start of a
/// line.
pub open spec fn footer_at(s: Seq<char>, at: int) -> bool {
    &&& at == 0 || is_at(s, at - 1, '\n')
    &&& occurs_at(s, "BREAKING CHANGE"@, at) || occurs_at(s, "BREAKING-CHANGE"@, at)
}

/// An ASCII letter, a digit or an underscore.
pub open spec fn ascii_word(c: char) -> bool {
    is_letter(c) || is_digit(c) || c == '_'
}

/// A breaking-change footer that ends the text, or that an ASCII character follows
/// which belongs to no word.
pub open spec fn footer_ends_at(s: Seq<char>, at: int) -> bool {
    &&& footer_at(s, at)
    &&& at + 15 == s.len() || (s[at + 15] < '\u{80}' && !ascii_word(s[at + 15]))
}

/// A breaking-change footer that no ASCII letter, digit or underscore follows.
pub open spec fn footer_may_end_at(s: Seq<char>, at: int) -> bool {
    &&& footer_at(s, at)
    &&& at + 15 < s.len() ==> !ascii_word(s[at + 15])
}

/// The patterns that `groups` is called with.
pub open spec fn is_known(pattern: Seq<char>) -> bool {
    ||| pattern == USES_LINE@
    ||| pattern == PERMISSIONS_LINE@
    ||| pattern == PERMISSION_ENTRY@
    ||| pattern == TOP_LEVEL_KEY@
    ||| pattern == YAML_KEY@
    ||| pattern == JOB_LINE@
    ||| pattern == JOB_FIELD@
    ||| pattern == SUBJECT@
    ||| pattern == BREAKING_FOOTER@
}

/// What the groups of a match hold.
pub open spec fn groups_view(found: Option<Vec<Option<String>>>) -> Groups {
    match found {
        Some(parts) => Some(parts@.map_values(|part: Option<String>| option_view(part))),
        None => None,
    }
}

/// The groups of the leftmost match of a regular expression in a text.
pub uninterp spec fn regex_groups(pattern: Seq<char>, text: Seq<char>) -> Groups;

/// `regex::Regex::new`, which accepts each of the patterns, and
/// `regex::Regex::captures`: the groups of the leftmost match, the whole match
/// left out. What they hold is stated pattern by pattern. Of `SUBJECT` the type and
/// the marker are stated, the scope and the description are not. Of
/// `BREAKING_FOOTER` it is left open whether a footer counts that a character
/// outside ASCII follows: that depends on the Unicode tables of the crate.
#[verifier::external_body]
pub(crate) fn groups(pattern: &str, text: &str) -> (result: Option<Vec<Option<String>>>)
    requires
        is_known(pattern@),
    ensures
        groups_view(result) == regex_groups(pattern@, text@),
        pattern@ == USES_LINE@ ==> groups_view(result) == uses_line(text@),
        pattern@ == PERMISSIONS_LINE@ ==> groups_view(result) == permissions_line(text@),
        pattern@ == PERMISSION_ENTRY@ ==> groups_view(result) == permission_entry(text@),
        pattern@ == TOP_LEVEL_KEY@ ==> groups_view(result) == top_level_key(text@),
        pattern@ == YAML_KEY@ ==> groups_view(result) == yaml_key(text@),
        pattern@ == JOB_LINE@ ==> groups_view(result) == job_line(text@),
        pattern@ == JOB_FIELD@ ==> groups_view(result) == job_field(text@),
        pattern@ == SUBJECT@ ==> match result {
            Some(parts) => parts.len() == 4 && parts@[0] is Some && subject(text@) == Some(
                (parts@[0]->0@, parts@[2] is Some),
            ),
            None => subject(text@) is None,
        },
        pattern@ == BREAKING_FOOTER@ ==> {
            &&& (exists|at: int| footer_ends_at(text@, at)) ==> result is Some
            &&& result is Some ==> (exists|at: int| footer_may_end_at(text@, at))
        },
{
    let expression = regex::Regex::new(pattern).unwrap();
    let found = expression.captures(text)?;
    let parts = found.iter().skip(1).map(|part| part.map(|part| part.as_str().to_owned()));
    Some(parts.collect())
}

/// What a group holds, and the empty text where it took no part.
pub open spec fn or_empty(part: Option<Seq<char>>) -> Seq<char> {
    match part {
        Some(text) => text,
        None => Seq::empty(),
    }
}

/// A copy of what a group holds, and the empty text where it took no part.
pub fn group_text(part: &Option<String>) -> (result: String)
    ensures
        result@ == or_empty(option_view(*part)),
{
    match part {
        Some(text) => text.clone(),
        None => String::new(),
    }
}

} // verus!
