//! Which files are workflows, where files lie in a repository, and how versions compare.

use vstd::prelude::*;

use crate::cargo::requirement_of;
use crate::member_laws::{is_plain_path, law_path_behind_the_root};
use crate::paths::{
    components, extension, file_name, is_absolute, is_workflow, lies_in, path_below,
    repository_path,
};
use crate::scan_laws::begins_with;
use crate::text::{
    all_digits, decimal, is_digit, lemma_find_from, split, starts_with, text_before, trim,
};
use crate::text_laws::{law_cut_at_the_last_mark, law_pieces_of_both_sides};
use crate::version::{
    identifier_before, identifiers_before, is_build, is_prerelease, law_version_is_read_back,
    lemma_decimal, semver_exceeds, VersionView,
};

verus! {

// ---------------------------------------------------------------------------
// Names
// ---------------------------------------------------------------------------
/// The name of a file stands behind the last slash.
pub proof fn law_name_stands_behind_the_last_slash(directory: Seq<char>, name: Seq<char>)
    requires
        !name.contains('/'),
    ensures
        file_name(directory + seq!['/'] + name) == name,
        file_name(name) == name,
{
    law_cut_at_the_last_mark(directory, name, '/');
}

/// The ending of a name stands behind its last dot, unless nothing stands in front of it.
pub proof fn law_ending_stands_behind_the_last_dot(
    directory: Seq<char>,
    stem: Seq<char>,
    ending: Seq<char>,
)
    requires
        !stem.contains('/'),
        !ending.contains('/'),
        !ending.contains('.'),
    ensures
        stem.len() > 0 ==> extension(directory + seq!['/'] + (stem + seq!['.'] + ending)) == Some(
            ending,
        ) && extension(stem + seq!['.'] + ending) == Some(ending),
        stem.len() == 0 ==> extension(directory + seq!['/'] + (stem + seq!['.'] + ending)) is None,
        extension(directory + seq!['/'] + ending) is None,
{
    let name = stem + seq!['.'] + ending;
    assert(!name.contains('/')) by {
        if name.contains('/') {
            let i = choose|i: int| 0 <= i < name.len() && name[i] == '/';
            if i < stem.len() {
                assert(stem.contains(stem[i]));
            } else if i > stem.len() {
                assert(ending.contains(ending[i - stem.len() - 1]));
            }
        }
    }
    law_name_stands_behind_the_last_slash(directory, name);
    law_name_stands_behind_the_last_slash(directory, ending);
    law_cut_at_the_last_mark(stem, ending, '.');
}

/// A workflow is a file whose name ends in `.yml` or `.yaml`, in any directory.
pub proof fn law_workflows_end_in_yaml(
    directory: Seq<char>,
    stem: Seq<char>,
    ending: Seq<char>,
)
    requires
        stem.len() > 0,
        !stem.contains('/'),
        !ending.contains('/'),
        !ending.contains('.'),
    ensures
        is_workflow(directory + seq!['/'] + (stem + seq!['.'] + ending)) == (ending == "yml"@
            || ending == "yaml"@),
        is_workflow(stem + seq!['.'] + ending) == (ending == "yml"@ || ending == "yaml"@),
{
    law_ending_stands_behind_the_last_dot(directory, stem, ending);
}

// ---------------------------------------------------------------------------
// Places
// ---------------------------------------------------------------------------
/// A path lies below another when both start at the same place and the names of the other come
/// first.
pub proof fn law_paths_below_begin_alike(root: Seq<char>, path: Seq<char>)
    ensures
        lies_in(root, path) == ((begins_with(root, seq!['/']) == begins_with(path, seq!['/']))
            && exists|below: Seq<Seq<char>>| #[trigger] (components(root) + below) == components(
            path,
        )),
{
    let a = components(root);
    let b = components(path);
    assert(is_absolute(root) == begins_with(root, seq!['/'])) by {
        if is_absolute(root) {
            assert(root.take(1) == seq!['/']);
        }
        if begins_with(root, seq!['/']) {
            assert(root.take(1)[0] == '/');
        }
    }
    assert(is_absolute(path) == begins_with(path, seq!['/'])) by {
        if is_absolute(path) {
            assert(path.take(1) == seq!['/']);
        }
        if begins_with(path, seq!['/']) {
            assert(path.take(1)[0] == '/');
        }
    }
    if lies_in(root, path) {
        assert(a + b.skip(a.len() as int) == b);
    }
    if exists|below: Seq<Seq<char>>| #[trigger] (a + below) == b {
        let below = choose|below: Seq<Seq<char>>| #[trigger] (a + below) == b;
        assert(b.take(a.len() as int) == a);
    }
}

/// The path of a file in its repository is what stands behind the root.
pub proof fn law_repository_path_stands_behind_the_root(root: Seq<char>, path: Seq<char>)
    requires
        root.len() > 0,
        is_plain_path(path),
        path.len() > 0,
    ensures
        repository_path(root, root + seq!['/'] + path) == Ok::<Seq<char>, Seq<char>>(path),
        repository_path(root, root) is Err,
{
    law_path_behind_the_root(root, path);
    assert(components(root).skip(components(root).len() as int) == Seq::<Seq<char>>::empty());
    assert(path_below(root, root) == Seq::<char>::empty());
    assert(crate::text::replace_char(Seq::empty(), '\\', '/') == Seq::<char>::empty());
}

// ---------------------------------------------------------------------------
// Versions
// ---------------------------------------------------------------------------
/// The greater major version exceeds, then the greater minor version, then the greater patch;
/// with all three the same a release exceeds its pre-releases.
pub proof fn law_greater_version_exceeds(left: VersionView, right: VersionView)
    ensures
        left.major > right.major ==> semver_exceeds(left, right),
        left.major < right.major ==> !semver_exceeds(left, right),
        left.major == right.major && left.minor > right.minor ==> semver_exceeds(left, right),
        left.major == right.major && left.minor < right.minor ==> !semver_exceeds(left, right),
        left.major == right.major && left.minor == right.minor && left.patch > right.patch
            ==> semver_exceeds(left, right),
        left.major == right.major && left.minor == right.minor && left.patch < right.patch
            ==> !semver_exceeds(left, right),
        left.major == right.major && left.minor == right.minor && left.patch == right.patch
            && left.pre.len() == 0 && right.pre.len() > 0 ==> semver_exceeds(left, right),
        left.major == right.major && left.minor == right.minor && left.patch == right.patch
            && left.pre.len() > 0 && right.pre.len() == 0 ==> !semver_exceeds(left, right),
        !semver_exceeds(left, left),
{
}

/// A requirement may leave out the patch, or the minor version and the patch: they count as
/// zero.
pub proof fn law_short_requirements_are_filled(
    operator: Seq<char>,
    major: u64,
    minor: u64,
)
    requires
        operator == ""@ || operator == "^"@ || operator == "~"@ || operator == "="@,
    ensures
        requirement_of(operator + decimal(major as nat)) == Some((operator, plain(major, 0, 0))),
        requirement_of(operator + (decimal(major as nat) + seq!['.'] + decimal(minor as nat)))
            == Some((operator, plain(major, minor, 0))),
{
    let a = decimal(major as nat);
    let b = decimal(minor as nat);
    lemma_decimal(major as nat);
    lemma_decimal(minor as nat);
    lemma_digits_are_one_piece(a);
    lemma_digits_are_one_piece(b);
    let two = a + seq!['.'] + b;
    law_pieces_of_both_sides(a, b, '.');
    assert(split(two, '.') == seq![a, b]);
    reveal_strlit(".");
    reveal_strlit(".0");
    reveal_strlit(".0.0");
    let zero = decimal(0);
    assert(zero == seq!['0']);
    let first = plain(major, 0, 0);
    let second = plain(major, minor, 0);
    assert(crate::version::is_prerelease(first.pre) && crate::version::is_build(first.build));
    assert(first.text() == a + "."@ + zero + "."@ + zero);
    assert(first.text() == a + ".0.0"@);
    assert(second.text() == a + "."@ + b + "."@ + zero);
    assert(second.text() == two + ".0"@);
    law_version_is_read_back(first);
    law_version_is_read_back(second);
    assert forall|i: int| 0 <= i < two.len() implies is_digit(#[trigger] two[i]) || two[i]
        == '.' by {
        if i < a.len() {
            assert(two[i] == a[i]);
        } else if i > a.len() {
            assert(two[i] == b[i - a.len() - 1]);
        }
    }
    assert(two[0] == a[0]);
    assert(two.last() == b.last());
    assert(is_digit(b[b.len() - 1]));
    assert(is_digit(a[a.len() - 1]));
    assert(is_digit(a[0]));
    lemma_read(operator, a);
    lemma_read(operator, two);
}

/// The version without a pre-release and a build.
pub open spec fn plain(major: u64, minor: u64, patch: u64) -> VersionView {
    VersionView { major, minor, patch, pre: Seq::empty(), build: Seq::empty() }
}

proof fn lemma_digits_are_one_piece(text: Seq<char>)
    requires
        all_digits(text),
    ensures
        split(text, '.') == seq![text],
{
    assert forall|i: int| 0 <= i < text.len() implies #[trigger] text[i] != '.' by {
        assert(is_digit(text[i]));
    }
    crate::text::lemma_find_is(text, '.', 0, text.len() as int);
}

proof fn lemma_read(operator: Seq<char>, text: Seq<char>)
    requires
        operator == ""@ || operator == "^"@ || operator == "~"@ || operator == "="@,
        text.len() > 0,
        is_digit(text[0]),
        is_digit(text.last()),
        forall|i: int| 0 <= i < text.len() ==> is_digit(#[trigger] text[i]) || text[i] == '.',
    ensures
        trim(operator + text) == operator + text,
        !crate::cargo::is_unsupported(operator + text),
        crate::cargo::operator_and_rest(operator + text) == (operator, text),
        trim(text) == text,
        crate::cargo::trim_first(text, 'v') == text,
{
    let whole = operator + text;
    reveal_strlit("^");
    reveal_strlit("~");
    reveal_strlit("=");
    reveal_strlit("");
    assert forall|i: int| 0 <= i < whole.len() implies {
        ||| operator.len() == 1 && i == 0 && whole[i] == operator[0]
        ||| is_digit(#[trigger] whole[i])
        ||| whole[i] == '.'
    } by {
        if i >= operator.len() {
            assert(whole[i] == text[i - operator.len()]);
        }
    }
    assert(whole.last() == text.last());
    crate::text::lemma_trim_same(whole);
    crate::text::lemma_trim_same(text);
    if operator.len() == 1 {
        assert(whole.subrange(0, 1) == operator);
        assert(whole.skip(1) == text);
    } else {
        assert(whole == text);
        assert(text.subrange(0, 1)[0] == text[0]);
        assert(!starts_with(text, "^"@) && !starts_with(text, "~"@) && !starts_with(text, "="@));
    }
}

/// The first identifier that differs decides between two pre-releases; where there is none,
/// the longer one is greater.
pub proof fn law_first_identifier_decides(
    front: Seq<Seq<char>>,
    a: Seq<Seq<char>>,
    b: Seq<Seq<char>>,
)
    requires
        a.len() > 0 && b.len() > 0 ==> a[0] != b[0],
    ensures
        identifiers_before(front + a, front + b) == (b.len() > 0 && (a.len() == 0
            || identifier_before(a[0], b[0]))),
    decreases front.len(),
{
    if front.len() > 0 {
        assert((front + a)[0] == front[0]);
        assert((front + b)[0] == front[0]);
        assert((front + a).skip(1) == front.skip(1) + a);
        assert((front + b).skip(1) == front.skip(1) + b);
        law_first_identifier_decides(front.skip(1), a, b);
    } else {
        assert(front + a == a);
        assert(front + b == b);
    }
}

/// Numbers among identifiers are compared as numbers and come before words.
pub proof fn law_numbers_come_before_words(n: nat, m: nat, word: Seq<char>, other: Seq<char>)
    requires
        exists|i: int| 0 <= i < word.len() && !is_digit(#[trigger] word[i]),
        exists|i: int| 0 <= i < other.len() && !is_digit(#[trigger] other[i]),
    ensures
        identifier_before(decimal(n), decimal(m)) == (n < m),
        identifier_before(decimal(n), word),
        !identifier_before(word, decimal(n)),
        identifier_before(word, other) == text_before(word, other),
{
    lemma_decimal(n);
    lemma_decimal(m);
}

/// A word may begin with a zero in a pre-release, and a number may not; both are made of
/// letters, digits and hyphens.
pub proof fn law_prerelease_may_hold(word: Seq<char>)
    requires
        !word.contains('.'),
    ensures
        is_prerelease(word) == (word.len() == 0 || ((forall|i: int|
            0 <= i < word.len() ==> 'a' <= #[trigger] word[i] <= 'z' || 'A' <= word[i] <= 'Z' || '0'
                <= word[i] <= '9' || word[i] == '-') && (word[0] != '0' || word.len() == 1 || exists|
            i: int,
        |
            0 <= i < word.len() && !('0' <= #[trigger] word[i] <= '9')))),
        is_build(word) == (word.len() == 0 || forall|i: int|
            0 <= i < word.len() ==> 'a' <= #[trigger] word[i] <= 'z' || 'A' <= word[i] <= 'Z' || '0'
                <= word[i] <= '9' || word[i] == '-'),
{
    lemma_find_from(word, '.', 0);
    assert(split(word, '.') == seq![word]);
    assert(split(word, '.')[0] == word);
}

} // verus!
