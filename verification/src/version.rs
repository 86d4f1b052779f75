//! Semantic versions.

use vstd::prelude::*;

use crate::text::{
    all_digits, decimal, decimal_text, digit, digit_value, digits_value, is_digit, is_letter,
    option_view, same, split, text_before,
};

verus! {

/// A semantic version.
#[derive(Debug, Clone, PartialEq, Eq)]
pub struct Version {
    pub major: u64,
    pub minor: u64,
    pub patch: u64,
    pub pre: String,
    pub build: String,
}

/// What a `Version` stands for.
pub struct VersionView {
    pub major: u64,
    pub minor: u64,
    pub patch: u64,
    pub pre: Seq<char>,
    pub build: Seq<char>,
}

impl View for Version {
    type V = VersionView;

    open spec fn view(&self) -> VersionView {
        VersionView {
            major: self.major,
            minor: self.minor,
            patch: self.patch,
            pre: self.pre@,
            build: self.build@,
        }
    }
}

/// A letter, a digit or a hyphen.
pub open spec fn is_identifier_char(c: char) -> bool {
    is_letter(c) || is_digit(c) || c == '-'
}

/// Identifier characters, at least one of them.
pub open spec fn is_identifier(s: Seq<char>) -> bool {
    s.len() > 0 && forall|i: int| 0 <= i < s.len() ==> is_identifier_char(#[trigger] s[i])
}

/// A number with a zero in front that it does not need.
pub open spec fn has_leading_zero(s: Seq<char>) -> bool {
    s.len() > 1 && s[0] == '0' && all_digits(s)
}

/// Nothing, or identifiers with dots between them, no number among them with a
/// leading zero.
pub open spec fn is_prerelease(s: Seq<char>) -> bool {
    s.len() == 0 || forall|i: int|
        0 <= i < split(s, '.').len() ==> is_identifier(#[trigger] split(s, '.')[i])
            && !has_leading_zero(split(s, '.')[i])
}

/// Nothing, or identifiers with dots between them.
pub open spec fn is_build(s: Seq<char>) -> bool {
    s.len() == 0 || forall|i: int|
        0 <= i < split(s, '.').len() ==> is_identifier(#[trigger] split(s, '.')[i])
}

impl VersionView {
    /// The pre-release and the build metadata are well formed.
    pub open spec fn is_valid(self) -> bool {
        is_prerelease(self.pre) && is_build(self.build)
    }

    /// The three numbers with dots between them.
    pub open spec fn core_text(self) -> Seq<char> {
        decimal(self.major as nat) + "."@ + decimal(self.minor as nat) + "."@ + decimal(
            self.patch as nat,
        )
    }

    /// The version as text.
    pub open spec fn text(self) -> Seq<char> {
        let core = self.core_text();
        let with_pre = if self.pre.len() > 0 {
            core + "-"@ + self.pre
        } else {
            core
        };
        if self.build.len() > 0 {
            with_pre + "+"@ + self.build
        } else {
            with_pre
        }
    }

    /// The numbers of this version come before those of the other.
    pub open spec fn core_less(self, other: VersionView) -> bool {
        ||| self.major < other.major
        ||| self.major == other.major && self.minor < other.minor
        ||| self.major == other.major && self.minor == other.minor && self.patch < other.patch
    }

    /// The two versions have the same numbers.
    pub open spec fn same_core(self, other: VersionView) -> bool {
        self.major == other.major && self.minor == other.minor && self.patch == other.patch
    }
}

/// The text is that of the version, which is well formed.
pub open spec fn writes(text: Seq<char>, version: VersionView) -> bool {
    version.is_valid() && version.text() == text
}

/// The version that a text writes. There is one at most: see
/// `law_version_text_is_unique`.
pub open spec fn parsed_version(text: Seq<char>) -> Option<VersionView> {
    if exists|version: VersionView| writes(text, version) {
        Some(choose|version: VersionView| writes(text, version))
    } else {
        None
    }
}

/// `semver::Version::parse`: the version that the text writes, where it writes one,
/// by the grammar of Semantic Versioning 2.0.0 with numbers below 2^64.
#[verifier::external_body]
pub(crate) fn parse_version(text: &str) -> (result: Option<Version>)
    ensures
        option_view(result) == parsed_version(text@),
{
    let version = semver::Version::parse(text).ok()?;
    Some(
        Version {
            major: version.major,
            minor: version.minor,
            patch: version.patch,
            pre: version.pre.as_str().to_owned(),
            build: version.build.as_str().to_owned(),
        },
    )
}

/// The one identifier of a pre-release comes before the other: numbers by their value
/// and in front of all others, those in the order of ASCII.
pub open spec fn identifier_before(a: Seq<char>, b: Seq<char>) -> bool {
    if all_digits(a) && all_digits(b) {
        digits_value(a) < digits_value(b)
    } else if all_digits(a) || all_digits(b) {
        all_digits(a)
    } else {
        text_before(a, b)
    }
}

/// The first identifiers that differ decide, and a list comes before its continuations.
pub open spec fn identifiers_before(a: Seq<Seq<char>>, b: Seq<Seq<char>>) -> bool
    decreases a.len(),
{
    if b.len() == 0 {
        false
    } else if a.len() == 0 {
        true
    } else if a[0] != b[0] {
        identifier_before(a[0], b[0])
    } else {
        identifiers_before(a.skip(1), b.skip(1))
    }
}

/// The one pre-release comes before the other; a release, which has none, comes behind
/// its pre-releases.
pub open spec fn pre_before(a: Seq<char>, b: Seq<char>) -> bool {
    a.len() > 0 && (b.len() == 0 || identifiers_before(split(a, '.'), split(b, '.')))
}

/// Whether the first build metadata comes behind the second, which is another, in the
/// order of `semver::BuildMetadata`.
pub uninterp spec fn build_exceeds(left: Seq<char>, right: Seq<char>) -> bool;

/// The first version comes behind the second: the numbers decide first, then the
/// pre-release, and last the build metadata.
pub open spec fn semver_exceeds(left: VersionView, right: VersionView) -> bool {
    if !left.same_core(right) {
        right.core_less(left)
    } else if left.pre != right.pre {
        pre_before(right.pre, left.pre)
    } else {
        left.build != right.build && build_exceeds(left.build, right.build)
    }
}

/// The comparison `>` of `semver::Version`: the numbers decide first, then the
/// pre-release, and last the build metadata, whose order is left unsaid. It is a strict
/// total order.
#[verifier::external_body]
pub(crate) fn exceeds(left: &Version, right: &Version) -> (result: bool)
    requires
        left@.is_valid(),
        right@.is_valid(),
    ensures
        result == semver_exceeds(left@, right@),
        left@.same_core(right@) && left@.pre == right@.pre && left@.build != right@.build
            ==> result == build_exceeds(left@.build, right@.build),
        left@ != right@ ==> result == !semver_exceeds(right@, left@),
        !result ==> forall|other: VersionView|
            other.is_valid() && #[trigger] semver_exceeds(other, right@) ==> semver_exceeds(
                other,
                left@,
            ),
        result ==> forall|other: VersionView|
            other.is_valid() && #[trigger] semver_exceeds(right@, other) ==> semver_exceeds(
                left@,
                other,
            ),
{
    let convert = |version: &Version| semver::Version {
        major: version.major,
        minor: version.minor,
        patch: version.patch,
        pre: semver::Prerelease::new(&version.pre).unwrap(),
        build: semver::BuildMetadata::new(&version.build).unwrap(),
    };
    convert(left) > convert(right)
}

impl Version {
    /// The version as text.
    pub fn to_text(&self) -> (result: String)
        ensures
            result@ == self@.text(),
    {
        let mut result = decimal_text(self.major);
        result.append(".");
        result.append(&decimal_text(self.minor));
        result.append(".");
        result.append(&decimal_text(self.patch));
        proof {
            reveal_strlit("");
        }
        if !same(&self.pre, "") {
            assert(self.pre@.len() > 0) by {
                if self.pre@.len() == 0 {
                    assert(self.pre@ == ""@);
                }
            }
            result.append("-");
            result.append(&self.pre);
        }
        if !same(&self.build, "") {
            assert(self.build@.len() > 0) by {
                if self.build@.len() == 0 {
                    assert(self.build@ == ""@);
                }
            }
            result.append("+");
            result.append(&self.build);
        }
        result
    }

    /// The version that the text writes, where it writes one.
    pub fn parse(text: &str) -> (result: Option<Version>)
        ensures
            option_view(result) == parsed_version(text@),
            result is Some ==> result->0@.is_valid() && result->0@.text() == text@,
    {
        let result = parse_version(text);
        proof {
            if result is Some {
                let version = choose|version: VersionView| writes(text@, version);
                assert(writes(text@, version));
            }
        }
        result
    }
}

/// The decimal digits of a number write that number, and nothing else is in them.
pub proof fn lemma_decimal(n: nat)
    ensures
        decimal(n).len() > 0,
        all_digits(decimal(n)),
        digits_value(decimal(n)) == n,
    decreases n,
{
    reveal_with_fuel(digits_value, 2);
    if n < 10 {
        assert(decimal(n) == seq![digit(n)]);
        assert(decimal(n).drop_last() == Seq::<char>::empty());
        assert(is_digit(digit(n)) && digit_value(digit(n)) == n);
    } else {
        lemma_decimal(n / 10);
        assert(decimal(n).drop_last() == decimal(n / 10));
        assert(is_digit(digit(n % 10)) && digit_value(digit(n % 10)) == n % 10);
    }
}

/// Two texts with a mark behind them that stands in neither are told apart by it.
proof fn lemma_cut_is_unique(a: Seq<char>, x: Seq<char>, b: Seq<char>, y: Seq<char>, c: char)
    requires
        a + seq![c] + x == b + seq![c] + y,
        !a.contains(c),
        !b.contains(c),
    ensures
        a == b,
        x == y,
{
    let s = a + seq![c] + x;
    let t = b + seq![c] + y;
    if a.len() < b.len() {
        assert(s[a.len() as int] == c);
        assert(t[a.len() as int] == b[a.len() as int]);
        assert(b.contains(c));
    } else if b.len() < a.len() {
        assert(t[b.len() as int] == c);
        assert(s[b.len() as int] == a[b.len() as int]);
        assert(a.contains(c));
    }
    assert(s.take(a.len() as int) == a);
    assert(t.take(b.len() as int) == b);
    assert(s.skip(a.len() as int + 1) == x);
    assert(t.skip(b.len() as int + 1) == y);
}

/// Two texts of digits with no digit behind them are told apart by that.
proof fn lemma_digits_are_unique(a: Seq<char>, x: Seq<char>, b: Seq<char>, y: Seq<char>)
    requires
        a + x == b + y,
        all_digits(a),
        all_digits(b),
        x.len() > 0 ==> !is_digit(x[0]),
        y.len() > 0 ==> !is_digit(y[0]),
    ensures
        a == b,
        x == y,
{
    let s = a + x;
    let t = b + y;
    assert(s.len() == t.len());
    if a.len() < b.len() {
        assert(s[a.len() as int] == x[0]);
        assert(t[a.len() as int] == b[a.len() as int]);
    } else if b.len() < a.len() {
        assert(t[b.len() as int] == y[0]);
        assert(s[b.len() as int] == a[b.len() as int]);
    }
    assert(s.take(a.len() as int) == a);
    assert(t.take(b.len() as int) == b);
    assert(s.skip(a.len() as int) == x);
    assert(t.skip(b.len() as int) == y);
}

/// What stands behind the numbers of a version.
spec fn tail_text(version: VersionView) -> Seq<char> {
    let pre = if version.pre.len() > 0 {
        seq!['-'] + version.pre
    } else {
        Seq::empty()
    };
    if version.build.len() > 0 {
        pre + seq!['+'] + version.build
    } else {
        pre
    }
}

proof fn lemma_text_parts(version: VersionView)
    ensures
        version.text() == decimal(version.major as nat) + seq!['.'] + (decimal(version.minor as nat)
            + seq!['.'] + (decimal(version.patch as nat) + tail_text(version))),
{
    reveal_strlit(".");
    reveal_strlit("-");
    reveal_strlit("+");
    assert("."@ == seq!['.']);
    assert("-"@ == seq!['-']);
    assert("+"@ == seq!['+']);
    assert(version.text() == version.core_text() + tail_text(version));
    assert(version.core_text() + tail_text(version) == decimal(version.major as nat) + seq!['.'] + (
    decimal(version.minor as nat) + seq!['.'] + (decimal(version.patch as nat) + tail_text(
        version,
    ))));
}

/// A character of a text stands in one of its pieces, unless it is the mark
/// between them.
proof fn lemma_split_covers(s: Seq<char>, c: char, i: int) -> (piece: int)
    requires
        0 <= i < s.len(),
        s[i] != c,
    ensures
        0 <= piece < split(s, c).len(),
        split(s, c)[piece].contains(s[i]),
    decreases s.len(),
{
    crate::text::lemma_find_from(s, c, 0);
    let at = crate::text::find(s, c);
    if at < s.len() {
        let rest = s.skip(at + 1);
        if i < at {
            assert(s.take(at)[i] == s[i]);
            assert(split(s, c)[0] == s.take(at));
            0
        } else {
            assert(rest[i - at - 1] == s[i]);
            let k = lemma_split_covers(rest, c, i - at - 1);
            assert(split(s, c)[k + 1] == split(rest, c)[k]);
            k + 1
        }
    } else {
        assert(split(s, c)[0] == s);
        0
    }
}

/// A pre-release holds no plus sign.
proof fn lemma_prerelease_has_no_plus(s: Seq<char>)
    requires
        is_prerelease(s),
    ensures
        !s.contains('+'),
{
    if s.contains('+') {
        let i = choose|i: int| 0 <= i < s.len() && s[i] == '+';
        let piece = lemma_split_covers(s, '.', i);
        let part = split(s, '.')[piece];
        let j = choose|j: int| 0 <= j < part.len() && part[j] == s[i];
        assert(is_identifier_char(part[j]));
    }
}

/// A character of a version: one of an identifier, a dot or a plus sign.
pub open spec fn is_version_char(c: char) -> bool {
    is_identifier_char(c) || c == '.' || c == '+'
}

/// Identifiers with dots between them are made of characters of a version.
proof fn lemma_identifier_chars(s: Seq<char>)
    requires
        is_build(s),
    ensures
        forall|i: int| 0 <= i < s.len() ==> is_version_char(#[trigger] s[i]),
{
    assert forall|i: int| 0 <= i < s.len() implies is_version_char(#[trigger] s[i]) by {
        if s[i] != '.' {
            let piece = lemma_split_covers(s, '.', i);
            let part = split(s, '.')[piece];
            let j = choose|j: int| 0 <= j < part.len() && part[j] == s[i];
            assert(is_identifier_char(part[j]));
        }
    }
}

/// The text of a version is made of its characters and begins with a digit. Dots part it
/// into three pieces or more.
pub(crate) proof fn lemma_version_text(version: VersionView)
    requires
        version.is_valid(),
    ensures
        version.text().len() > 0,
        is_digit(version.text()[0]),
        forall|i: int|
            0 <= i < version.text().len() ==> is_version_char(#[trigger] version.text()[i]),
        split(version.text(), '.').len() >= 3,
{
    let a = decimal(version.major as nat);
    let b = decimal(version.minor as nat);
    let c = decimal(version.patch as nat);
    let tail = tail_text(version);
    let text = version.text();
    let second = b + seq!['.'] + (c + tail);
    lemma_decimal(version.major as nat);
    lemma_decimal(version.minor as nat);
    lemma_decimal(version.patch as nat);
    lemma_text_parts(version);
    lemma_identifier_chars(version.build);
    assert(is_build(version.pre));
    lemma_identifier_chars(version.pre);
    assert forall|i: int| 0 <= i < tail.len() implies is_version_char(#[trigger] tail[i]) by {
        let mark: int = if version.pre.len() > 0 {
            version.pre.len() as int + 1
        } else {
            0
        };
        if 0 < i < mark {
            assert(tail[i] == version.pre[i - 1]);
        } else if i > mark {
            assert(tail[i] == version.build[i - mark - 1]);
        }
    }
    assert(text[0] == a[0]);
    assert forall|i: int| 0 <= i < text.len() implies is_version_char(#[trigger] text[i]) by {
        let after = i - a.len() - 1;
        if i < a.len() {
            assert(text[i] == a[i]);
        } else if i > a.len() {
            assert(text[i] == second[after]);
            if after < b.len() {
                assert(second[after] == b[after]);
            } else if after > b.len() {
                let last = after - b.len() - 1;
                assert(second[after] == (c + tail)[last]);
                if last < c.len() {
                    assert((c + tail)[last] == c[last]);
                } else {
                    assert((c + tail)[last] == tail[last - c.len()]);
                }
            }
        }
    }
    assert forall|i: int| 0 <= i < a.len() implies text[i] != '.' by {
        assert(text[i] == a[i]);
        assert(is_digit(a[i]));
    }
    crate::text::lemma_find_is(text, '.', 0, a.len() as int);
    assert(text.skip(a.len() as int + 1) == second);
    assert forall|i: int| 0 <= i < b.len() implies second[i] != '.' by {
        assert(second[i] == b[i]);
        assert(is_digit(b[i]));
    }
    crate::text::lemma_find_is(second, '.', 0, b.len() as int);
    assert(second.skip(b.len() as int + 1) == c + tail);
    assert(split(c + tail, '.').len() >= 1);
    assert(split(second, '.') == seq![second.take(b.len() as int)] + split(c + tail, '.'));
    assert(split(text, '.') == seq![text.take(a.len() as int)] + split(second, '.'));
}

/// Two well-formed versions with the same text are the same version: the text tells
/// a version exactly.
pub proof fn law_version_text_is_unique(left: VersionView, right: VersionView)
    requires
        left.is_valid(),
        right.is_valid(),
        left.text() == right.text(),
    ensures
        left == right,
{
    lemma_text_parts(left);
    lemma_text_parts(right);
    lemma_decimal(left.major as nat);
    lemma_decimal(left.minor as nat);
    lemma_decimal(left.patch as nat);
    lemma_decimal(right.major as nat);
    lemma_decimal(right.minor as nat);
    lemma_decimal(right.patch as nat);
    let l1 = decimal(left.minor as nat) + seq!['.'] + (decimal(left.patch as nat) + tail_text(
        left,
    ));
    let r1 = decimal(right.minor as nat) + seq!['.'] + (decimal(right.patch as nat) + tail_text(
        right,
    ));
    lemma_cut_is_unique(decimal(left.major as nat), l1, decimal(right.major as nat), r1, '.');
    lemma_cut_is_unique(
        decimal(left.minor as nat),
        decimal(left.patch as nat) + tail_text(left),
        decimal(right.minor as nat),
        decimal(right.patch as nat) + tail_text(right),
        '.',
    );
    lemma_digits_are_unique(
        decimal(left.patch as nat),
        tail_text(left),
        decimal(right.patch as nat),
        tail_text(right),
    );
    assert(left.major == right.major && left.minor == right.minor && left.patch == right.patch);
    lemma_prerelease_has_no_plus(left.pre);
    lemma_prerelease_has_no_plus(right.pre);
    let a = tail_text(left);
    let b = tail_text(right);
    assert(a == b);
    if left.pre.len() > 0 {
        assert(a[0] == '-');
        assert(b[0] == '-');
        assert(right.pre.len() > 0);
    } else if right.pre.len() > 0 {
        assert(b[0] == '-');
        assert(a[0] == '-');
    }
    let lp = if left.pre.len() > 0 {
        seq!['-'] + left.pre
    } else {
        Seq::empty()
    };
    let rp = if right.pre.len() > 0 {
        seq!['-'] + right.pre
    } else {
        Seq::empty()
    };
    lemma_marked_has_no_plus(left.pre);
    lemma_marked_has_no_plus(right.pre);
    assert(!Seq::<char>::empty().contains('+'));
    if left.build.len() > 0 && right.build.len() > 0 {
        lemma_cut_is_unique(lp, left.build, rp, right.build, '+');
    } else if left.build.len() > 0 {
        assert(a[lp.len() as int] == '+');
        assert(rp.contains('+'));
    } else if right.build.len() > 0 {
        assert(b[rp.len() as int] == '+');
        assert(lp.contains('+'));
    }
    assert(lp == rp);
    if left.pre.len() > 0 {
        assert(lp.skip(1) == left.pre);
        assert(rp.skip(1) == right.pre);
    } else {
        assert(left.pre == right.pre);
    }
    assert(left.build == right.build);
}

proof fn lemma_marked_has_no_plus(pre: Seq<char>)
    requires
        !pre.contains('+'),
    ensures
        !(seq!['-'] + pre).contains('+'),
{
    let s = seq!['-'] + pre;
    if s.contains('+') {
        let i = choose|i: int| 0 <= i < s.len() && s[i] == '+';
        assert(pre[i - 1] == '+');
    }
}

/// What is written is read back: the text of a well-formed version is parsed as
/// that version.
pub proof fn law_version_is_read_back(version: VersionView)
    requires
        version.is_valid(),
    ensures
        parsed_version(version.text()) == Some(version),
{
    assert(writes(version.text(), version));
    let found = choose|found: VersionView| writes(version.text(), found);
    law_version_text_is_unique(found, version);
}

} // verus!
