//! Which commands of workflow files are told as scripts.

use vstd::prelude::*;

use crate::model::{ScriptType, ScriptUsageView};
use crate::pattern::{in_class, Class};
use crate::scan_laws::{begins_with, holds, is_gap};
use crate::scripts::{
    command_on, is_in_block, is_word, key_column, open_block, opens_block, runs, usages_on,
    usages_on_line, word_type,
};
use crate::text::{ends_with, is_space, occurs_at, trim};
use crate::text_laws::law_cut_at_the_last_mark;
use crate::workflow_laws::lemma_run_end_is;

verus! {

// ---------------------------------------------------------------------------
// Words
// ---------------------------------------------------------------------------
/// The character stands between two words of a command.
pub open spec fn parts_words(c: char) -> bool {
    ||| is_space(c)
    ||| c == ';'
    ||| c == '&'
    ||| c == '|'
    ||| c == '('
    ||| c == ')'
    ||| c == '"'
    ||| c == '\''
    ||| c == '`'
}

/// The word stands on its own between what is in front of it and what is behind it.
pub open spec fn stands_alone(front: Seq<char>, word: Seq<char>, back: Seq<char>) -> bool {
    &&& word.len() > 0
    &&& forall|i: int| 0 <= i < word.len() ==> !parts_words(#[trigger] word[i])
    &&& front.len() > 0 ==> parts_words(front.last())
    &&& back.len() > 0 ==> parts_words(back[0])
}

/// The text ends with the other.
pub open spec fn ends_in(text: Seq<char>, back: Seq<char>) -> bool {
    text.len() >= back.len() && text.skip(text.len() - back.len()) == back
}

/// The name of a shell or of a shell script.
pub open spec fn is_shell(name: Seq<char>) -> bool {
    name == "bash"@ || name == "sh"@ || ends_in(name, ".sh"@)
}

/// The name of Python or of a Python script.
pub open spec fn is_python(name: Seq<char>) -> bool {
    name == "python"@ || name == "python3"@ || ends_in(name, ".py"@)
}

/// The word is the name, or the name behind a directory.
pub open spec fn is_called(word: Seq<char>, name: Seq<char>) -> bool {
    &&& !name.contains('/')
    &&& word == name || exists|directory: Seq<char>| word == #[trigger] (directory + seq!['/'])
        + name
}

/// A command runs a script of a type exactly when one of its words is the name of such a
/// script, with or without a directory.
pub proof fn law_script_words_are_seen(text: Seq<char>)
    ensures
        runs(text, ScriptType::Bash) == has_shell_word(text),
        runs(text, ScriptType::Python) == has_python_word(text),
{
    if runs(text, ScriptType::Bash) {
        let (from, to) = choose|from: int, to: int|
            #[trigger] is_word(text, from, to) && word_type(text.subrange(from, to)) == Some(
                ScriptType::Bash,
            );
        lemma_word(text, from, to);
        let word = text.subrange(from, to);
        lemma_named(word);
        lemma_type(word);
        assert(names_a_shell(word));
        assert(is_word_of(text, text.take(from), word, text.skip(to)));
    }
    if runs(text, ScriptType::Python) {
        let (from, to) = choose|from: int, to: int|
            #[trigger] is_word(text, from, to) && word_type(text.subrange(from, to)) == Some(
                ScriptType::Python,
            );
        lemma_word(text, from, to);
        let word = text.subrange(from, to);
        lemma_named(word);
        lemma_type(word);
        assert(names_python(word));
        assert(is_word_of(text, text.take(from), word, text.skip(to)));
    }
    if has_shell_word(text) {
        let (front, word, back) = choose|front: Seq<char>, word: Seq<char>, back: Seq<char>|
            #[trigger] is_word_of(text, front, word, back) && names_a_shell(word);
        lemma_word_of(text, front, word, back);
        let name = choose|name: Seq<char>| #[trigger] is_called(word, name) && is_shell(name);
        lemma_name(word, name);
        lemma_type(word);
        assert(is_word(text, front.len() as int, (front.len() + word.len()) as int));
    }
    if has_python_word(text) {
        let (front, word, back) = choose|front: Seq<char>, word: Seq<char>, back: Seq<char>|
            #[trigger] is_word_of(text, front, word, back) && names_python(word);
        lemma_word_of(text, front, word, back);
        let name = choose|name: Seq<char>| #[trigger] is_called(word, name) && is_python(name);
        lemma_name(word, name);
        lemma_type(word);
        assert(is_word(text, front.len() as int, (front.len() + word.len()) as int));
    }
}

/// The word stands on its own in the text.
pub open spec fn is_word_of(
    text: Seq<char>,
    front: Seq<char>,
    word: Seq<char>,
    back: Seq<char>,
) -> bool {
    text == front + word + back && stands_alone(front, word, back)
}

/// The word names a shell or a shell script.
pub open spec fn names_a_shell(word: Seq<char>) -> bool {
    exists|name: Seq<char>| #[trigger] is_called(word, name) && is_shell(name)
}

/// The word names Python or a Python script.
pub open spec fn names_python(word: Seq<char>) -> bool {
    exists|name: Seq<char>| #[trigger] is_called(word, name) && is_python(name)
}

/// Some word of the text names a shell or a shell script.
pub open spec fn has_shell_word(text: Seq<char>) -> bool {
    exists|front: Seq<char>, word: Seq<char>, back: Seq<char>|
        #[trigger] is_word_of(text, front, word, back) && names_a_shell(word)
}

/// Some word of the text names Python or a Python script.
pub open spec fn has_python_word(text: Seq<char>) -> bool {
    exists|front: Seq<char>, word: Seq<char>, back: Seq<char>|
        #[trigger] is_word_of(text, front, word, back) && names_python(word)
}

proof fn lemma_word(text: Seq<char>, from: int, to: int)
    requires
        is_word(text, from, to),
    ensures
        is_word_of(text, text.take(from), text.subrange(from, to), text.skip(to)),
{
    let front = text.take(from);
    let word = text.subrange(from, to);
    let back = text.skip(to);
    assert(text == front + word + back);
    assert forall|i: int| 0 <= i < word.len() implies !parts_words(#[trigger] word[i]) by {
        assert(word[i] == text[from + i]);
    }
    if front.len() > 0 {
        assert(front.last() == text[from - 1]);
    }
    if back.len() > 0 {
        assert(back[0] == text[to]);
    }
}

proof fn lemma_word_of(text: Seq<char>, front: Seq<char>, word: Seq<char>, back: Seq<char>)
    requires
        is_word_of(text, front, word, back),
    ensures
        is_word(text, front.len() as int, (front.len() + word.len()) as int),
        text.subrange(front.len() as int, (front.len() + word.len()) as int) == word,
{
    let from = front.len() as int;
    let to = (front.len() + word.len()) as int;
    assert forall|i: int| from <= i < to implies !crate::scripts::is_break(#[trigger] text[i]) by {
        assert(text[i] == word[i - from]);
    }
    if from > 0 {
        assert(text[from - 1] == front.last());
    }
    if to < text.len() {
        assert(text[to] == back[0]);
    }
    assert(text.subrange(from, to) == word);
}

proof fn lemma_named(word: Seq<char>)
    ensures
        is_called(word, crate::paths::file_name(word)),
{
    crate::workflow_laws::lemma_find_last(word, '/', word.len() as int);
    let at = crate::text::find_last_before(word, '/', word.len() as int);
    let name = crate::paths::file_name(word);
    if at >= 0 {
        assert(word == (word.take(at) + seq!['/']) + name);
    }
    assert(!name.contains('/')) by {
        if name.contains('/') {
            let i = choose|i: int| 0 <= i < name.len() && name[i] == '/';
            assert(word[at + 1 + i] == '/');
        }
    }
}

proof fn lemma_name(word: Seq<char>, name: Seq<char>)
    requires
        is_called(word, name),
    ensures
        crate::paths::file_name(word) == name,
{
    if word == name {
        law_cut_at_the_last_mark(Seq::empty(), name, '/');
    } else {
        let directory = choose|directory: Seq<char>| word == #[trigger] (directory + seq!['/'])
            + name;
        law_cut_at_the_last_mark(directory, name, '/');
    }
}

proof fn lemma_type(word: Seq<char>)
    ensures
        (word_type(word) == Some(ScriptType::Bash)) == is_shell(crate::paths::file_name(word)),
        (word_type(word) == Some(ScriptType::Python)) == is_python(crate::paths::file_name(word)),
{
    reveal_strlit("bash");
    reveal_strlit("sh");
    reveal_strlit(".sh");
    reveal_strlit("python");
    reveal_strlit("python3");
    reveal_strlit(".py");
    let name = crate::paths::file_name(word);
    lemma_ends(name, ".sh"@);
    lemma_ends(name, ".py"@);
    if ends_in(name, ".sh"@) {
        assert(name.last() == name.skip(name.len() - 3)[2]);
    }
    if ends_in(name, ".py"@) {
        assert(name.last() == name.skip(name.len() - 3)[2]);
    }
}

pub(crate) proof fn lemma_ends(text: Seq<char>, back: Seq<char>)
    ensures
        ends_with(text, back) == ends_in(text, back),
{
    if text.len() >= back.len() {
        assert(text.subrange(text.len() - back.len(), text.len() as int) == text.skip(
            text.len() - back.len(),
        ));
    }
}

// ---------------------------------------------------------------------------
// Lines
// ---------------------------------------------------------------------------
/// A key at some indentation, perhaps behind the mark of a list.
pub open spec fn key_text(
    pad: Seq<char>,
    mark: Seq<char>,
    key: Seq<char>,
    rest: Seq<char>,
) -> Seq<char> {
    pad + mark + key + rest
}

/// The parts of such a line can be told apart.
pub open spec fn are_key_parts(pad: Seq<char>, mark: Seq<char>) -> bool {
    &&& is_gap(pad)
    &&& mark.len() > 0 ==> mark[0] == '-' && is_gap(mark.skip(1))
}

proof fn lemma_key(pad: Seq<char>, mark: Seq<char>, key: Seq<char>, rest: Seq<char>)
    requires
        are_key_parts(pad, mark),
        key.len() > 0,
        !is_space(key[0]),
        key[0] != '-',
    ensures
        key_column(key_text(pad, mark, key, rest)) == pad.len() + mark.len(),
        occurs_at(
            key_text(pad, mark, key, rest),
            key,
            (pad.len() + mark.len()) as int,
        ),
        key_text(pad, mark, key, rest).skip((pad.len() + mark.len() + key.len()) as int) == rest,
        key_text(pad, mark, key, rest).len() > pad.len() + mark.len(),
{
    let s = key_text(pad, mark, key, rest);
    let a = pad.len() as int;
    let b = a + mark.len();
    assert forall|i: int| 0 <= i < a implies in_class(Class::Space, #[trigger] s[i]) by {
        assert(s[i] == pad[i]);
    }
    assert(s[b] == key[0]);
    if mark.len() > 0 {
        assert(s[a] == mark[0]);
        assert forall|i: int| a + 1 <= i < b implies in_class(Class::Space, #[trigger] s[i]) by {
            assert(s[i] == mark.skip(1)[i - a - 1]);
        }
        lemma_run_end_is(s, 0, a, Class::Space);
        lemma_run_end_is(s, a + 1, b, Class::Space);
    } else {
        lemma_run_end_is(s, 0, a, Class::Space);
    }
    assert(s.subrange(b, b + key.len()) == key);
    assert(s.skip(b + key.len()) == rest);
}

/// A `run` key with `|` or `>` behind it opens a block, below its own column; with anything
/// else behind it, it opens none.
pub proof fn law_block_scalar_opens_a_block(
    pad: Seq<char>,
    mark: Seq<char>,
    gap: Seq<char>,
    value: Seq<char>,
)
    requires
        are_key_parts(pad, mark),
        is_gap(gap),
        value.len() > 0 ==> !is_space(value[0]) && !is_space(value.last()),
    ensures
        opens_block(key_text(pad, mark, "run:"@, gap + value)) == (value.len() > 0 && (value[0]
            == '|' || value[0] == '>')),
        key_column(key_text(pad, mark, "run:"@, gap + value)) == pad.len() + mark.len(),
{
    reveal_strlit("run:");
    reveal_strlit("|");
    reveal_strlit(">");
    lemma_key(pad, mark, "run:"@, gap + value);
    crate::text_laws::law_white_space_is_trimmed(gap, value, Seq::empty());
    assert(gap + value + Seq::<char>::empty() == gap + value);
    if value.len() > 0 {
        assert(value.subrange(0, 1)[0] == value[0]);
        if value[0] == '|' {
            assert(value.subrange(0, 1) == "|"@);
        }
        if value[0] == '>' {
            assert(value.subrange(0, 1) == ">"@);
        }
    }
}

/// A line is in a block when it is blank or starts further right than the key of the block.
pub proof fn law_block_is_what_is_indented(pad: Seq<char>, rest: Seq<char>, column: int)
    requires
        is_gap(pad),
        rest.len() > 0 ==> !is_space(rest[0]),
    ensures
        is_in_block(pad + rest, column) == (rest.len() == 0 || pad.len() > column),
{
    let s = pad + rest;
    assert forall|i: int| 0 <= i < pad.len() implies in_class(Class::Space, #[trigger] s[i]) by {
        assert(s[i] == pad[i]);
    }
    if rest.len() > 0 {
        assert(s[pad.len() as int] == rest[0]);
    }
    lemma_run_end_is(s, 0, pad.len() as int, Class::Space);
}

/// The line lies in the block of no line in front of it that could open one.
pub open spec fn is_outside_blocks(all: Seq<Seq<char>>, i: int) -> bool {
    forall|m: int|
        0 <= m < i && opens_block(#[trigger] all[m]) ==> !is_in_block(all[i], key_column(all[m]))
}

proof fn lemma_open_block(all: Seq<Seq<char>>)
    ensures
        open_block(all) matches Some(column) ==> exists|m: int|
            0 <= m < all.len() && opens_block(#[trigger] all[m]) && key_column(all[m]) == column,
    decreases all.len(),
{
    if all.len() > 0 {
        let front = all.drop_last();
        lemma_open_block(front);
        match open_block(all) {
            Some(column) => {
                if open_block(front) == Some(column) && is_in_block(all.last(), column) {
                    let m = choose|m: int|
                        0 <= m < front.len() && opens_block(#[trigger] front[m]) && key_column(
                            front[m],
                        ) == column;
                    assert(all[m] == front[m]);
                } else {
                    assert(opens_block(all[all.len() - 1]));
                }
            },
            None => {},
        }
    }
}

proof fn lemma_outside(all: Seq<Seq<char>>, i: int)
    requires
        0 <= i < all.len(),
        is_outside_blocks(all, i),
    ensures
        open_block(all.take(i)) matches Some(column) ==> !is_in_block(all[i], column),
{
    let front = all.take(i);
    lemma_open_block(front);
    match open_block(front) {
        Some(column) => {
            let m = choose|m: int|
                0 <= m < front.len() && opens_block(#[trigger] front[m]) && key_column(front[m])
                    == column;
            assert(all[m] == front[m]);
        },
        None => {},
    }
}

/// What runs on a line behind `run` or `shell`, outside every block, is told with the line.
pub proof fn law_command_of_a_key_is_told(
    file: Seq<char>,
    all: Seq<Seq<char>>,
    i: int,
    pad: Seq<char>,
    mark: Seq<char>,
    key: Seq<char>,
    gap: Seq<char>,
    value: Seq<char>,
    script_type: ScriptType,
)
    requires
        0 <= i < all.len(),
        is_outside_blocks(all, i),
        are_key_parts(pad, mark),
        is_gap(gap),
        value.len() > 0 ==> !is_space(value[0]) && !is_space(value.last()),
        key == "run:"@ && !(value.len() > 0 && (value[0] == '|' || value[0] == '>')) || key
            == "shell:"@,
        all[i] == key_text(pad, mark, key, gap + value),
    ensures
        runs(gap + value, script_type) == usages_on(file, all).contains(
            told(file, all[i], i + 1, script_type),
        ),
{
    reveal_strlit("run:");
    reveal_strlit("shell:");
    lemma_outside(all, i);
    lemma_key(pad, mark, key, gap + value);
    let at = (pad.len() + mark.len()) as int;
    if key == "run:"@ {
        law_block_scalar_opens_a_block(pad, mark, gap, value);
    } else {
        assert(all[i][at] == 's') by {
            assert(all[i].subrange(at, at + 6)[0] == key[0]);
        }
        assert(!occurs_at(all[i], "run:"@, at)) by {
            if occurs_at(all[i], "run:"@, at) {
                assert(all[i].subrange(at, at + 4)[0] == 'r');
            }
        }
    }
    assert(command_on(all[i], open_block(all.take(i))) == Some(gap + value));
    lemma_told(file, all, i, script_type);
}

/// What runs on a line of a block is told with the line, unless the line is a comment.
pub proof fn law_command_of_a_block_is_told(
    file: Seq<char>,
    all: Seq<Seq<char>>,
    h: int,
    i: int,
    script_type: ScriptType,
)
    requires
        0 <= h < i < all.len(),
        is_outside_blocks(all, h),
        opens_block(all[h]),
        forall|m: int| h < m <= i ==> is_in_block(#[trigger] all[m], key_column(all[h])),
    ensures
        !begins_with(trim(all[i]), "#"@) ==> runs(all[i], script_type) == usages_on(
            file,
            all,
        ).contains(told(file, all[i], i + 1, script_type)),
        begins_with(trim(all[i]), "#"@) ==> !usages_on(file, all).contains(
            told(file, all[i], i + 1, script_type),
        ),
{
    lemma_outside(all, h);
    lemma_block_goes_on(all, h, i);
    crate::scan_laws::lemma_starts(trim(all[i]), "#"@);
    lemma_told(file, all, i, script_type);
}

proof fn lemma_block_goes_on(all: Seq<Seq<char>>, h: int, i: int)
    requires
        0 <= h < i <= all.len(),
        opens_block(all[h]),
        open_block(all.take(h)) matches Some(column) ==> !is_in_block(all[h], column),
        forall|m: int| h < m < i ==> is_in_block(#[trigger] all[m], key_column(all[h])),
    ensures
        open_block(all.take(i)) == Some(key_column(all[h])),
    decreases i,
{
    let now = all.take(i);
    assert(now.drop_last() == all.take(i - 1));
    assert(now.last() == all[i - 1]);
    if i - 1 > h {
        lemma_block_goes_on(all, h, i - 1);
    }
}

/// What is told of a line.
pub open spec fn told(
    file: Seq<char>,
    line: Seq<char>,
    number: int,
    script_type: ScriptType,
) -> ScriptUsageView {
    ScriptUsageView { file, line_number: number as nat, script_type, context: line }
}

proof fn lemma_told(file: Seq<char>, all: Seq<Seq<char>>, i: int, script_type: ScriptType)
    requires
        0 <= i < all.len(),
    ensures
        usages_on(file, all).contains(told(file, all[i], i + 1, script_type)) == (command_on(
            all[i],
            open_block(all.take(i)),
        ) matches Some(text) && runs(text, script_type)),
    decreases all.len(),
{
    let front = all.drop_last();
    let before = usages_on(file, front);
    let last = usages_on_line(file, all.last(), all.len(), command_on(all.last(), open_block(front)));
    let now = usages_on(file, all);
    let usage = told(file, all[i], i + 1, script_type);
    assert(now == before + last);
    lemma_numbers(file, front);
    if i == all.len() - 1 {
        assert(all.take(i) == front);
        if now.contains(usage) {
            let k = choose|k: int| 0 <= k < now.len() && now[k] == usage;
            if k < before.len() {
                assert(before[k] == usage);
            } else {
                assert(last[k - before.len()] == usage);
            }
        }
        match command_on(all[i], open_block(front)) {
            Some(text) => {
                if runs(text, script_type) {
                    let k: int = if script_type == ScriptType::Bash {
                        0
                    } else {
                        last.len() - 1
                    };
                    assert(last[k] == usage);
                    assert(now[before.len() + k] == usage);
                }
            },
            None => {},
        }
    } else {
        assert(front[i] == all[i]);
        assert(front.take(i) == all.take(i));
        lemma_told(file, front, i, script_type);
        if before.contains(usage) {
            let k = choose|k: int| 0 <= k < before.len() && before[k] == usage;
            assert(now[k] == usage);
        }
        if now.contains(usage) {
            let k = choose|k: int| 0 <= k < now.len() && now[k] == usage;
            if k < before.len() {
                assert(before[k] == usage);
            } else {
                assert(last[k - before.len()] == usage);
            }
        }
    }
}

proof fn lemma_numbers(file: Seq<char>, all: Seq<Seq<char>>)
    ensures
        forall|k: int|
            0 <= k < usages_on(file, all).len() ==> 1 <= (#[trigger] usages_on(
                file,
                all,
            )[k]).line_number <= all.len(),
    decreases all.len(),
{
    if all.len() > 0 {
        let front = all.drop_last();
        lemma_numbers(file, front);
        let before = usages_on(file, front);
        let now = usages_on(file, all);
        assert forall|k: int| 0 <= k < now.len() implies 1 <= (#[trigger] now[k]).line_number
            <= all.len() by {
            if k < before.len() {
                assert(now[k] == before[k]);
            }
        }
    }
}

/// What is told stands on its line: the file, the number and the line are right, and in it or
/// in front of it there is a `run` or a `shell` key.
pub proof fn law_scripts_are_told_for_a_reason(file: Seq<char>, all: Seq<Seq<char>>)
    ensures
        forall|k: int|
            0 <= k < usages_on(file, all).len() ==> is_told_rightly(
                file,
                all,
                #[trigger] usages_on(file, all)[k],
            ),
    decreases all.len(),
{
    reveal_strlit("run:");
    reveal_strlit("shell:");
    if all.len() > 0 {
        let front = all.drop_last();
        law_scripts_are_told_for_a_reason(file, front);
        let before = usages_on(file, front);
        let command = command_on(all.last(), open_block(front));
        let last = usages_on_line(file, all.last(), all.len(), command);
        let now = usages_on(file, all);
        let line = all.last();
        assert(now == before + last);
        assert(all[all.len() - 1] == line);
        lemma_open_block(front);
        assert forall|k: int| 0 <= k < now.len() implies is_told_rightly(
            file,
            all,
            #[trigger] now[k],
        ) by {
            if k < before.len() {
                assert(now[k] == before[k]);
                let usage = before[k];
                assert(is_told_rightly(file, front, usage));
                assert(front[usage.line_number - 1] == all[usage.line_number - 1]);
                let m = choose|m: int| 0 <= m < usage.line_number && has_a_key(#[trigger] front[m]);
                assert(has_a_key(all[m]));
            } else {
                assert(now[k] == last[k - before.len()]);
                let at = key_column(line);
                if open_block(front) matches Some(column) && is_in_block(line, column) {
                    let m = choose|m: int|
                        0 <= m < front.len() && opens_block(#[trigger] front[m]) && key_column(
                            front[m],
                        ) == open_block(front)->0;
                    let c = key_column(front[m]);
                    assert(front[m].subrange(c, c + "run:"@.len()) == "run:"@);
                    assert(has_a_key(all[m]));
                } else {
                    if occurs_at(line, "run:"@, at) {
                        assert(line.subrange(at, at + "run:"@.len()) == "run:"@);
                    } else {
                        assert(line.subrange(at, at + "shell:"@.len()) == "shell:"@);
                    }
                    assert(has_a_key(all[all.len() - 1]));
                }
            }
        }
    }
}

/// The line holds a `run` or a `shell` key.
pub open spec fn has_a_key(line: Seq<char>) -> bool {
    holds(line, "run:"@) || holds(line, "shell:"@)
}

/// What is told is the line of that number, on or behind a key.
pub open spec fn is_told_rightly(
    file: Seq<char>,
    all: Seq<Seq<char>>,
    usage: ScriptUsageView,
) -> bool {
    &&& usage.file == file
    &&& 1 <= usage.line_number <= all.len()
    &&& usage.context == all[usage.line_number - 1]
    &&& exists|m: int| 0 <= m < usage.line_number && has_a_key(#[trigger] all[m])
}

} // verus!
