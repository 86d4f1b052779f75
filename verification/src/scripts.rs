//! Finding the scripts that workflow files run.

use vstd::prelude::*;

use crate::model::{ScriptType, ScriptUsage, ScriptUsageView};
use crate::paths::file_name;
use crate::pattern::{is_at, run_end, Class};
use crate::text::{
    begins, characters, cut_last, ends, ends_with, is_space, lines, lines_of, occurs_at,
    option_view, same, space, starts_with, text_between, trim, trimmed, views, without_prefix,
};
use crate::workflow::WorkflowFile;

verus! {

/// A character that ends a word of a command: white space, an operator, a bracket or
/// a quotation mark.
pub open spec fn is_break(c: char) -> bool {
    is_space(c) || c == ';' || c == '&' || c == '|' || c == '(' || c == ')' || c == '"' || c == '\''
        || c == '`'
}

/// A word of a command, as long as it can be.
pub open spec fn is_word(text: Seq<char>, from: int, to: int) -> bool {
    &&& 0 <= from < to <= text.len()
    &&& forall|i: int| from <= i < to ==> !is_break(#[trigger] text[i])
    &&& from > 0 ==> is_break(text[from - 1])
    &&& to < text.len() ==> is_break(text[to])
}

/// The language that a word of a command runs: it names an interpreter or a script.
pub open spec fn word_type(word: Seq<char>) -> Option<ScriptType> {
    let name = file_name(word);
    if name == "bash"@ || name == "sh"@ || ends_with(name, ".sh"@) {
        Some(ScriptType::Bash)
    } else if name == "python"@ || name == "python3"@ || ends_with(name, ".py"@) {
        Some(ScriptType::Python)
    } else {
        None
    }
}

/// A word of the command runs the language.
pub open spec fn runs(text: Seq<char>, script_type: ScriptType) -> bool {
    exists|from: int, to: int|
        #[trigger] is_word(text, from, to) && word_type(text.subrange(from, to)) == Some(
            script_type,
        )
}

/// Where the key of a line stands, behind the indentation and a list marker.
pub open spec fn key_column(line: Seq<char>) -> int {
    let indent = run_end(line, 0, Class::Space);
    if is_at(line, indent, '-') {
        run_end(line, indent + 1, Class::Space)
    } else {
        indent
    }
}

/// The line opens a block of commands: `run:` with a block of text behind it.
pub open spec fn opens_block(line: Seq<char>) -> bool {
    let at = key_column(line);
    let value = trim(line.skip(at + 4));
    occurs_at(line, "run:"@, at) && (starts_with(value, "|"@) || starts_with(value, ">"@))
}

/// The line belongs to a block whose key stands at the column.
pub open spec fn is_in_block(line: Seq<char>, column: int) -> bool {
    let indent = run_end(line, 0, Class::Space);
    indent == line.len() || indent > column
}

/// The column of the block that is open behind the lines.
pub open spec fn open_block(all: Seq<Seq<char>>) -> Option<int>
    decreases all.len(),
{
    if all.len() == 0 {
        None
    } else {
        match open_block(all.drop_last()) {
            Some(column) => if is_in_block(all.last(), column) {
                Some(column)
            } else if opens_block(all.last()) {
                Some(key_column(all.last()))
            } else {
                None
            },
            None => if opens_block(all.last()) {
                Some(key_column(all.last()))
            } else {
                None
            },
        }
    }
}

/// The command on a line, given the block that is open before it.
pub open spec fn command_on(line: Seq<char>, block: Option<int>) -> Option<Seq<char>> {
    let at = key_column(line);
    if block matches Some(column) && is_in_block(line, column) {
        if starts_with(trim(line), "#"@) {
            None
        } else {
            Some(line)
        }
    } else if opens_block(line) {
        None
    } else if occurs_at(line, "run:"@, at) {
        Some(line.skip(at + 4))
    } else if occurs_at(line, "shell:"@, at) {
        Some(line.skip(at + 6))
    } else {
        None
    }
}

/// A use of a language.
pub open spec fn usage(
    file: Seq<char>,
    line: Seq<char>,
    number: nat,
    script_type: ScriptType,
) -> ScriptUsageView {
    ScriptUsageView { file, line_number: number, script_type, context: line }
}

/// The uses on a line: of each language one at most.
pub open spec fn usages_on_line(
    file: Seq<char>,
    line: Seq<char>,
    number: nat,
    command: Option<Seq<char>>,
) -> Seq<ScriptUsageView> {
    match command {
        Some(text) => {
            let bash = if runs(text, ScriptType::Bash) {
                seq![usage(file, line, number, ScriptType::Bash)]
            } else {
                Seq::empty()
            };
            if runs(text, ScriptType::Python) {
                bash.push(usage(file, line, number, ScriptType::Python))
            } else {
                bash
            }
        },
        None => Seq::empty(),
    }
}

/// The uses on the lines.
pub open spec fn usages_on(file: Seq<char>, all: Seq<Seq<char>>) -> Seq<ScriptUsageView>
    decreases all.len(),
{
    if all.len() == 0 {
        Seq::empty()
    } else {
        usages_on(file, all.drop_last()) + usages_on_line(
            file,
            all.last(),
            all.len(),
            command_on(all.last(), open_block(all.drop_last())),
        )
    }
}

fn breaks(c: char) -> (result: bool)
    ensures
        result == is_break(c),
{
    space(c) || c == ';' || c == '&' || c == '|' || c == '(' || c == ')' || c == '"' || c == '\''
        || c == '`'
}

fn read_word(word: &str) -> (result: Option<ScriptType>)
    ensures
        result == word_type(word@),
{
    let name = match cut_last(word, '/') {
        Some((_, name)) => name,
        None => word.to_owned(),
    };
    if same(&name, "bash") || same(&name, "sh") || ends(&name, ".sh") {
        Some(ScriptType::Bash)
    } else if same(&name, "python") || same(&name, "python3") || ends(&name, ".py") {
        Some(ScriptType::Python)
    } else {
        None
    }
}

/// Whether a command runs Bash, and whether it runs Python.
fn languages(text: &str) -> (result: (bool, bool))
    ensures
        result.0 == runs(text@, ScriptType::Bash),
        result.1 == runs(text@, ScriptType::Python),
{
    let chars = characters(text);
    let ghost s = text@;
    let mut bash = false;
    let mut python = false;
    let mut at: usize = 0;
    while at < chars.len()
        invariant
            at <= chars.len(),
            chars@ == s,
            s == text@,
            0 < at < chars.len() ==> is_break(s[at - 1]),
            bash ==> runs(s, ScriptType::Bash),
            python ==> runs(s, ScriptType::Python),
            forall|from: int, to: int|
                #[trigger] is_word(s, from, to) && from < at ==> {
                    &&& word_type(s.subrange(from, to)) == Some(ScriptType::Bash) ==> bash
                    &&& word_type(s.subrange(from, to)) == Some(ScriptType::Python) ==> python
                },
        decreases chars.len() - at,
    {
        let start = at;
        while at < chars.len() && !breaks(chars[at])
            invariant
                start <= at <= chars.len(),
                chars@ == s,
                forall|i: int| start <= i < at ==> !is_break(#[trigger] s[i]),
            decreases chars.len() - at,
        {
            at = at + 1;
        }
        let ghost end = at as int;
        let found = if start < at {
            read_word(&text_between(&chars, start, at))
        } else {
            None
        };
        if start < at {
            assert(is_word(s, start as int, end));
        }
        match found {
            Some(ScriptType::Bash) => {
                bash = true;
            },
            Some(ScriptType::Python) => {
                python = true;
            },
            None => {},
        }
        proof {
            assert forall|from: int, to: int| #[trigger] is_word(s, from, to) && from < end + 1 implies {
                &&& word_type(s.subrange(from, to)) == Some(ScriptType::Bash) ==> bash
                &&& word_type(s.subrange(from, to)) == Some(ScriptType::Python) ==> python
            } by {
                if from >= start {
                    if from == end {
                        assert(!is_break(s[from]));
                    } else if from > start {
                        assert(!is_break(s[from - 1]));
                    } else if to > end {
                        assert(!is_break(s[end]));
                    } else if to < end {
                        assert(!is_break(s[to]));
                    }
                }
            }
        }
        if at < chars.len() {
            at = at + 1;
        }
    }
    (bash, python)
}

/// Where the indentation of a line ends, and where its key stands.
fn columns(chars: &Vec<char>) -> (result: (usize, usize))
    ensures
        result.0 == run_end(chars@, 0, Class::Space),
        result.1 == key_column(chars@),
        result.0 <= result.1 <= chars.len(),
{
    let indent = spaces_from(chars, 0);
    let mut key = indent;
    if indent < chars.len() && chars[indent] == '-' {
        key = spaces_from(chars, indent + 1);
    }
    (indent, key)
}

/// Where the white space from a place on ends.
fn spaces_from(chars: &Vec<char>, from: usize) -> (result: usize)
    requires
        from <= chars.len(),
    ensures
        result == run_end(chars@, from as int, Class::Space),
        from <= result <= chars.len(),
{
    let mut at: usize = from;
    while at < chars.len() && space(chars[at])
        invariant
            from <= at <= chars.len(),
            run_end(chars@, from as int, Class::Space) == run_end(chars@, at as int, Class::Space),
        decreases chars.len() - at,
    {
        at = at + 1;
    }
    at
}

/// The command on a line, and the block that is open behind it.
fn read_line(line: &str, block: Option<usize>) -> (result: (Option<String>, Option<usize>))
    ensures
        ({
            let before = match block {
                Some(column) => Some(column as int),
                None => None,
            };
            let after = match result.1 {
                Some(column) => Some(column as int),
                None => None,
            };
            &&& option_view(result.0) == command_on(line@, before)
            &&& after == (match before {
                Some(column) => if is_in_block(line@, column) {
                    Some(column)
                } else if opens_block(line@) {
                    Some(key_column(line@))
                } else {
                    None
                },
                None => if opens_block(line@) {
                    Some(key_column(line@))
                } else {
                    None
                },
            })
        }),
{
    let chars = characters(line);
    let (indent, key) = columns(&chars);
    match block {
        Some(column) => {
            if indent == chars.len() || indent > column {
                let command = if begins(&trimmed(line), "#") {
                    None
                } else {
                    Some(line.to_owned())
                };
                return (command, block);
            }
        },
        None => {},
    }
    let rest = text_between(&chars, key, chars.len());
    proof {
        reveal_strlit("run:");
        reveal_strlit("shell:");
        assert(rest@ == line@.skip(key as int));
        lemma_occurs_at(line@, "run:"@, key as int);
        lemma_occurs_at(line@, "shell:"@, key as int);
        assert(rest@.skip(4) == line@.skip(key + 4) || rest@.len() < 4);
        assert(rest@.skip(6) == line@.skip(key + 6) || rest@.len() < 6);
    }
    match without_prefix(&rest, "run:") {
        Some(value) => {
            let text = trimmed(&value);
            if begins(&text, "|") || begins(&text, ">") {
                (None, Some(key))
            } else {
                (Some(value), None)
            }
        },
        None => (without_prefix(&rest, "shell:"), None),
    }
}

/// A text that stands at a place begins what is there.
proof fn lemma_occurs_at(s: Seq<char>, needle: Seq<char>, at: int)
    requires
        0 <= at <= s.len(),
    ensures
        occurs_at(s, needle, at) == starts_with(s.skip(at), needle),
{
    if at + needle.len() <= s.len() {
        assert(s.skip(at).subrange(0, needle.len() as int) == s.subrange(at, at + needle.len()));
    }
}

/// The lines of a workflow file that run Bash or Python: an interpreter or a script
/// in a `run:` command or block, or an interpreter in a `shell:` declaration.
pub fn scan_workflow_scripts(file: &WorkflowFile) -> (result: Vec<ScriptUsage>)
    ensures
        views(result@) == usages_on(file.path@, lines(file.content@)),
{
    let all = lines_of(&file.content);
    let ghost seen = views(all@);
    let mut result: Vec<ScriptUsage> = Vec::new();
    let mut block: Option<usize> = None;
    let mut i: usize = 0;
    assert(views(result@) == Seq::<ScriptUsageView>::empty());
    while i < all.len()
        invariant
            i <= all.len(),
            seen == views(all@),
            views(result@) == usages_on(file.path@, seen.take(i as int)),
            open_block(seen.take(i as int)) == (match block {
                Some(column) => Some(column as int),
                None => None,
            }),
        decreases all.len() - i,
    {
        proof {
            assert(seen.take(i + 1).drop_last() == seen.take(i as int));
            assert(seen.take(i + 1).last() == all@[i as int]@);
        }
        let ghost before = views(result@);
        let ghost more = usages_on_line(
            file.path@,
            all@[i as int]@,
            (i + 1) as nat,
            command_on(all@[i as int]@, open_block(seen.take(i as int))),
        );
        let (command, next) = read_line(&all[i], block);
        match command {
            Some(text) => {
                let (bash, python) = languages(&text);
                if bash {
                    let ghost so_far = result@;
                    let found = new_usage(&file.path, &all[i], i + 1, ScriptType::Bash);
                    result.push(found);
                    assert(views(result@) == views(so_far).push(found@));
                }
                if python {
                    let ghost so_far = result@;
                    let found = new_usage(&file.path, &all[i], i + 1, ScriptType::Python);
                    result.push(found);
                    assert(views(result@) == views(so_far).push(found@));
                }
            },
            None => {},
        }
        assert(views(result@) == before + more);
        block = next;
        i = i + 1;
    }
    assert(seen.take(i as int) == seen);
    result
}

fn new_usage(file: &str, line: &str, number: usize, script_type: ScriptType) -> (result:
    ScriptUsage)
    ensures
        result@ == usage(file@, line@, number as nat, script_type),
{
    ScriptUsage {
        file: file.to_owned(),
        line_number: number,
        script_type,
        context: line.to_owned(),
    }
}

} // verus!
