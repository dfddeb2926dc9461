//! Finds `TODO` comments in source text and turns each one into a
//! [`Todo`], for the `--scan` option. Walking the directory tree and
//! reading the files is the application's job; this module decides which
//! entries are skipped and what each file's text yields.

use vstd::prelude::*;
use crate::models::todos::{
    is_random_uuid, new_id, todos_view, Section, SectionSource, SectionView, SourceView, Todo,
    TodoView,
};
use crate::text::{
    chars_of, concat2, concat3, decimal, split_pieces, str_equal, trim_chars, trimmed,
    usize_to_string,
};
use vstd::string::StrSliceExecFns;

verus! {

/// Whether a directory entry named `name` is skipped by a scan: hidden
/// entries, and the usual build and dependency directories.
pub open spec fn skipped_name(name: Seq<char>) -> bool {
    ||| (name.len() > 0 && name[0] == '.')
    ||| name == "target"@
    ||| name == "node_modules"@
    ||| name == "build"@
}

/// Whether a scan skips the directory entry named `name`.
pub fn is_skipped_entry(name: &str) -> (r: bool)
    ensures
        r == skipped_name(name@),
{
    let starts_with_dot = name.unicode_len() > 0 && name.get_char(0) == '.';
    starts_with_dot || str_equal(name, "target") || str_equal(name, "node_modules") || str_equal(
        name,
        "build",
    )
}

/// `l` without one trailing carriage return.
pub open spec fn without_cr(l: Seq<char>) -> Seq<char> {
    if l.len() > 0 && l.last() == '\r' {
        l.drop_last()
    } else {
        l
    }
}

/// Lines ended by a line feed, each without one carriage return before it.
pub open spec fn ended_lines(pieces: Seq<Seq<char>>) -> Seq<Seq<char>> {
    pieces.map_values(|l: Seq<char>| without_cr(l))
}

/// The lines of `s` (what `str::lines` yields): split at line feeds, a
/// carriage return just before a line feed belonging to the line ending;
/// a final line ending does not start an empty line.
pub open spec fn text_lines(s: Seq<char>) -> Seq<Seq<char>> {
    if s.len() == 0 {
        seq![]
    } else if s.last() == '\n' {
        ended_lines(split_pieces(s.drop_last(), '\n'))
    } else {
        let p = split_pieces(s, '\n');
        ended_lines(p.drop_last()).push(p.last())
    }
}

/// Whether `TODO` starts at index `i` of `s`.
pub open spec fn todo_at(s: Seq<char>, i: int) -> bool {
    &&& 0 <= i
    &&& i + 4 <= s.len()
    &&& s[i] == 'T'
    &&& s[i + 1] == 'O'
    &&& s[i + 2] == 'D'
    &&& s[i + 3] == 'O'
}

/// Index of the first `TODO` in `s`, or `-1`.
pub open spec fn todo_index(s: Seq<char>) -> int
    decreases s.len(),
{
    if s.len() < 4 {
        -1
    } else if todo_at(s, 0) {
        0
    } else {
        let r = todo_index(s.drop_first());
        if r < 0 {
            -1
        } else {
            r + 1
        }
    }
}

/// `s` without any number of leading `TODO`s.
pub open spec fn skip_todos(s: Seq<char>) -> Seq<char>
    decreases s.len(),
{
    if todo_at(s, 0) {
        skip_todos(s.skip(4))
    } else {
        s
    }
}

/// `s` without any number of leading colons.
pub open spec fn skip_colons(s: Seq<char>) -> Seq<char>
    decreases s.len(),
{
    if s.len() > 0 && s[0] == ':' {
        skip_colons(s.drop_first())
    } else {
        s
    }
}

/// The text of the `TODO` comment of `line`: from `TODO` on, trimmed, and
/// without the leading `TODO`s and colons when something is left after
/// them.
pub open spec fn todo_text(line: Seq<char>) -> Seq<char> {
    let t = trimmed(line.skip(todo_index(line)));
    let c = trimmed(skip_colons(skip_todos(t)));
    if c.len() == 0 {
        t
    } else {
        c
    }
}

/// The entry for each line of `lines` holding a `TODO`, in order: the
/// path, the line number (from 1), and the comment's text.
pub open spec fn todo_entries(path: Seq<char>, lines: Seq<Seq<char>>) -> Seq<Seq<char>>
    decreases lines.len(),
{
    if lines.len() == 0 {
        seq![]
    } else {
        let p = todo_entries(path, lines.drop_last());
        let l = lines.last();
        if todo_index(l) >= 0 {
            p.push(path + ":"@ + decimal(lines.len()) + " - "@ + todo_text(l))
        } else {
            p
        }
    }
}

pub proof fn lemma_todo_index(s: Seq<char>)
    ensures
        -1 <= todo_index(s) <= s.len() - 4 || todo_index(s) == -1,
        todo_index(s) >= 0 ==> todo_at(s, todo_index(s)),
        todo_index(s) >= 0 ==> forall|j: int| 0 <= j < todo_index(s) ==> !todo_at(s, j),
        todo_index(s) == -1 ==> forall|j: int| 0 <= j < s.len() ==> !todo_at(s, j),
    decreases s.len(),
{
    if s.len() >= 4 && !todo_at(s, 0) {
        let t = s.drop_first();
        lemma_todo_index(t);
        assert forall|j: int| 1 <= j < s.len() implies todo_at(s, j) == todo_at(t, j - 1) by {}
    }
}

/// Index of the first `TODO` in `cs[from..to]`, relative to `from`.
fn find_todo(cs: &Vec<char>, from: usize, to: usize) -> (r: Option<usize>)
    requires
        from <= to <= cs@.len(),
    ensures
        ({
            let line = cs@.subrange(from as int, to as int);
            match r {
                Some(i) => todo_index(line) == i,
                None => todo_index(line) == -1,
            }
        }),
{
    let ghost line = cs@.subrange(from as int, to as int);
    proof {
        lemma_todo_index(line);
    }
    let mut i = from;
    while to - i >= 4
        invariant
            from <= i <= to <= cs@.len(),
            line == cs@.subrange(from as int, to as int),
            forall|j: int| 0 <= j < i - from ==> !todo_at(line, j),
        decreases to - i,
    {
        if cs[i] == 'T' && cs[i + 1] == 'O' && cs[i + 2] == 'D' && cs[i + 3] == 'O' {
            assert(todo_at(line, i - from));
            proof {
                lemma_todo_index(line);
                if todo_index(line) == -1 {
                    assert(!todo_at(line, i - from));
                } else if todo_index(line) < i - from {
                    assert(!todo_at(line, todo_index(line)));
                } else if todo_index(line) > i - from {
                    assert(!todo_at(line, i - from));
                }
            }
            return Some(i - from);
        }
        i = i + 1;
    }
    proof {
        lemma_todo_index(line);
        if todo_index(line) >= 0 {
            assert(todo_at(line, todo_index(line)));
        }
    }
    None
}

proof fn lemma_skip_todos_step(s: Seq<char>, p: int)
    requires
        0 <= p <= s.len(),
        todo_at(s.skip(p), 0),
    ensures
        skip_todos(s.skip(p)) == skip_todos(s.skip(p + 4)),
{
    assert(s.skip(p).skip(4) =~= s.skip(p + 4));
}

proof fn lemma_skip_colons_step(s: Seq<char>, p: int)
    requires
        0 <= p < s.len(),
        s[p] == ':',
    ensures
        skip_colons(s.skip(p)) == skip_colons(s.skip(p + 1)),
{
    assert(s.skip(p).drop_first() =~= s.skip(p + 1));
}

/// The text of the `TODO` comment of `cs[from..to]`, when it has one.
fn line_todo_text(cs: &Vec<char>, from: usize, to: usize) -> (r: Option<String>)
    requires
        from <= to <= cs@.len(),
    ensures
        ({
            let line = cs@.subrange(from as int, to as int);
            match r {
                Some(t) => todo_index(line) >= 0 && t@ == todo_text(line),
                None => todo_index(line) == -1,
            }
        }),
{
    let ghost line = cs@.subrange(from as int, to as int);
    let idx = match find_todo(cs, from, to) {
        Some(i) => i,
        None => {
            return None;
        },
    };
    proof {
        lemma_todo_index(line);
    }
    let t = trim_chars(cs, from + idx, to);
    assert(cs@.subrange(from + idx, to as int) =~= line.skip(idx as int));
    let ct = chars_of(t.as_str());
    let n = ct.len();
    let mut p: usize = 0;
    assert(ct@.skip(0) =~= ct@);
    while n - p >= 4 && ct[p] == 'T' && ct[p + 1] == 'O' && ct[p + 2] == 'D' && ct[p + 3] == 'O'
        invariant
            p <= n,
            n == ct@.len(),
            skip_todos(ct@.skip(p as int)) == skip_todos(ct@),
        decreases n - p,
    {
        proof {
            lemma_skip_todos_step(ct@, p as int);
        }
        p = p + 4;
    }
    assert(!todo_at(ct@.skip(p as int), 0));
    let ghost after_todos = ct@.skip(p as int);
    assert(skip_todos(after_todos) == after_todos);
    let mut q = p;
    assert(ct@.skip(q as int) =~= after_todos.skip(0));
    while q < n && ct[q] == ':'
        invariant
            p <= q <= n,
            n == ct@.len(),
            after_todos == ct@.skip(p as int),
            skip_colons(ct@.skip(q as int)) == skip_colons(after_todos),
        decreases n - q,
    {
        proof {
            lemma_skip_colons_step(ct@, q as int);
        }
        q = q + 1;
    }
    assert(skip_colons(ct@.skip(q as int)) == ct@.skip(q as int));
    let c = trim_chars(&ct, q, n);
    assert(ct@.subrange(q as int, n as int) =~= ct@.skip(q as int));
    if c.unicode_len() == 0 {
        Some(t)
    } else {
        Some(c)
    }
}

/// The entry for line number `number` of `path` with comment text `text`.
fn entry_text(path: &str, number: usize, text: &str) -> (r: String)
    ensures
        r@ == path@ + ":"@ + decimal(number as nat) + " - "@ + text@,
{
    let num = usize_to_string(number);
    let mut r = concat3(path, ":", num.as_str());
    r.append(" - ");
    r.append(text);
    r
}

/// One task per `TODO` comment of the text `content` of the file at
/// `path`, in order, each reading `path:line - text` (see `todo_entries`).
pub fn scan_text(path: &str, content: &str) -> (r: Vec<Todo>)
    ensures
        r@.len() == todo_entries(path@, text_lines(content@)).len(),
        forall|k: int|
            0 <= k < r@.len() ==> (#[trigger] r@[k])@ == (TodoView {
                id: r@[k].id,
                text: todo_entries(path@, text_lines(content@))[k],
                is_done: false,
                external_id: None,
                column: 0,
                board_index: 0,
            }),
        forall|k: int| 0 <= k < r@.len() ==> is_random_uuid((#[trigger] r@[k]).id),
{
    let cs = chars_of(content);
    let n = cs.len();
    let mut out: Vec<Todo> = Vec::new();
    let mut start: usize = 0;
    let mut i: usize = 0;
    let mut number: usize = 0;
    // The complete lines so far; the one in progress starts at `start`.
    let ghost mut pieces: Seq<Seq<char>> = seq![];
    assert(cs@.take(0) =~= seq![]);
    assert(cs@.subrange(0, 0) =~= seq![]);
    assert(ended_lines(pieces) =~= seq![]);
    while i < n
        invariant
            0 <= start <= i <= n,
            n == cs@.len(),
            cs@ == content@,
            number == pieces.len(),
            number <= start,
            start > 0 ==> cs@[start - 1] == '\n',
            split_pieces(cs@.take(i as int), '\n') == pieces.push(cs@.subrange(start as int, i as int)),
            out@.len() == todo_entries(path@, ended_lines(pieces)).len(),
            forall|k: int|
                0 <= k < out@.len() ==> (#[trigger] out@[k])@ == (TodoView {
                    id: out@[k].id,
                    text: todo_entries(path@, ended_lines(pieces))[k],
                    is_done: false,
                    external_id: None,
                    column: 0,
                    board_index: 0,
                }),
            forall|k: int| 0 <= k < out@.len() ==> is_random_uuid((#[trigger] out@[k]).id),
        decreases n - i,
    {
        assert(cs@.take(i + 1).drop_last() =~= cs@.take(i as int));
        assert(cs@.take(i + 1).last() == cs@[i as int]);
        if cs[i] == '\n' {
            let end = if i > start && cs[i - 1] == '\r' {
                i - 1
            } else {
                i
            };
            let ghost line = cs@.subrange(start as int, i as int);
            assert(cs@.subrange(start as int, end as int) =~= without_cr(line));
            let ghost old_entries = todo_entries(path@, ended_lines(pieces));
            let ghost new_pieces = pieces.push(line);
            assert(ended_lines(new_pieces) =~= ended_lines(pieces).push(without_cr(line)));
            assert(ended_lines(new_pieces).drop_last() =~= ended_lines(pieces));
            let ghost out0 = out@;
            match line_todo_text(&cs, start, end) {
                Some(text) => {
                    let entry = entry_text(path, number + 1, text.as_str());
                    let t = Todo::new(entry);
                    out.push(t);
                    assert forall|k: int| 0 <= k < out@.len() implies (#[trigger] out@[k])@ == (
                    TodoView {
                        id: out@[k].id,
                        text: todo_entries(path@, ended_lines(new_pieces))[k],
                        is_done: false,
                        external_id: None,
                        column: 0,
                        board_index: 0,
                    }) by {
                        if k < out0.len() {
                            assert(out@[k] == out0[k]);
                        }
                    }
                },
                None => {},
            }
            proof {
                pieces = new_pieces;
            }
            number = number + 1;
            start = i + 1;
            assert(cs@.subrange(start as int, (i + 1) as int) =~= seq![]);
        } else {
            assert(cs@.subrange(start as int, (i + 1) as int) =~= cs@.subrange(
                start as int,
                i as int,
            ).push(cs@[i as int]));
        }
        i = i + 1;
    }
    assert(cs@.take(n as int) =~= cs@);
    if start < n {
        let ghost line = cs@.subrange(start as int, n as int);
        assert(cs@[n - 1] != '\n') by {
            if cs@[n - 1] == '\n' {
                assert(split_pieces(cs@, '\n').last() =~= seq![]);
            }
        }
        let ghost all_lines = ended_lines(pieces).push(line);
        assert(text_lines(content@) == all_lines) by {
            let p = split_pieces(cs@, '\n');
            assert(p.drop_last() =~= pieces);
        }
        assert(all_lines.drop_last() =~= ended_lines(pieces));
        let ghost out0 = out@;
        match line_todo_text(&cs, start, n) {
            Some(text) => {
                let entry = entry_text(path, number + 1, text.as_str());
                let t = Todo::new(entry);
                out.push(t);
                assert forall|k: int| 0 <= k < out@.len() implies (#[trigger] out@[k])@ == (
                TodoView {
                    id: out@[k].id,
                    text: todo_entries(path@, all_lines)[k],
                    is_done: false,
                    external_id: None,
                    column: 0,
                    board_index: 0,
                }) by {
                    if k < out0.len() {
                        assert(out@[k] == out0[k]);
                    }
                }
            },
            None => {},
        }
    } else {
        proof {
            if n > 0 {
                assert(cs@[n - 1] == '\n');
                let p = split_pieces(cs@, '\n');
                assert(cs@.subrange(start as int, n as int) =~= seq![]);
                assert(p == split_pieces(cs@.drop_last(), '\n').push(seq![]));
                assert(p.drop_last() =~= split_pieces(cs@.drop_last(), '\n'));
                assert(pieces.push(seq![]).drop_last() =~= pieces);
                assert(split_pieces(cs@.drop_last(), '\n') =~= pieces);
            }
        }
    }
    out
}

/// The section a scan of directory `dir_label` shows: none when no `TODO`
/// was found, else one local section `Scan: ` and the directory, holding
/// the tasks found.
pub fn scan_section(dir_label: &str, todos: Vec<Todo>) -> (r: Vec<Section>)
    ensures
        todos@.len() == 0 ==> r@.len() == 0,
        todos@.len() > 0 ==> r@.len() == 1 && r@[0]@ == (SectionView {
            id: r@[0].id,
            name: "Scan: "@ + dir_label@,
            todos: todos_view(todos@),
            source: SourceView::Local,
            columns: None,
            boards: None,
        }) && is_random_uuid(r@[0].id),
{
    let mut r: Vec<Section> = Vec::new();
    if todos.len() > 0 {
        r.push(
            Section {
                id: new_id(),
                name: concat2("Scan: ", dir_label),
                todos,
                source: SectionSource::Local,
                columns: None,
                boards: None,
            },
        );
    }
    r
}

} // verus!
