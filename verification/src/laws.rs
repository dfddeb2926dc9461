//! Properties of the library as a whole, each stated over the contracts of
//! the functions it relates and proved from them.

use vstd::prelude::*;
use crate::app::{
    after_apply_kanban_columns, after_card_move, after_finish_sync, after_move_kanban_board,
    after_move_kanban_item, after_next, after_next_section, after_previous, cursor_cell_len, after_on_left, after_on_right,
    after_previous_section, applied_fetches, board_columns_of, cell_of, confirm_outcome,
    current_card, current_column_count, current_is_kanban, focus_toggled,
    lemma_current_card_in_range, lemma_linked_index, lemma_source_index, linked_index,
    move_card_outcome, moved_column, resynced, saturating_pred, selected_of, source_index,
    upserted, AppView, FetchView, Focus, InputMode, toggle_outcome, linked_of, linked_sources,
    is_link_of, LinkKind, CallView, FollowupView, PendingView,
};
use crate::handler::{key_outcome, KeyCode, KeyEvent};
use crate::scanner::skipped_name;
use crate::config::JiraConfig;
use crate::jira::{
    column_query, lemma_candidates_have_issue_ids, lowercase_all, workflow_entries, Issue,
    ProjectStatus, category_order, lemma_first_match, lemma_last_slot, lemma_project_keys_cover, project_keys,
    ColumnQuery, IssueView,
};
use crate::models::todos::{SectionView, SourceView, TodoView};
use crate::text::{
    is_white_space, joined, leading_white_space, lemma_split_pieces_nonempty, lowercase,
    nonempty_trimmed, split_pieces, trailing_white_space, trimmed,
};
use crate::text::comma_list;

verus! {

/// Switching panels twice leaves the state as it was.
pub proof fn law_toggle_focus_twice(a: AppView)
    ensures
        focus_toggled(focus_toggled(a)) == a,
{
    assert(focus_toggled(focus_toggled(a)) =~= a);
}

/// Stepping an index in `0..n` by one, with wraparound.
proof fn lemma_wrap(x: int, n: int)
    requires
        0 <= x < n,
    ensures
        x % n == x,
        (x + 1) % n == if x + 1 < n {
            x + 1
        } else {
            0
        },
        (x - 1) % n == if x == 0 {
            n - 1
        } else {
            x - 1
        },
{
    vstd::arithmetic::div_mod::lemma_fundamental_div_mod_converse(x, n, 0, x);
    if x + 1 < n {
        vstd::arithmetic::div_mod::lemma_fundamental_div_mod_converse(x + 1, n, 0, x + 1);
    } else {
        vstd::arithmetic::div_mod::lemma_fundamental_div_mod_converse(x + 1, n, 1, 0);
    }
    if x == 0 {
        vstd::arithmetic::div_mod::lemma_fundamental_div_mod_converse(x - 1, n, -1, n - 1);
    } else {
        vstd::arithmetic::div_mod::lemma_fundamental_div_mod_converse(x - 1, n, 0, x - 1);
    }
}

/// Moving the section selection stays on a section, and moving it forward
/// then back (or back then forward) returns to the section it was on.
pub proof fn law_section_selection(a: AppView)
    requires
        a.selected_section < a.sections.len() <= usize::MAX,
    ensures
        after_next_section(a).selected_section < a.sections.len(),
        after_previous_section(a).selected_section < a.sections.len(),
        after_previous_section(after_next_section(a)).selected_section == a.selected_section,
        after_next_section(after_previous_section(a)).selected_section == a.selected_section,
{
    let n = a.sections.len() as int;
    let s = a.selected_section as int;
    lemma_wrap(s, n);
    let b = after_previous_section(a).selected_section as int;
    lemma_wrap(b, n);
    let f = after_next_section(a).selected_section as int;
    lemma_wrap(f, n);
}

/// In a multi-board section, moving to the next board and back returns to
/// the board the cursor was on.
pub proof fn law_board_round_trip(a: AppView)
    requires
        selected_of(a) is Some,
        selected_of(a).unwrap().boards is Some,
        a.kanban_board < selected_of(a).unwrap().boards.unwrap().len() <= usize::MAX,
    ensures
        after_move_kanban_board(a, 1).kanban_board < selected_of(a).unwrap().boards.unwrap().len(),
        after_move_kanban_board(after_move_kanban_board(a, 1), -1).kanban_board == a.kanban_board,
{
    let n = selected_of(a).unwrap().boards.unwrap().len() as int;
    let b = a.kanban_board as int;
    let a1 = after_move_kanban_board(a, 1);
    assert(selected_of(a1) == selected_of(a));
    lemma_wrap(b, n);
    lemma_wrap(a1.kanban_board as int, n);
}

/// On a kanban board, `h` and `l` move the column cursor by at most one
/// column and never off the board.
pub proof fn law_column_cursor_stays_on_board(a: AppView, n: nat)
    requires
        a.focus == Focus::Todos,
        current_is_kanban(a),
        current_column_count(a) == Some(n),
        a.kanban_column < n,
        n <= usize::MAX,
    ensures
        after_on_left(a).kanban_column < n,
        after_on_right(a).kanban_column < n,
        after_on_left(a).kanban_column == a.kanban_column || after_on_left(a).kanban_column
            == a.kanban_column - 1,
        after_on_right(a).kanban_column == a.kanban_column || after_on_right(a).kanban_column
            == a.kanban_column + 1,
        after_on_left(a).focus == Focus::Todos,
        after_on_right(a).focus == Focus::Todos,
{
}

/// Turning a section into a kanban board puts every card that is done in
/// the last column and every other card in the first; the columns are the
/// typed names.
pub proof fn law_kanban_columns_place_cards(a: AppView, text: Seq<char>)
    requires
        selected_of(a) is Some,
        text.len() > 0,
        0 < comma_list(text).len() <= usize::MAX,
    ensures
        ({
            let s = after_apply_kanban_columns(a, text).sections[a.selected_section as int];
            let last = comma_list(text).len() - 1;
            &&& s.columns == Some(comma_list(text))
            &&& s.todos.len() == selected_of(a).unwrap().todos.len()
            &&& forall|k: int|
                0 <= k < s.todos.len() ==> ((#[trigger] s.todos[k]).is_done ==> s.todos[k].column
                    == last)
            &&& forall|k: int|
                0 <= k < s.todos.len() ==> (!(#[trigger] s.todos[k]).is_done ==> s.todos[k].column
                    == 0)
        }),
{
}

/// Emptying the column list turns a kanban section back into a plain list.
pub proof fn law_empty_columns_revert_to_list(a: AppView)
    requires
        selected_of(a) is Some,
    ensures
        after_apply_kanban_columns(a, seq![]).sections[a.selected_section as int].columns is None,
{
}

/// Confirming or not, text capture always ends: the mode is back to
/// normal and the buffer is empty.
pub proof fn law_confirm_ends_input(a: AppView, id: u128)
    ensures
        confirm_outcome(a, id).0.input_mode == InputMode::Normal,
        confirm_outcome(a, id).0.input_buffer == Seq::<char>::empty(),
{
}


/// Moving a local card one column right and then back left (the cursor
/// following it) returns it to its column, not done; a card that was not
/// done leaves the sections exactly as they were.
pub proof fn law_card_round_trip(a: AppView, i: int)
    requires
        a.focus == Focus::Todos,
        selected_of(a) is Some,
        current_is_kanban(a),
        current_card(a) == Some(i),
        board_columns_of(selected_of(a).unwrap(), selected_of(a).unwrap().todos[i]) is Some,
        selected_of(a).unwrap().todos[i].column + 1 < board_columns_of(
            selected_of(a).unwrap(),
            selected_of(a).unwrap().todos[i],
        ).unwrap().len() <= usize::MAX,
        selected_of(a).unwrap().todos[i].external_id is None,
        selected_of(a).unwrap().todos.len() <= usize::MAX,
        current_card(move_card_outcome(a, 1).0) == Some(i),
    ensures
        ({
            let s = selected_of(a).unwrap();
            let t = s.todos[i];
            let a1 = move_card_outcome(a, 1).0;
            let a2 = move_card_outcome(a1, -1).0;
            &&& move_card_outcome(a, 1).1 is None
            &&& move_card_outcome(a1, -1).1 is None
            &&& a1.sections[a.selected_section as int].todos[i].column == t.column + 1
            &&& a2.sections[a.selected_section as int].todos[i] == (TodoView {
                is_done: false,
                ..t
            })
            &&& a2.kanban_column == t.column
            &&& !t.is_done ==> a2.sections == a.sections
        }),
{
    let s = selected_of(a).unwrap();
    let t = s.todos[i];
    let cols = board_columns_of(s, t).unwrap();
    let n = cols.len();
    lemma_current_card_in_range(a);
    let c = (t.column + 1) as usize;
    assert(moved_column(n, t.column, 1) == Some(c as nat));
    let is_last = c == n - 1;
    let a1 = after_card_move(a, i as usize, c, is_last, cols[c as int]);
    assert(move_card_outcome(a, 1).0 == a1);
    let t1 = TodoView { column: c, is_done: is_last, ..t };
    let s1 = SectionView { todos: s.todos.update(i, t1), ..s };
    assert(a1.sections == a.sections.update(a.selected_section as int, s1));
    assert(selected_of(a1) == Some(s1));
    assert(s1.todos[i] == t1);
    assert(board_columns_of(s1, t1) == Some(cols));
    assert(moved_column(n, c, -1) == Some(t.column as nat));
    let a2 = after_card_move(a1, i as usize, t.column, t.column == n - 1, cols[t.column as int]);
    assert(move_card_outcome(a1, -1).0 == a2);
    let t2 = TodoView { column: t.column, is_done: false, ..t1 };
    assert(t2 == (TodoView { is_done: false, ..t }));
    let s2 = SectionView { todos: s1.todos.update(i, t2), ..s1 };
    assert(a2.sections == a1.sections.update(a.selected_section as int, s2));
    if !t.is_done {
        assert(t2 == t);
        assert(s2.todos =~= s.todos);
        assert(s2 == s);
        assert(a2.sections =~= a.sections);
    }
}

/// Upserting a synced section replaces, in place, the first section with
/// the same source (keeping its identifier), or appends it; the other
/// sections are unchanged, and the source is then found where it was put.
pub proof fn law_upsert_in_place(secs: Seq<SectionView>, new: SectionView)
    ensures
        ({
            let i = source_index(secs, new.source);
            let r = upserted(secs, new);
            &&& i >= 0 ==> r.len() == secs.len()
            &&& i >= 0 ==> forall|j: int| 0 <= j < secs.len() && j != i ==> r[j] == secs[j]
            &&& i >= 0 ==> r[i].id == secs[i].id && r[i].source == new.source && r[i].name
                == new.name
            &&& i == -1 ==> r == secs.push(new)
            &&& source_index(r, new.source) == if i >= 0 {
                i
            } else {
                secs.len() as int
            }
        }),
{
    let i = source_index(secs, new.source);
    let r = upserted(secs, new);
    lemma_source_index(secs, new.source);
    lemma_source_index(r, new.source);
    if i >= 0 {
        assert(r[i].source == new.source);
        let k = source_index(r, new.source);
        if k >= 0 && k < i {
            assert(r[k] == secs[k]);
        }
        if k == -1 {
            assert(r[i].source == new.source);
        }
    } else {
        let k = source_index(r, new.source);
        if k >= 0 && k < secs.len() {
            assert(r[k] == secs[k]);
        }
        if k == -1 {
            assert(r[secs.len() as int] == new);
        }
    }
}

/// When the synced section was set up as a board of at least two columns,
/// after the upsert every card is in the last column exactly when it is
/// done.
pub proof fn law_upsert_done_in_last_column(secs: Seq<SectionView>, new: SectionView)
    requires
        source_index(secs, new.source) >= 0,
        secs[source_index(secs, new.source)].columns is Some,
        2 <= secs[source_index(secs, new.source)].columns.unwrap().len() <= usize::MAX,
    ensures
        ({
            let i = source_index(secs, new.source);
            let s = upserted(secs, new)[i];
            let last = secs[i].columns.unwrap().len() - 1;
            &&& s.columns == secs[i].columns
            &&& s.todos.len() == new.todos.len()
            &&& forall|k: int|
                0 <= k < s.todos.len() ==> ((#[trigger] s.todos[k]).is_done <==> s.todos[k].column
                    == last)
        }),
{
    lemma_source_index(secs, new.source);
}

/// Whether the tasks linked to an outside item are linked to different
/// items.
pub open spec fn distinct_links(todos: Seq<TodoView>) -> bool {
    forall|j1: int, j2: int|
        0 <= j1 < j2 < todos.len() && (#[trigger] todos[j1]).external_id is Some ==> todos[j1].external_id
            != (#[trigger] todos[j2]).external_id
}

/// In re-placed tasks, a task's link is found at its own position.
proof fn lemma_resynced_links(olds: Seq<TodoView>, last: usize, news: Seq<TodoView>, k: int)
    requires
        distinct_links(news),
        0 <= k < news.len(),
        news[k].external_id is Some,
    ensures
        linked_index(resynced(olds, last, news), news[k].external_id.unwrap()) == k,
{
    let r = resynced(olds, last, news);
    let e = news[k].external_id.unwrap();
    lemma_linked_index(r, e);
    let l = linked_index(r, e);
    assert(r[k].external_id == Some(e));
    if l > k {
        assert(r[k].external_id != Some(e));
    }
    if l >= 0 && l < k {
        assert(news[l].external_id == r[l].external_id);
    }
}

/// Re-syncing the same fetched content twice gives the same sections as
/// syncing it once (the fetched section being a plain list or multi-board
/// section whose linked tasks are linked to different items).
pub proof fn law_upsert_twice(secs: Seq<SectionView>, new: SectionView)
    requires
        new.columns is None,
        distinct_links(new.todos),
    ensures
        upserted(upserted(secs, new), new) == upserted(secs, new),
{
    let r1 = upserted(secs, new);
    law_upsert_in_place(secs, new);
    lemma_source_index(secs, new.source);
    let i = source_index(secs, new.source);
    let j = source_index(r1, new.source);
    if i == -1 {
        assert(r1[j] == new);
        assert(upserted(r1, new) =~= r1);
    } else {
        let e1 = r1[i];
        match secs[i].columns {
            Some(cols) => {
                let last = saturating_pred(cols.len()) as usize;
                let first = resynced(secs[i].todos, last, new.todos);
                assert(e1.todos == first);
                let second = resynced(first, last, new.todos);
                assert forall|k: int| 0 <= k < new.todos.len() implies #[trigger] second[k]
                    == first[k] by {
                    let t = new.todos[k];
                    if t.external_id is Some {
                        lemma_resynced_links(secs[i].todos, last, new.todos, k);
                    }
                }
                assert(second =~= first);
                assert(upserted(r1, new)[j] == e1);
                assert(upserted(r1, new) =~= r1);
            },
            None => {
                assert(upserted(r1, new)[j] =~= e1);
                assert(upserted(r1, new) =~= r1);
            },
        }
    }
}


proof fn lemma_before_transitive(q: ColumnQuery, x: int, y: int, z: int)
    requires
        q.before(x, y),
        q.before(y, z),
    ensures
        q.before(x, z),
{
}

/// `y` has at least as many kept candidates before it as `x` when `x` comes
/// before `y`, and one more once `x` itself is counted.
proof fn lemma_kept_before_grows(q: ColumnQuery, x: int, y: int, m: int)
    requires
        0 <= x,
        q.before(x, y),
        q.kept(x),
    ensures
        q.kept_before(y, m) >= q.kept_before(x, m) + if m > x {
            1int
        } else {
            0int
        },
    decreases m,
{
    if m > 0 {
        lemma_kept_before_grows(q, x, y, m - 1);
        let w = m - 1;
        if q.kept(w) && q.before(w, x) {
            lemma_before_transitive(q, w, x, y);
        }
    }
}

/// The board's columns come in the order of `before`: those named in
/// `column_order` first, in that order, then the others by status category
/// (new, in progress, done), ties keeping the candidates' order.
pub proof fn law_columns_in_order(q: ColumnQuery, j1: int, j2: int)
    requires
        0 <= j1 < q.len(),
        0 <= j2 < q.len(),
        q.kept(j1),
        q.kept(j2),
    ensures
        q.before(j1, j2) ==> q.position(j1) < q.position(j2),
        q.key(j1).0 == 0 && q.key(j2).0 == 1 ==> q.position(j1) < q.position(j2),
        q.key(j1).0 == 0 && q.key(j2).0 == 0 && q.key(j1).1 < q.key(j2).1 ==> q.position(j1)
            < q.position(j2),
        q.key(j1).0 == 1 && q.key(j2).0 == 1 && category_order(q.entries[j1].2) < category_order(
            q.entries[j2].2,
        ) ==> q.position(j1) < q.position(j2),
{
    if q.before(j1, j2) {
        lemma_kept_before_grows(q, j1, j2, q.len() as int);
    }
    lemma_first_match(q.order, q.lower_names[j1]);
    lemma_first_match(q.order, q.lower_names[j2]);
}

/// On a laid-out board, every issue is in a column that is shown, whose
/// status has the issue's status id.
pub proof fn law_every_issue_shown(q: ColumnQuery, names: Seq<Seq<char>>, indices: Seq<usize>, k: int)
    requires
        q.lays_out(names, indices),
        0 <= k < indices.len(),
    ensures
        indices[k] < names.len(),
        names[indices[k] as int] == q.entries[q.slot(k)].1,
        q.entries[q.slot(k)].0 == q.issue_ids[k],
{
    let j = q.slot(k);
    assert(0 <= j < q.len());
    assert(q.kept(j));
    lemma_last_slot(q.entries, q.issue_ids[k], q.len() as int);
}

/// A column named in `excluded_columns` (ignoring case) is not shown when
/// no issue is in any column of that name (the candidates' lower-cased
/// names being their names lower-cased, as `status_columns` has them).
pub proof fn law_excluded_empty_columns_hidden(
    q: ColumnQuery,
    names: Seq<Seq<char>>,
    indices: Seq<usize>,
    m: int,
)
    requires
        q.lays_out(names, indices),
        0 <= m < q.excluded.len(),
        forall|j: int| 0 <= j < q.len() ==> #[trigger] q.lower_names[j] == lowercase(q.entries[j].1),
        forall|j: int|
            0 <= j < q.len() && lowercase(q.entries[j].1) == q.excluded[m] ==> !q.occupied(j),
    ensures
        forall|p: int| 0 <= p < names.len() ==> lowercase(#[trigger] names[p]) != q.excluded[m],
{
    assert forall|p: int| 0 <= p < names.len() implies lowercase(#[trigger] names[p]) != q.excluded[m] by {
        assert(q.shown_at(p, names[p]));
        let j = choose|j: int|
            0 <= j < q.len() && q.kept(j) && (#[trigger] q.position(j)) == p && names[p]
                == q.entries[j].1;
        if lowercase(names[p]) == q.excluded[m] {
            assert(q.excluded_name(j));
        }
    }
}

/// Number of failed fetches among `rs`.
pub open spec fn failed_count(rs: Seq<FetchView>) -> nat
    decreases rs.len(),
{
    if rs.len() == 0 {
        0
    } else {
        failed_count(rs.drop_last()) + if rs.last().outcome is Err {
            1nat
        } else {
            0nat
        }
    }
}

proof fn lemma_errors_count(secs: Seq<SectionView>, rs: Seq<FetchView>)
    ensures
        applied_fetches(secs, rs).1.len() == failed_count(rs),
    decreases rs.len(),
{
    if rs.len() > 0 {
        lemma_errors_count(secs, rs.drop_last());
    }
}

/// A re-sync reports success exactly when every fetch succeeded, and
/// leaves the selection on a section when there is one.
pub proof fn law_sync_report(a: AppView, rs: Seq<FetchView>)
    ensures
        failed_count(rs) == 0 ==> after_finish_sync(a, rs).message == Some(
            "Synced Reminders/Calendar/Jira"@,
        ),
        failed_count(rs) > 0 ==> after_finish_sync(a, rs).message == Some(
            "Synced with errors: "@ + joined(applied_fetches(a.sections, rs).1, "; "@),
        ),
        0 < after_finish_sync(a, rs).sections.len() <= usize::MAX + 1 ==> after_finish_sync(
            a,
            rs,
        ).selected_section < after_finish_sync(a, rs).sections.len(),
{
    lemma_errors_count(a.sections, rs);
}

/// In normal mode `q` and Esc quit; while text is captured, Esc cancels
/// the capture and never quits.
pub proof fn law_escape_keys(a: AppView, modifiers: u8, id: u128)
    ensures
        a.input_mode == InputMode::Normal ==> key_outcome(
            a,
            KeyEvent { code: KeyCode::Esc, modifiers },
            id,
        ).0.should_quit,
        a.input_mode == InputMode::Normal ==> key_outcome(
            a,
            KeyEvent { code: KeyCode::Char('q'), modifiers },
            id,
        ).0.should_quit,
        a.input_mode != InputMode::Normal ==> key_outcome(
            a,
            KeyEvent { code: KeyCode::Esc, modifiers },
            id,
        ).0 == (AppView { input_mode: InputMode::Normal, input_buffer: seq![], ..a }),
{
}

/// Grouping by project loses no issue and duplicates none: each issue's
/// project is the key of exactly one group.
pub proof fn law_each_issue_in_one_group(issues: Seq<IssueView>, m: int)
    requires
        0 <= m < issues.len(),
    ensures
        exists|j: int|
            0 <= j < project_keys(issues).len() && #[trigger] project_keys(issues)[j]
                == issues[m].project,
        forall|j1: int, j2: int|
            0 <= j1 < j2 < project_keys(issues).len() ==> project_keys(issues)[j1] != project_keys(
                issues,
            )[j2],
{
    lemma_project_keys_cover(issues);
    assert(project_keys(issues).contains(issues[m].project));
}


/// A column name as typing it can produce: not empty, no white space at
/// either end, no comma.
pub open spec fn clean_name(c: Seq<char>) -> bool {
    &&& c.len() > 0
    &&& !is_white_space(c[0])
    &&& !is_white_space(c.last())
    &&& forall|i: int| 0 <= i < c.len() ==> c[i] != ','
}

/// Appending text without the separator extends the last piece.
proof fn lemma_split_append(x: Seq<char>, y: Seq<char>, sep: char)
    requires
        forall|i: int| 0 <= i < y.len() ==> y[i] != sep,
    ensures
        split_pieces(x + y, sep) == split_pieces(x, sep).update(
            split_pieces(x, sep).len() - 1,
            split_pieces(x, sep).last() + y,
        ),
    decreases y.len(),
{
    lemma_split_pieces_nonempty(x, sep);
    if y.len() == 0 {
        assert(x + y =~= x);
        assert(split_pieces(x, sep).last() + y =~= split_pieces(x, sep).last());
        assert(split_pieces(x, sep).update(
            split_pieces(x, sep).len() - 1,
            split_pieces(x, sep).last() + y,
        ) =~= split_pieces(x, sep));
    } else {
        let y0 = y.drop_last();
        lemma_split_append(x, y0, sep);
        assert((x + y).drop_last() =~= x + y0);
        assert((x + y).last() == y.last());
        let p = split_pieces(x, sep);
        assert(p.last() + y0 + seq![y.last()] =~= p.last() + y);
        assert((p.last() + y0).push(y.last()) =~= p.last() + y);
        assert(split_pieces(x + y, sep) =~= p.update(p.len() - 1, p.last() + y));
    }
}

/// A clean name is its own trimming, also after one leading space.
proof fn lemma_trim_clean(c: Seq<char>)
    requires
        clean_name(c),
    ensures
        trimmed(c) == c,
        trimmed(" "@ + c) == c,
{
    assert(leading_white_space(c) == 0);
    assert(c.skip(0) =~= c);
    assert(trailing_white_space(c) == 0);
    assert(c.take(c.len() as int) =~= c);
    let s = " "@ + c;
    reveal_strlit(" ");
    assert(s[0] == ' ');
    assert(s.drop_first() =~= c);
    assert(leading_white_space(s) == 1);
    assert(s.skip(1) =~= c);
}

/// Joining clean names with `, ` and splitting the result at commas
/// gives back the names: confirming the prefilled column list unchanged
/// keeps the columns.
pub proof fn law_column_list_round_trip(cols: Seq<Seq<char>>)
    requires
        forall|k: int| 0 <= k < cols.len() ==> clean_name(#[trigger] cols[k]),
    ensures
        comma_list(joined(cols, ", "@)) == cols,
    decreases cols.len(),
{
    reveal_strlit(", ");
    reveal_strlit(" ");
    if cols.len() == 0 {
        assert(joined(cols, ", "@) =~= seq![]);
        assert(split_pieces(seq![], ',') == seq![Seq::<char>::empty()]);
        assert(trimmed(Seq::<char>::empty()) =~= seq![]) by {
            assert(Seq::<char>::empty().skip(0) =~= seq![]);
        }
        let ps = seq![Seq::<char>::empty()];
        assert(ps.last() == Seq::<char>::empty());
        assert(ps.drop_last() =~= seq![]);
        assert(nonempty_trimmed(ps.drop_last()) =~= seq![]);
        assert(trimmed(ps.last()).len() == 0);
        assert(nonempty_trimmed(ps).len() == 0);
        assert(comma_list(joined(cols, ", "@)) =~= cols);
    } else if cols.len() == 1 {
        let c = cols[0];
        assert(joined(cols, ", "@) == c);
        lemma_split_append(seq![], c, ',');
        assert(seq![] + c =~= c);
        assert(split_pieces(seq![], ',') == seq![Seq::<char>::empty()]);
        assert(Seq::<char>::empty() + c =~= c);
        assert(split_pieces(c, ',') =~= seq![c]);
        lemma_trim_clean(c);
        let ps = seq![c];
        assert(ps.drop_last() =~= seq![]);
        assert(ps.last() == c);
        assert(nonempty_trimmed(ps.drop_last()) =~= seq![]);
        assert(nonempty_trimmed(ps) =~= seq![c]);
        assert(comma_list(joined(cols, ", "@)) =~= cols);
    } else {
        let pre = cols.drop_last();
        let c = cols.last();
        assert forall|k: int| 0 <= k < pre.len() implies clean_name(#[trigger] pre[k]) by {
            assert(pre[k] == cols[k]);
        }
        law_column_list_round_trip(pre);
        let a = joined(pre, ", "@);
        assert(joined(cols, ", "@) == a + ", "@ + c);
        let withcomma = a.push(',');
        assert(a + ", "@ + c =~= withcomma + (" "@ + c));
        assert(withcomma.drop_last() =~= a);
        assert(withcomma.last() == ',');
        assert(split_pieces(withcomma, ',') == split_pieces(a, ',').push(seq![]));
        let tail = " "@ + c;
        assert forall|i: int| 0 <= i < tail.len() implies tail[i] != ',' by {
            if i > 0 {
                assert(tail[i] == c[i - 1]);
            }
        }
        lemma_split_append(withcomma, tail, ',');
        let p = split_pieces(a, ',');
        let q = split_pieces(withcomma + tail, ',');
        assert(Seq::<char>::empty() + tail =~= tail);
        assert(q =~= p.push(tail));
        lemma_trim_clean(c);
        assert(q.drop_last() =~= p);
        assert(nonempty_trimmed(q) == nonempty_trimmed(p).push(c));
        assert(comma_list(joined(cols, ", "@)) =~= cols);
    }
}


proof fn lemma_leading_stops(x: Seq<char>)
    ensures
        leading_white_space(x) <= x.len(),
        leading_white_space(x) < x.len() ==> !is_white_space(x[leading_white_space(x) as int]),
    decreases x.len(),
{
    if x.len() > 0 && is_white_space(x[0]) {
        lemma_leading_stops(x.drop_first());
    }
}

proof fn lemma_trailing_stops(x: Seq<char>)
    ensures
        trailing_white_space(x) <= x.len(),
        trailing_white_space(x) < x.len() ==> !is_white_space(
            x[x.len() - 1 - trailing_white_space(x)],
        ),
    decreases x.len(),
{
    if x.len() > 0 && is_white_space(x.last()) {
        lemma_trailing_stops(x.drop_last());
    }
}

/// Trimming leaves no white space at either end, and adds no character.
proof fn lemma_trimmed_ends(x: Seq<char>)
    ensures
        trimmed(x).len() > 0 ==> !is_white_space(trimmed(x)[0]) && !is_white_space(
            trimmed(x).last(),
        ),
        forall|i: int|
            0 <= i < trimmed(x).len() ==> #[trigger] trimmed(x)[i] == x[leading_white_space(x) + i],
        leading_white_space(x) + trimmed(x).len() <= x.len(),
{
    lemma_leading_stops(x);
    let rest = x.skip(leading_white_space(x) as int);
    lemma_trailing_stops(rest);
}

/// No piece holds the separator.
proof fn lemma_pieces_without_sep(s: Seq<char>, sep: char)
    ensures
        forall|k: int, i: int|
            0 <= k < split_pieces(s, sep).len() && 0 <= i < split_pieces(s, sep)[k].len() ==> #[trigger] split_pieces(
                s,
                sep,
            )[k][i] != sep,
    decreases s.len(),
{
    if s.len() > 0 {
        lemma_pieces_without_sep(s.drop_last(), sep);
        lemma_split_pieces_nonempty(s.drop_last(), sep);
        let p = split_pieces(s.drop_last(), sep);
        if s.last() != sep {
            assert forall|k: int, i: int|
                0 <= k < split_pieces(s, sep).len() && 0 <= i < split_pieces(s, sep)[k].len() implies #[trigger] split_pieces(
                s,
                sep,
            )[k][i] != sep by {
                if k == p.len() - 1 && i == p.last().len() {
                    assert(split_pieces(s, sep)[k][i] == s.last());
                } else if k == p.len() - 1 {
                    assert(split_pieces(s, sep)[k][i] == p.last()[i]);
                } else {
                    assert(split_pieces(s, sep)[k] == p[k]);
                }
            }
        } else {
            assert forall|k: int, i: int|
                0 <= k < split_pieces(s, sep).len() && 0 <= i < split_pieces(s, sep)[k].len() implies #[trigger] split_pieces(
                s,
                sep,
            )[k][i] != sep by {
                if k < p.len() {
                    assert(split_pieces(s, sep)[k] == p[k]);
                }
            }
        }
    }
}

/// Trimmed non-empty pieces without commas are clean names.
proof fn lemma_nonempty_trimmed_clean(pieces: Seq<Seq<char>>)
    requires
        forall|k: int, i: int| 0 <= k < pieces.len() && 0 <= i < pieces[k].len() ==> #[trigger] pieces[k][i] != ',',
    ensures
        forall|k: int| 0 <= k < nonempty_trimmed(pieces).len() ==> clean_name(#[trigger] nonempty_trimmed(pieces)[k]),
    decreases pieces.len(),
{
    if pieces.len() > 0 {
        let pre = pieces.drop_last();
        assert forall|k: int, i: int| 0 <= k < pre.len() && 0 <= i < pre[k].len() implies #[trigger] pre[k][i] != ',' by {
            assert(pre[k] == pieces[k]);
        }
        lemma_nonempty_trimmed_clean(pre);
        let x = pieces.last();
        lemma_trimmed_ends(x);
        let t = trimmed(x);
        if t.len() > 0 {
            assert forall|i: int| 0 <= i < t.len() implies t[i] != ',' by {
                assert(t[i] == x[leading_white_space(x) + i]);
                assert(x == pieces[pieces.len() - 1]);
            }
            assert(clean_name(t));
        }
        let r = nonempty_trimmed(pre);
        assert forall|k: int| 0 <= k < nonempty_trimmed(pieces).len() implies clean_name(
            #[trigger] nonempty_trimmed(pieces)[k],
        ) by {
            if k < r.len() {
                assert(nonempty_trimmed(pieces)[k] == r[k]);
            }
        }
    }
}

/// The column names typed as a comma-separated list are clean, so editing
/// them again, unchanged, gives back the same columns.
pub proof fn law_typed_columns_round_trip(text: Seq<char>)
    ensures
        forall|k: int| 0 <= k < comma_list(text).len() ==> clean_name(#[trigger] comma_list(text)[k]),
        comma_list(joined(comma_list(text), ", "@)) == comma_list(text),
{
    lemma_pieces_without_sep(text, ',');
    lemma_nonempty_trimmed_clean(split_pieces(text, ','));
    law_column_list_round_trip(comma_list(text));
}


/// Whether every fetched section is a linked one.
pub open spec fn fetched_linked(rs: Seq<FetchView>) -> bool {
    forall|k: int| 0 <= k < rs.len() ==> ((#[trigger] rs[k]).outcome is Ok ==> !(rs[k].outcome->Ok_0.source is Local))
}

/// A re-sync leaves every local section as it was, where it was, and
/// removes no section.
pub proof fn law_sync_keeps_local_sections(secs: Seq<SectionView>, rs: Seq<FetchView>)
    requires
        fetched_linked(rs),
    ensures
        applied_fetches(secs, rs).0.len() >= secs.len(),
        forall|j: int|
            0 <= j < secs.len() && (#[trigger] secs[j]).source is Local ==> applied_fetches(
                secs,
                rs,
            ).0[j] == secs[j],
    decreases rs.len(),
{
    if rs.len() > 0 {
        let pre = rs.drop_last();
        assert forall|k: int| 0 <= k < pre.len() && (#[trigger] pre[k]).outcome is Ok implies !(
        pre[k].outcome->Ok_0.source is Local) by {
            assert(pre[k] == rs[k]);
        }
        law_sync_keeps_local_sections(secs, pre);
        let mid = applied_fetches(secs, pre).0;
        match rs.last().outcome {
            Ok(sec) => {
                assert(rs.last() == rs[rs.len() - 1]);
                law_upsert_in_place(mid, sec);
                lemma_source_index(mid, sec.source);
                assert forall|j: int|
                    0 <= j < secs.len() && (#[trigger] secs[j]).source is Local implies applied_fetches(
                    secs,
                    rs,
                ).0[j] == secs[j] by {
                    assert(mid[j] == secs[j]);
                    let i = source_index(mid, sec.source);
                    if i >= 0 {
                        assert(mid[i].source == sec.source);
                        assert(i != j);
                    }
                }
            },
            Err(_) => {},
        }
    }
}

/// On a kanban board, moving to the next card of the cell and back
/// returns to the card the cursor was on.
pub proof fn law_card_cursor_round_trip(a: AppView)
    requires
        selected_of(a) is Some,
        a.kanban_item < cell_of(selected_of(a).unwrap().todos, a.kanban_board, a.kanban_column).len()
            <= usize::MAX,
    ensures
        after_move_kanban_item(after_move_kanban_item(a, 1), -1).kanban_item == a.kanban_item,
        after_move_kanban_item(a, 1).kanban_item < cell_of(
            selected_of(a).unwrap().todos,
            a.kanban_board,
            a.kanban_column,
        ).len(),
{
    let n = cell_of(selected_of(a).unwrap().todos, a.kanban_board, a.kanban_column).len() as int;
    let a1 = after_move_kanban_item(a, 1);
    assert(selected_of(a1) == selected_of(a));
    lemma_wrap(a.kanban_item as int, n);
    lemma_wrap(a1.kanban_item as int, n);
}


/// On a multi-board section, `j` moves down through the cards of the
/// column and goes on to the next board only past the last card; `k` then
/// comes back to the board and column it left (the column existing on every
/// board), and to the card it left unless `j` had crossed to the next board,
/// in which case it lands on the first card.
pub proof fn law_stacked_boards_down_up(a: AppView)
    requires
        a.focus == Focus::Todos,
        selected_of(a) is Some,
        selected_of(a).unwrap().boards is Some,
        0 < selected_of(a).unwrap().boards.unwrap().len() <= usize::MAX,
        a.kanban_board < selected_of(a).unwrap().boards.unwrap().len(),
        forall|g: int|
            0 <= g < selected_of(a).unwrap().boards.unwrap().len() ==> a.kanban_column
                < (#[trigger] selected_of(a).unwrap().boards.unwrap()[g]).columns.len(),
        cursor_cell_len(a) <= usize::MAX,
        a.kanban_item < cursor_cell_len(a) || (cursor_cell_len(a) == 0 && a.kanban_item == 0),
    ensures
        a.kanban_item + 1 < cursor_cell_len(a) ==> after_next(a).kanban_board == a.kanban_board
            && after_next(a).kanban_item == a.kanban_item + 1,
        a.kanban_item + 1 >= cursor_cell_len(a) ==> after_next(a).kanban_board != a.kanban_board
            || selected_of(a).unwrap().boards.unwrap().len() == 1,
        a.kanban_item + 1 >= cursor_cell_len(a) ==> after_next(a).kanban_item == 0,
        after_previous(after_next(a)).kanban_board == a.kanban_board,
        after_previous(after_next(a)).kanban_column == a.kanban_column,
        after_previous(after_next(a)).kanban_item == (if a.kanban_item + 1 < cursor_cell_len(a) {
            a.kanban_item
        } else {
            0
        }),
{
    let s = selected_of(a).unwrap();
    let bs = s.boards.unwrap();
    let n = bs.len() as int;
    let b = a.kanban_board as int;
    let a1 = after_next(a);
    lemma_wrap(b, n);
    assert(selected_of(a1) == selected_of(a));
    if a.kanban_item + 1 >= cursor_cell_len(a) {
        let b1 = a1.kanban_board as int;
        assert(b1 == (b + 1) % n);
        assert(a.kanban_column < bs[b1].columns.len());
        assert(a1.kanban_column == a.kanban_column);
        lemma_wrap(b1, n);
        let a2 = after_move_kanban_board(a1, -1);
        assert(a2.kanban_board == a.kanban_board);
        assert(a.kanban_column < bs[b].columns.len());
        assert(a2.kanban_column == a.kanban_column);
        assert(selected_of(a2) == selected_of(a));
    }
}


/// Two kept candidates never share a column.
proof fn lemma_positions_distinct(q: ColumnQuery, j1: int, j2: int)
    requires
        0 <= j1 < q.len(),
        0 <= j2 < q.len(),
        q.kept(j1),
        q.kept(j2),
        j1 != j2,
    ensures
        q.position(j1) != q.position(j2),
{
    if q.before(j1, j2) {
        lemma_kept_before_grows(q, j1, j2, q.len() as int);
    } else {
        assert(q.before(j2, j1));
        lemma_kept_before_grows(q, j2, j1, q.len() as int);
    }
}

/// A board has one layout only: `lays_out` decides the names and the
/// issues' columns.
pub proof fn law_layout_is_unique(
    q: ColumnQuery,
    n1: Seq<Seq<char>>,
    i1: Seq<usize>,
    n2: Seq<Seq<char>>,
    i2: Seq<usize>,
)
    requires
        q.lays_out(n1, i1),
        q.lays_out(n2, i2),
    ensures
        n1 == n2,
        i1 == i2,
{
    assert forall|p: int| 0 <= p < n1.len() implies n1[p] == n2[p] by {
        assert(q.shown_at(p, n1[p]));
        assert(q.shown_at(p, n2[p]));
        let j1 = choose|j: int|
            0 <= j < q.len() && q.kept(j) && (#[trigger] q.position(j)) == p && n1[p]
                == q.entries[j].1;
        let j2 = choose|j: int|
            0 <= j < q.len() && q.kept(j) && (#[trigger] q.position(j)) == p && n2[p]
                == q.entries[j].1;
        if j1 != j2 {
            lemma_positions_distinct(q, j1, j2);
        }
    }
    assert forall|k: int| 0 <= k < i1.len() implies i1[k] == i2[k] by {
        assert(i1[k] == q.position(q.slot(k)));
        assert(i2[k] == q.position(q.slot(k)));
    }
    assert(n1 =~= n2);
    assert(i1 =~= i2);
}

/// Queries that keep the same candidates count the same kept candidates.
proof fn lemma_same_kept_counts(q1: ColumnQuery, q2: ColumnQuery, x: int, m: int)
    requires
        q1.entries == q2.entries,
        q1.lower_names == q2.lower_names,
        q1.order == q2.order,
        q1.issue_ids == q2.issue_ids,
        forall|j: int| 0 <= j < q1.len() ==> #[trigger] q1.kept(j) == q2.kept(j),
        m <= q1.len(),
    ensures
        q1.kept_before(x, m) == q2.kept_before(x, m),
        q1.kept_count(m) == q2.kept_count(m),
    decreases m,
{
    if m > 0 {
        lemma_same_kept_counts(q1, q2, x, m - 1);
        assert(q1.kept(m - 1) == q2.kept(m - 1));
    }
}

/// Queries that differ only in their exclusions but keep the same
/// candidates lay the board out the same way.
proof fn lemma_same_kept_same_layout(
    q1: ColumnQuery,
    q2: ColumnQuery,
    names: Seq<Seq<char>>,
    indices: Seq<usize>,
)
    requires
        q1.entries == q2.entries,
        q1.lower_names == q2.lower_names,
        q1.order == q2.order,
        q1.issue_ids == q2.issue_ids,
        forall|j: int| 0 <= j < q1.len() ==> #[trigger] q1.kept(j) == q2.kept(j),
        q1.lays_out(names, indices),
    ensures
        q2.lays_out(names, indices),
{
    lemma_same_kept_counts(q1, q2, 0, q1.len() as int);
    assert forall|j: int| 0 <= j < q1.len() implies #[trigger] q1.position(j) == q2.position(j) by {
        lemma_same_kept_counts(q1, q2, j, q1.len() as int);
    }
    assert(names.len() == q2.kept_count(q2.len() as int));
    assert forall|k: int| 0 <= k < indices.len() implies 0 <= #[trigger] q2.slot(k) < q2.len() by {
        assert(q1.slot(k) == q2.slot(k));
    }
    assert forall|k: int| 0 <= k < indices.len() implies q2.kept(#[trigger] q2.slot(k)) by {
        assert(q1.slot(k) == q2.slot(k));
        assert(q1.kept(q1.slot(k)));
    }
    assert forall|k: int| 0 <= k < indices.len() implies (#[trigger] indices[k]) == q2.position(
        q2.slot(k),
    ) by {
        assert(q1.slot(k) == q2.slot(k));
        assert(0 <= q1.slot(k) < q1.len());
        assert(q1.position(q1.slot(k)) == q2.position(q1.slot(k)));
    }
    assert forall|j: int| 0 <= j < q2.len() && q2.kept(j) implies (#[trigger] q2.position(j))
        < names.len() && names[q2.position(j) as int] == q2.entries[j].1 by {
        assert(q1.kept(j));
        assert(q1.position(j) == q2.position(j));
    }
    assert forall|p: int| 0 <= p < names.len() implies q2.shown_at(p, #[trigger] names[p]) by {
        assert(q1.shown_at(p, names[p]));
        let j = choose|j: int|
            0 <= j < q1.len() && q1.kept(j) && (#[trigger] q1.position(j)) == p && names[p]
                == q1.entries[j].1;
        assert(q1.position(j) == q2.position(j));
        assert(q2.kept(j));
    }
}

/// Adding to the excluded names a name that only columns holding a ticket
/// have changes nothing: the board is laid out exactly as before.
pub proof fn law_excluding_occupied_columns(
    q: ColumnQuery,
    x: Seq<char>,
    n1: Seq<Seq<char>>,
    i1: Seq<usize>,
    n2: Seq<Seq<char>>,
    i2: Seq<usize>,
)
    requires
        forall|j: int| 0 <= j < q.len() && #[trigger] q.lower_names[j] == x ==> q.occupied(j),
        q.lays_out(n1, i1),
        (ColumnQuery { excluded: q.excluded.push(x), ..q }).lays_out(n2, i2),
    ensures
        n1 == n2,
        i1 == i2,
{
    let q2 = ColumnQuery { excluded: q.excluded.push(x), ..q };
    assert forall|j: int| 0 <= j < q.len() implies #[trigger] q.kept(j) == q2.kept(j) by {
        if q.excluded_name(j) {
            let m = choose|m: int|
                0 <= m < q.excluded.len() && (#[trigger] q.excluded[m]) == q.lower_names[j];
            assert(q2.excluded[m] == q.excluded[m]);
        }
        if q2.excluded_name(j) && !q.excluded_name(j) {
            let m = choose|m: int|
                0 <= m < q2.excluded.len() && (#[trigger] q2.excluded[m]) == q2.lower_names[j];
            if m < q.excluded.len() {
                assert(q.excluded[m] == q2.excluded[m]);
            } else {
                assert(q.lower_names[j] == x);
            }
        }
        if q.occupied(j) {
            let k = choose|k: int| 0 <= k < q.issue_ids.len() && (#[trigger] q.slot(k)) == j;
            assert(q2.slot(k) == j);
        }
        if q2.occupied(j) {
            let k = choose|k: int| 0 <= k < q2.issue_ids.len() && (#[trigger] q2.slot(k)) == j;
            assert(q.slot(k) == j);
        }
    }
    lemma_same_kept_same_layout(q2, q, n2, i2);
    law_layout_is_unique(q, n1, i1, n2, i2);
}


/// Adding the status name of an issue (in any letter case) to
/// `excluded_columns` never changes the board `status_columns` lays out:
/// a column holding a ticket is never hidden. This holds when the
/// candidate columns (the workflow's statuses, then the issues' new ones)
/// have distinct ids, statuses with different ids have different
/// lower-cased names, and the candidate with the issue's status id bears
/// the issue's status name.
pub proof fn law_excluding_an_issue_status(
    all_statuses: Option<Seq<ProjectStatus>>,
    issues: Seq<Issue>,
    prefs: JiraConfig,
    prefs2: JiraConfig,
    k: int,
    s: String,
    n1: Seq<Seq<char>>,
    i1: Seq<usize>,
    n2: Seq<Seq<char>>,
    i2: Seq<usize>,
)
    requires
        0 <= k < issues.len(),
        prefs2.column_order@ == prefs.column_order@,
        prefs2.excluded_columns@ == prefs.excluded_columns@.push(s),
        lowercase(s@) == lowercase(issues[k].fields.status.name@),
        forall|j1: int, j2: int|
            0 <= j1 < j2 < column_query(all_statuses, issues, prefs).len() ==> (#[trigger] column_query(
                all_statuses,
                issues,
                prefs,
            ).entries[j1]).0 != (#[trigger] column_query(all_statuses, issues, prefs).entries[j2]).0,
        forall|j1: int, j2: int|
            0 <= j1 < column_query(all_statuses, issues, prefs).len() && 0 <= j2 < column_query(
                all_statuses,
                issues,
                prefs,
            ).len() && (#[trigger] column_query(all_statuses, issues, prefs).entries[j1]).0
                != (#[trigger] column_query(all_statuses, issues, prefs).entries[j2]).0 ==> lowercase(
                column_query(all_statuses, issues, prefs).entries[j1].1,
            ) != lowercase(column_query(all_statuses, issues, prefs).entries[j2].1),
        forall|j: int|
            0 <= j < column_query(all_statuses, issues, prefs).len() && (#[trigger] column_query(
                all_statuses,
                issues,
                prefs,
            ).entries[j]).0 == issues[k].fields.status.id@ ==> column_query(
                all_statuses,
                issues,
                prefs,
            ).entries[j].1 == issues[k].fields.status.name@,
        column_query(all_statuses, issues, prefs).lays_out(n1, i1),
        column_query(all_statuses, issues, prefs2).lays_out(n2, i2),
    ensures
        n1 == n2,
        i1 == i2,
{
    let q = column_query(all_statuses, issues, prefs);
    let q2 = column_query(all_statuses, issues, prefs2);
    let x = lowercase(s@);
    assert(lowercase_all(prefs2.excluded_columns@) =~= lowercase_all(prefs.excluded_columns@).push(x));
    assert(q2 == (ColumnQuery { excluded: q.excluded.push(x), ..q }));
    let id = issues[k].fields.status.id@;
    lemma_candidates_have_issue_ids(workflow_entries(all_statuses), issues, k);
    lemma_last_slot(q.entries, q.issue_ids[k], q.len() as int);
    assert(q.issue_ids[k] == id);
    let t = q.slot(k);
    assert(0 <= t < q.len()) by {
        let w = choose|w: int| 0 <= w < q.entries.len() && (#[trigger] q.entries[w]).0 == id;
        assert(q.entries[w].0 == id);
    }
    assert(q.entries[t].0 == id);
    assert(q.lower_names[t] == x);
    assert(q.occupied(t));
    assert forall|j: int| 0 <= j < q.len() && #[trigger] q.lower_names[j] == x implies q.occupied(j) by {
        if j != t {
            if q.entries[j].0 != q.entries[t].0 {
                assert(lowercase(q.entries[j].1) != lowercase(q.entries[t].1));
            } else if j < t {
                assert(q.entries[j].0 != q.entries[t].0);
            } else {
                assert(q.entries[t].0 != q.entries[j].0);
            }
        }
    }
    law_excluding_occupied_columns(q, x, n1, i1, n2, i2);
}


/// Moving a card linked to a reminder first asks Reminders to mark the
/// reminder completed exactly when the card lands in the last column of its
/// board (and not completed otherwise); the state waits for that call, and
/// the follow-up moves the card to the target column with the same flag.
pub proof fn law_reminder_card_move_completes_in_last_column(a: AppView, delta: int, i: int)
    requires
        a.focus == Focus::Todos,
        selected_of(a) is Some,
        selected_of(a).unwrap().source is Reminders,
        current_card(a) == Some(i),
        selected_of(a).unwrap().todos[i].external_id is Some,
        board_columns_of(selected_of(a).unwrap(), selected_of(a).unwrap().todos[i]) is Some,
        ({
            let t = selected_of(a).unwrap().todos[i];
            let n = board_columns_of(selected_of(a).unwrap(), t).unwrap().len();
            let from = if t.column < n { t.column as int } else { n - 1 };
            0 <= from + delta < n
        }),
    ensures
        ({
            let t = selected_of(a).unwrap().todos[i];
            let cols = board_columns_of(selected_of(a).unwrap(), t).unwrap();
            let from = if t.column < cols.len() { t.column as int } else { cols.len() - 1 };
            let to = from + delta;
            let last = to == cols.len() - 1;
            &&& move_card_outcome(a, delta).0 == a
            &&& move_card_outcome(a, delta).1 == Some(
                PendingView {
                    call: CallView::SetReminderCompleted {
                        identifier: t.external_id.unwrap(),
                        completed: last,
                    },
                    followup: FollowupView::CardMove {
                        todo: i as usize,
                        column: to as usize,
                        is_last: last,
                        column_name: cols[to],
                    },
                },
            )
        }),
{
    lemma_current_card_in_range(a);
    let s = selected_of(a).unwrap();
    let t = s.todos[i];
    let cols = board_columns_of(s, t).unwrap();
    let n = cols.len();
    let from = if t.column < n { t.column as int } else { n - 1 };
    assert(saturating_pred(n) == n - 1);
    assert(moved_column(n, t.column, delta) == Some((from + delta) as nat));
}

/// Space on a task of a plain list flips whether it is done: a local task
/// is flipped at once (and a second Space restores the state), a task
/// linked to a reminder asks Reminders for the flipped state first.
pub proof fn law_toggle_flips_done(a: AppView)
    requires
        a.focus == Focus::Todos,
        selected_of(a) is Some,
        !(selected_of(a).unwrap().source is Calendar),
        selected_of(a).unwrap().columns is None,
        selected_of(a).unwrap().boards is None,
        a.selected_todo < selected_of(a).unwrap().todos.len(),
    ensures
        ({
            let s = selected_of(a).unwrap();
            let t = s.todos[a.selected_todo as int];
            let linked = s.source is Reminders && t.external_id is Some;
            let a1 = toggle_outcome(a).0;
            &&& linked ==> a1 == a && toggle_outcome(a).1 == Some(
                PendingView {
                    call: CallView::SetReminderCompleted {
                        identifier: t.external_id.unwrap(),
                        completed: !t.is_done,
                    },
                    followup: FollowupView::Toggle { todo: a.selected_todo, done: !t.is_done },
                },
            )
            &&& !linked ==> toggle_outcome(a).1 is None && a1 == (AppView {
                sections: a.sections.update(
                    a.selected_section as int,
                    SectionView {
                        todos: s.todos.update(
                            a.selected_todo as int,
                            TodoView { is_done: !t.is_done, ..t },
                        ),
                        ..s
                    },
                ),
                ..a
            })
            &&& !linked ==> toggle_outcome(a1).1 is None && toggle_outcome(a1).0 == a
        }),
{
    let s = selected_of(a).unwrap();
    let st = a.selected_todo as int;
    let t = s.todos[st];
    let linked = s.source is Reminders && t.external_id is Some;
    if !linked {
        let a1 = toggle_outcome(a).0;
        let t1 = TodoView { is_done: !t.is_done, ..t };
        let s1 = SectionView { todos: s.todos.update(st, t1), ..s };
        assert(a1.sections == a.sections.update(a.selected_section as int, s1));
        assert(selected_of(a1) == Some(s1));
        assert(s1.todos[st] == t1);
        let t2 = TodoView { is_done: !t1.is_done, ..t1 };
        assert(t2 == t);
        let s2 = SectionView { todos: s1.todos.update(st, t2), ..s1 };
        assert(s2.todos =~= s.todos);
        assert(s2 == s);
        let a2 = toggle_outcome(a1).0;
        assert(a2.sections == a1.sections.update(a.selected_section as int, s2));
        assert(a2.sections =~= a.sections);
        assert(a2 == a);
    }
}

/// In normal mode `h` does what moving left does and `l` what moving right
/// does, whatever modifiers are held: on a kanban board with the tasks
/// focused, `h` takes the column cursor one column left and `l` one column
/// right, when there is such a column.
pub proof fn law_h_and_l_keys(a: AppView, m: u8, id: u128, n: nat)
    requires
        a.input_mode == InputMode::Normal,
    ensures
        key_outcome(a, KeyEvent { code: KeyCode::Char('h'), modifiers: m }, id).0 == after_on_left(a),
        key_outcome(a, KeyEvent { code: KeyCode::Char('h'), modifiers: m }, id).1 is None,
        key_outcome(a, KeyEvent { code: KeyCode::Char('l'), modifiers: m }, id).0 == after_on_right(a),
        key_outcome(a, KeyEvent { code: KeyCode::Char('l'), modifiers: m }, id).1 is None,
        a.focus == Focus::Todos && current_is_kanban(a) && current_column_count(a) == Some(n) && 0
            < a.kanban_column < n ==> key_outcome(
            a,
            KeyEvent { code: KeyCode::Char('h'), modifiers: m },
            id,
        ).0.kanban_column == a.kanban_column - 1,
        a.focus == Focus::Todos && current_is_kanban(a) && current_column_count(a) == Some(n)
            && a.kanban_column + 1 < n <= usize::MAX ==> key_outcome(
            a,
            KeyEvent { code: KeyCode::Char('l'), modifiers: m },
            id,
        ).0.kanban_column == a.kanban_column + 1,
{
}

/// The sources of sections, in section order.
pub open spec fn section_sources(secs: Seq<SectionView>) -> Seq<SourceView> {
    secs.map_values(|s: SectionView| s.source)
}

/// Whether a source is linked to an outside system of kind `kind`.
pub open spec fn links_to(kind: LinkKind) -> spec_fn(SourceView) -> bool {
    |src: SourceView| is_link_of(src, kind)
}

/// A re-sync fetches, for each kind of outside system, the source of every
/// section linked to it, in section order: all the sections' sources with
/// those of other kinds left out, none missing and none repeated beyond
/// the sections that hold them.
pub proof fn law_resync_fetches_every_linked_source(secs: Seq<SectionView>, kind: LinkKind)
    ensures
        linked_of(secs, kind) == section_sources(secs).filter(links_to(kind)),
        forall|j: int|
            0 <= j < secs.len() && is_link_of((#[trigger] secs[j]).source, kind) ==> linked_of(
                secs,
                kind,
            ).contains(secs[j].source),
        linked_sources(secs) == section_sources(secs).filter(links_to(LinkKind::Reminders))
            + section_sources(secs).filter(links_to(LinkKind::Calendar)) + section_sources(
            secs,
        ).filter(links_to(LinkKind::Jira)),
    decreases secs.len(),
{
    lemma_linked_is_filter(secs, LinkKind::Reminders);
    lemma_linked_is_filter(secs, LinkKind::Calendar);
    lemma_linked_is_filter(secs, LinkKind::Jira);
    lemma_linked_is_filter(secs, kind);
    assert forall|j: int|
        0 <= j < secs.len() && is_link_of((#[trigger] secs[j]).source, kind) implies linked_of(
        secs,
        kind,
    ).contains(secs[j].source) by {
        assert(section_sources(secs)[j] == secs[j].source);
        section_sources(secs).lemma_filter_contains(links_to(kind), j);
    }
}

proof fn lemma_linked_is_filter(secs: Seq<SectionView>, kind: LinkKind)
    ensures
        linked_of(secs, kind) == section_sources(secs).filter(links_to(kind)),
    decreases secs.len(),
{
    reveal(Seq::filter);
    if secs.len() > 0 {
        lemma_linked_is_filter(secs.drop_last(), kind);
        assert(section_sources(secs).drop_last() =~= section_sources(secs.drop_last()));
        assert(section_sources(secs).last() == secs.last().source);
    } else {
        assert(section_sources(secs) =~= seq![]);
    }
}

/// A scan skips hidden entries and the `target`, `node_modules` and
/// `build` directories, and no other entry.
pub proof fn law_scan_skips_only_hidden_and_build_entries(name: Seq<char>)
    ensures
        name.len() > 0 && name[0] == '.' ==> skipped_name(name),
        skipped_name("target"@),
        skipped_name("node_modules"@),
        skipped_name("build"@),
        (name.len() == 0 || name[0] != '.') && name != "target"@ && name != "node_modules"@ && name
            != "build"@ ==> !skipped_name(name),
{
}

} // verus!
