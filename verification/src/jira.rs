//! Jira boards: which columns a project's board shows, in which order, and
//! in which column each issue lands; how issues are grouped into one board
//! per project; and which workflow transition moves an issue to a column.
//!
//! The HTTP exchanges with Jira Cloud are the application's job; this module
//! holds the decoded replies as plain values and decides everything else.

use vstd::prelude::*;
use crate::config::JiraConfig;
use crate::models::todos::{
    boards_view, is_random_uuid, new_id, todos_view, BoardView, KanbanBoard, Section, SectionSource,
    SourceView, Todo, TodoView,
};
use crate::text::{chars_of, concat2, concat3, lowercase, opt_str_view, str_equal, to_lowercase};
use vstd::string::StrSliceExecFns;

verus! {

/// Default JQL: "my unfinished issues". Uses `statusCategory != Done`
/// rather than `resolution = Unresolved`, since the status category always
/// reflects the issue's actual current state.
pub const DEFAULT_JQL: &'static str = "assignee = currentUser() AND statusCategory != Done";

/// A status category (`new`, `indeterminate` or `done`).
#[derive(Debug, Clone)]
pub struct StatusCategory {
    pub key: String,
}

/// The status an issue currently sits in.
#[derive(Debug, Clone)]
pub struct Status {
    pub id: String,
    pub name: String,
    pub status_category: StatusCategory,
}

/// The project an issue belongs to.
#[derive(Debug, Clone)]
pub struct IssueProject {
    pub key: String,
}

/// The fields of an issue that the boards use.
#[derive(Debug, Clone)]
pub struct IssueFields {
    pub summary: String,
    pub status: Status,
    pub project: IssueProject,
}

/// One issue returned by a JQL search.
#[derive(Debug, Clone)]
pub struct Issue {
    pub key: String,
    pub fields: IssueFields,
}

/// One status of a project's workflow.
#[derive(Debug, Clone)]
pub struct ProjectStatus {
    pub id: String,
    pub name: String,
    pub status_category: StatusCategory,
}

/// A status as the column computation sees it: id, name, category key.
pub type StatusEntry = (Seq<char>, Seq<char>, Seq<char>);

pub open spec fn project_status_entry(s: ProjectStatus) -> StatusEntry {
    (s.id@, s.name@, s.status_category.key@)
}

pub open spec fn issue_status_entry(i: Issue) -> StatusEntry {
    (i.fields.status.id@, i.fields.status.name@, i.fields.status.status_category.key@)
}

/// Whether some entry of `entries` has the id `id`.
pub open spec fn has_status_id(entries: Seq<StatusEntry>, id: Seq<char>) -> bool {
    exists|j: int| 0 <= j < entries.len() && (#[trigger] entries[j]).0 == id
}

/// The candidate columns: `base`, followed by the status of every issue
/// whose status id is not there yet, in the order the issues come.
pub open spec fn column_candidates(base: Seq<StatusEntry>, issues: Seq<Issue>) -> Seq<StatusEntry>
    decreases issues.len(),
{
    if issues.len() == 0 {
        base
    } else {
        let prev = column_candidates(base, issues.drop_last());
        let e = issue_status_entry(issues.last());
        if has_status_id(prev, e.0) {
            prev
        } else {
            prev.push(e)
        }
    }
}

/// The statuses of the project's whole workflow, when they are known.
pub open spec fn workflow_entries(all_statuses: Option<Seq<ProjectStatus>>) -> Seq<StatusEntry> {
    match all_statuses {
        Some(s) => entries_of(s),
        None => seq![],
    }
}

/// The statuses of an optional slice, as a sequence.
pub open spec fn slice_seq(o: Option<&[ProjectStatus]>) -> Option<Seq<ProjectStatus>> {
    match o {
        Some(s) => Some(s@),
        None => None,
    }
}

/// The statuses of an optional vector, as a sequence.
pub open spec fn vec_seq(o: Option<Vec<ProjectStatus>>) -> Option<Seq<ProjectStatus>> {
    match o {
        Some(v) => Some(v@),
        None => None,
    }
}

/// Index of the first element of `list` equal to `x`, or `-1`.
pub open spec fn first_match(list: Seq<Seq<char>>, x: Seq<char>) -> int
    decreases list.len(),
{
    if list.len() == 0 {
        -1
    } else if list[0] == x {
        0
    } else {
        let r = first_match(list.drop_first(), x);
        if r < 0 {
            -1
        } else {
            r + 1
        }
    }
}

/// Relative ordering of a Jira status category: new, then in progress
/// (`indeterminate` and any unknown category), then done.
pub open spec fn category_order(key: Seq<char>) -> u8 {
    if key == "new"@ {
        0
    } else if key == "done"@ {
        2
    } else {
        1
    }
}

/// Sort key of a candidate column with lower-cased name `lname` and
/// status category `category`, given the lower-cased `column_order`:
/// `(0, p)` when the name is the `p`-th entry there, else
/// `(1, category order)`.
pub open spec fn column_key(order: Seq<Seq<char>>, lname: Seq<char>, category: Seq<char>) -> (int, int) {
    let p = first_match(order, lname);
    if p >= 0 {
        (0, p)
    } else {
        (1, category_order(category) as int)
    }
}

pub open spec fn entries_of(v: Seq<ProjectStatus>) -> Seq<StatusEntry> {
    v.map_values(|p: ProjectStatus| project_status_entry(p))
}

pub open spec fn views_of(v: Seq<String>) -> Seq<Seq<char>> {
    v.map_values(|s: String| s@)
}

/// Everything the column computation depends on.
pub struct ColumnQuery {
    /// Candidate columns (see `column_candidates`).
    pub entries: Seq<StatusEntry>,
    /// The name of each candidate, lower-cased.
    pub lower_names: Seq<Seq<char>>,
    /// `column_order`, lower-cased.
    pub order: Seq<Seq<char>>,
    /// `excluded_columns`, lower-cased.
    pub excluded: Seq<Seq<char>>,
    /// Status id of each issue, in order.
    pub issue_ids: Seq<Seq<char>>,
}

pub open spec fn lowercase_all(v: Seq<String>) -> Seq<Seq<char>> {
    v.map_values(|s: String| lowercase(s@))
}

/// The name of each entry, lower-cased.
pub open spec fn lowered_names(entries: Seq<StatusEntry>) -> Seq<Seq<char>> {
    entries.map_values(|e: StatusEntry| lowercase(e.1))
}

pub open spec fn column_query(
    all_statuses: Option<Seq<ProjectStatus>>,
    issues: Seq<Issue>,
    prefs: JiraConfig,
) -> ColumnQuery {
    let entries = column_candidates(workflow_entries(all_statuses), issues);
    ColumnQuery {
        entries,
        lower_names: lowered_names(entries),
        order: lowercase_all(prefs.column_order@),
        excluded: lowercase_all(prefs.excluded_columns@),
        issue_ids: issue_status_ids(issues),
    }
}

/// Index of the last entry below `m` with id `id`, or `-1`.
pub open spec fn last_slot(entries: Seq<StatusEntry>, id: Seq<char>, m: int) -> int
    decreases m,
{
    if m <= 0 {
        -1
    } else if entries[m - 1].0 == id {
        m - 1
    } else {
        last_slot(entries, id, m - 1)
    }
}

impl ColumnQuery {
    pub open spec fn len(self) -> nat {
        self.entries.len()
    }

    /// Sort key of candidate `i` (see `column_key`).
    pub open spec fn key(self, i: int) -> (int, int) {
        column_key(self.order, self.lower_names[i], self.entries[i].2)
    }

    /// Whether candidate `i` comes before candidate `j` (by key, then by
    /// candidate order: the sort is stable).
    pub open spec fn before(self, i: int, j: int) -> bool {
        let a = self.key(i);
        let b = self.key(j);
        ||| a.0 < b.0
        ||| (a.0 == b.0 && a.1 < b.1)
        ||| (a.0 == b.0 && a.1 == b.1 && i < j)
    }

    /// The candidate that issue `k` is shown in: the last one with its
    /// status id.
    pub open spec fn slot(self, k: int) -> int {
        last_slot(self.entries, self.issue_ids[k], self.entries.len() as int)
    }

    /// Whether some issue is shown in candidate `j`.
    pub open spec fn occupied(self, j: int) -> bool {
        exists|k: int| 0 <= k < self.issue_ids.len() && (#[trigger] self.slot(k)) == j
    }

    /// Whether candidate `j`'s name is among the excluded columns.
    pub open spec fn excluded_name(self, j: int) -> bool {
        exists|m: int|
            0 <= m < self.excluded.len() && (#[trigger] self.excluded[m]) == self.lower_names[j]
    }

    /// Whether candidate `j` stays on the board: it holds a ticket, or it is
    /// not excluded.
    pub open spec fn kept(self, j: int) -> bool {
        self.occupied(j) || !self.excluded_name(j)
    }

    /// Number of kept candidates below `m` that come before `x`.
    pub open spec fn kept_before(self, x: int, m: int) -> nat
        decreases m,
    {
        if m <= 0 {
            0
        } else {
            self.kept_before(x, m - 1) + if self.kept(m - 1) && self.before(m - 1, x) {
                1nat
            } else {
                0nat
            }
        }
    }

    /// Number of kept candidates below `m`.
    pub open spec fn kept_count(self, m: int) -> nat
        decreases m,
    {
        if m <= 0 {
            0
        } else {
            self.kept_count(m - 1) + if self.kept(m - 1) {
                1nat
            } else {
                0nat
            }
        }
    }

    /// Final column index of kept candidate `x`: the number of kept
    /// candidates that come before it.
    pub open spec fn position(self, x: int) -> nat {
        self.kept_before(x, self.len() as int)
    }

    /// Whether the column at index `p` is a kept candidate named `name`.
    pub open spec fn shown_at(self, p: int, name: Seq<char>) -> bool {
        exists|j: int|
            0 <= j < self.len() && self.kept(j) && (#[trigger] self.position(j)) == p && name
                == self.entries[j].1
    }

    /// Whether `names` are the board's column names and `indices` the
    /// column of each issue: the kept candidates, in the order of `before`,
    /// each issue in the column of its slot.
    pub open spec fn lays_out(self, names: Seq<Seq<char>>, indices: Seq<usize>) -> bool {
        &&& names.len() == self.kept_count(self.len() as int)
        &&& indices.len() == self.issue_ids.len()
        &&& forall|k: int| 0 <= k < indices.len() ==> 0 <= #[trigger] self.slot(k) < self.len()
        &&& forall|k: int| 0 <= k < indices.len() ==> self.kept(#[trigger] self.slot(k))
        &&& forall|k: int|
            0 <= k < indices.len() ==> (#[trigger] indices[k]) == self.position(self.slot(k))
        &&& forall|j: int|
            0 <= j < self.len() && self.kept(j) ==> (#[trigger] self.position(j)) < names.len()
        &&& forall|j: int|
            0 <= j < self.len() && self.kept(j) ==> names[(#[trigger] self.position(j)) as int]
                == self.entries[j].1
        &&& forall|p: int| 0 <= p < names.len() ==> self.shown_at(p, #[trigger] names[p])
    }

    /// Number of elements of `s` that come before `x`.
    pub open spec fn count_before(self, s: Seq<usize>, x: int) -> nat
        decreases s.len(),
    {
        if s.len() == 0 {
            0
        } else {
            self.count_before(s.drop_last(), x) + if self.before(s.last() as int, x) {
                1nat
            } else {
                0nat
            }
        }
    }

    pub proof fn lemma_count_before_concat(self, a: Seq<usize>, b: Seq<usize>, x: int)
        ensures
            self.count_before(a + b, x) == self.count_before(a, x) + self.count_before(b, x),
        decreases b.len(),
    {
        if b.len() == 0 {
            assert(a + b =~= a);
        } else {
            self.lemma_count_before_concat(a, b.drop_last(), x);
            assert((a + b).drop_last() =~= a + b.drop_last());
        }
    }

    pub proof fn lemma_count_before_insert(self, s: Seq<usize>, p: int, e: usize, x: int)
        requires
            0 <= p <= s.len(),
        ensures
            self.count_before(s.insert(p, e), x) == self.count_before(s, x) + if self.before(
                e as int,
                x,
            ) {
                1nat
            } else {
                0nat
            },
    {
        let pre = s.subrange(0, p);
        let post = s.subrange(p, s.len() as int);
        self.lemma_count_before_concat(pre.push(e), post, x);
        self.lemma_count_before_concat(pre, post, x);
        assert(pre.push(e).drop_last() =~= pre);
        assert(pre + post =~= s);
    }

    /// In a sequence sorted by `before`, exactly the elements in front of
    /// the `q`-th one come before it.
    pub proof fn lemma_count_before_sorted(self, s: Seq<usize>, q: int, m: int)
        requires
            0 <= q < s.len(),
            0 <= m <= s.len(),
            forall|a: int, b: int| 0 <= a < b < s.len() ==> self.before(s[a] as int, s[b] as int),
        ensures
            self.count_before(s.subrange(0, m), s[q] as int) == if m <= q {
                m
            } else {
                q
            },
        decreases m,
    {
        if m > 0 {
            self.lemma_count_before_sorted(s, q, m - 1);
            assert(s.subrange(0, m).drop_last() =~= s.subrange(0, m - 1));
            assert(s.subrange(0, m).last() == s[m - 1]);
            if m - 1 < q {
                assert(self.before(s[m - 1] as int, s[q] as int));
            } else if m - 1 > q {
                assert(self.before(s[q] as int, s[m - 1] as int));
                assert(!self.before(s[m - 1] as int, s[q] as int));
            } else {
                assert(!self.before(s[q] as int, s[q] as int));
            }
        }
    }
}

pub proof fn lemma_first_match(list: Seq<Seq<char>>, x: Seq<char>)
    ensures
        -1 <= first_match(list, x) < list.len(),
        first_match(list, x) == -1 <==> forall|j: int| 0 <= j < list.len() ==> list[j] != x,
        first_match(list, x) >= 0 ==> list[first_match(list, x)] == x && forall|j: int|
            0 <= j < first_match(list, x) ==> list[j] != x,
    decreases list.len(),
{
    if list.len() > 0 && list[0] != x {
        lemma_first_match(list.drop_first(), x);
        if first_match(list.drop_first(), x) < 0 {
            assert forall|j: int| 0 <= j < list.len() implies list[j] != x by {
                if j > 0 {
                    assert(list[j] == list.drop_first()[j - 1]);
                }
            }
        } else {
            assert forall|j: int| 0 <= j < first_match(list, x) implies list[j] != x by {
                if j > 0 {
                    assert(list[j] == list.drop_first()[j - 1]);
                }
            }
        }
    }
}

pub proof fn lemma_last_slot(entries: Seq<StatusEntry>, id: Seq<char>, m: int)
    requires
        0 <= m <= entries.len(),
    ensures
        -1 <= last_slot(entries, id, m) < m,
        last_slot(entries, id, m) >= 0 ==> entries[last_slot(entries, id, m)].0 == id,
        last_slot(entries, id, m) == -1 <==> forall|j: int| 0 <= j < m ==> entries[j].0 != id,
    decreases m,
{
    if m > 0 && entries[m - 1].0 != id {
        lemma_last_slot(entries, id, m - 1);
    }
}

/// Every issue's status id is among the candidates built from a prefix that
/// includes it.
pub proof fn lemma_candidates_have_issue_ids(base: Seq<StatusEntry>, issues: Seq<Issue>, k: int)
    requires
        0 <= k < issues.len(),
    ensures
        has_status_id(column_candidates(base, issues), issues[k].fields.status.id@),
    decreases issues.len(),
{
    let prev = column_candidates(base, issues.drop_last());
    if k < issues.len() - 1 {
        lemma_candidates_have_issue_ids(base, issues.drop_last(), k);
        let id = issues[k].fields.status.id@;
        let j = choose|j: int| 0 <= j < prev.len() && (#[trigger] prev[j]).0 == id;
        assert(column_candidates(base, issues)[j] == prev[j]);
    } else {
        let e = issue_status_entry(issues.last());
        if !has_status_id(prev, e.0) {
            assert(column_candidates(base, issues)[prev.len() as int] == e);
        }
    }
}

/// Relative ordering of a Jira status category: new < in progress < done.
pub fn category_rank(key: &str) -> (r: u8)
    ensures
        r == category_order(key@),
{
    if str_equal(key, "new") {
        0
    } else if str_equal(key, "done") {
        2
    } else {
        1
    }
}

fn copy_string(s: &String) -> (r: String)
    ensures
        r@ == s@,
{
    s.clone()
}

/// Lower-cased copies of `v`.
fn lowercase_vec(v: &Vec<String>) -> (r: Vec<String>)
    ensures
        r@.len() == v@.len(),
        forall|i: int| 0 <= i < v@.len() ==> (#[trigger] r@[i])@ == lowercase(v@[i]@),
{
    let mut r: Vec<String> = Vec::new();
    for i in 0..v.len()
        invariant
            r@.len() == i,
            forall|j: int| 0 <= j < i ==> (#[trigger] r@[j])@ == lowercase(v@[j]@),
    {
        r.push(to_lowercase(v[i].as_str()));
    }
    r
}

/// Index of the first element of `v` equal to `x`, if any.
fn position_of(v: &Vec<String>, x: &String) -> (r: Option<usize>)
    ensures
        match r {
            Some(p) => p as int == first_match(views_of(v@), x@),
            None => first_match(views_of(v@), x@) == -1,
        },
{
    let ghost list = views_of(v@);
    proof {
        lemma_first_match(list, x@);
    }
    for i in 0..v.len()
        invariant
            list == views_of(v@),
            forall|j: int| 0 <= j < i ==> list[j] != x@,
            -1 <= first_match(list, x@) < list.len(),
            first_match(list, x@) == -1 <==> forall|j: int|
                0 <= j < list.len() ==> list[j] != x@,
            first_match(list, x@) >= 0 ==> list[first_match(list, x@)] == x@ && forall|j: int|
                0 <= j < first_match(list, x@) ==> list[j] != x@,
    {
        if v[i] == *x {
            assert(list[i as int] == x@);
            return Some(i);
        }
    }
    None
}

/// Whether some element of `v` equals `x`.
fn contains_string(v: &Vec<String>, x: &String) -> (r: bool)
    ensures
        r == exists|j: int| 0 <= j < v@.len() && (#[trigger] v@[j])@ == x@,
{
    for i in 0..v.len()
        invariant
            forall|j: int| 0 <= j < i ==> (#[trigger] v@[j])@ != x@,
    {
        if v[i] == *x {
            return true;
        }
    }
    false
}

/// Lexicographic comparison of `(g1, v1, i)` and `(g2, v2, j)`.
fn key_before(g1: u8, v1: usize, i: usize, g2: u8, v2: usize, j: usize) -> (r: bool)
    ensures
        r == (g1 < g2 || (g1 == g2 && v1 < v2) || (g1 == g2 && v1 == v2 && i < j)),
{
    g1 < g2 || (g1 == g2 && v1 < v2) || (g1 == g2 && v1 == v2 && i < j)
}

fn copy_status(s: &ProjectStatus) -> (r: ProjectStatus)
    ensures
        project_status_entry(r) == project_status_entry(*s),
{
    ProjectStatus {
        id: copy_string(&s.id),
        name: copy_string(&s.name),
        status_category: StatusCategory { key: copy_string(&s.status_category.key) },
    }
}

fn status_of_issue(i: &Issue) -> (r: ProjectStatus)
    ensures
        project_status_entry(r) == issue_status_entry(*i),
{
    let st = &i.fields.status;
    ProjectStatus {
        id: copy_string(&st.id),
        name: copy_string(&st.name),
        status_category: StatusCategory { key: copy_string(&st.status_category.key) },
    }
}

/// The candidate columns: the workflow's statuses (when known), then the
/// status of every issue whose status id is not among them yet.
fn candidate_columns(all_statuses: Option<&[ProjectStatus]>, issues: &[Issue]) -> (r: Vec<
    ProjectStatus,
>)
    ensures
        entries_of(r@) == column_candidates(workflow_entries(slice_seq(all_statuses)), issues@),
{
    let mut cands: Vec<ProjectStatus> = Vec::new();
    match all_statuses {
        Some(all) => {
            for i in 0..all.len()
                invariant
                    cands@.len() == i,
                    forall|j: int|
                        0 <= j < i ==> project_status_entry(#[trigger] cands@[j])
                            == project_status_entry(all@[j]),
            {
                cands.push(copy_status(&all[i]));
            }
            assert(entries_of(cands@) =~= workflow_entries(slice_seq(all_statuses)));
        },
        None => {
            assert(entries_of(cands@) =~= workflow_entries(slice_seq(all_statuses)));
        },
    }
    let ghost base = workflow_entries(slice_seq(all_statuses));
    let mut ids: Vec<String> = Vec::new();
    for i in 0..cands.len()
        invariant
            ids@.len() == i,
            forall|j: int| 0 <= j < i ==> (#[trigger] ids@[j])@ == cands@[j].id@,
    {
        ids.push(copy_string(&cands[i].id));
    }
    for k in 0..issues.len()
        invariant
            entries_of(cands@) == column_candidates(base, issues@.take(k as int)),
            ids@.len() == cands@.len(),
            forall|j: int| 0 <= j < ids@.len() ==> (#[trigger] ids@[j])@ == cands@[j].id@,
    {
        let st = &issues[k].fields.status;
        let ghost prev = entries_of(cands@);
        assert(issues@.take(k + 1).drop_last() =~= issues@.take(k as int));
        assert(issues@.take(k + 1).last() == issues@[k as int]);
        let found = contains_string(&ids, &st.id);
        if found {
            let ghost j = choose|j: int| 0 <= j < ids@.len() && (#[trigger] ids@[j])@ == st.id@;
            assert(prev[j].0 == st.id@);
        } else {
            assert forall|j: int| 0 <= j < prev.len() implies (#[trigger] prev[j]).0 != st.id@ by {
                assert(ids@[j]@ == cands@[j].id@);
            }
            ids.push(copy_string(&st.id));
            cands.push(status_of_issue(&issues[k]));
            assert(entries_of(cands@) =~= prev.push(issue_status_entry(issues@[k as int])));
        }
    }
    assert(issues@.take(issues@.len() as int) =~= issues@);
    cands
}

/// For each issue, the last candidate with its status id.
fn issue_slots(cands: &Vec<ProjectStatus>, issues: &[Issue]) -> (r: Vec<usize>)
    requires
        forall|k: int|
            0 <= k < issues@.len() ==> has_status_id(
                entries_of(cands@),
                (#[trigger] issues@[k]).fields.status.id@,
            ),
    ensures
        r@.len() == issues@.len(),
        forall|k: int| 0 <= k < issues@.len() ==> (#[trigger] r@[k]) < cands@.len(),
        forall|k: int|
            0 <= k < issues@.len() ==> (#[trigger] r@[k]) as int == last_slot(
                entries_of(cands@),
                issues@[k].fields.status.id@,
                cands@.len() as int,
            ),
{
    let ghost es = entries_of(cands@);
    let n = cands.len();
    let mut slots: Vec<usize> = Vec::new();
    for k in 0..issues.len()
        invariant
            n == cands@.len(),
            es == entries_of(cands@),
            forall|k: int|
                0 <= k < issues@.len() ==> has_status_id(
                    es,
                    (#[trigger] issues@[k]).fields.status.id@,
                ),
            slots@.len() == k,
            forall|k2: int| 0 <= k2 < k ==> (#[trigger] slots@[k2]) < n,
            forall|k2: int|
                0 <= k2 < k ==> (#[trigger] slots@[k2]) as int == last_slot(
                    es,
                    issues@[k2].fields.status.id@,
                    n as int,
                ),
    {
        let id = &issues[k].fields.status.id;
        proof {
            lemma_last_slot(es, id@, n as int);
            assert(has_status_id(es, id@));
            let w = choose|w: int| 0 <= w < es.len() && (#[trigger] es[w]).0 == id@;
            assert(es[w].0 == id@);
        }
        let mut j = n;
        while j > 0 && !(cands[j - 1].id == *id)
            invariant
                0 <= j <= n,
                n == cands@.len(),
                es == entries_of(cands@),
                last_slot(es, id@, n as int) == last_slot(es, id@, j as int),
                last_slot(es, id@, n as int) != -1,
            decreases j,
        {
            assert(es[j - 1].0 == cands@[j - 1].id@);
            j = j - 1;
        }
        proof {
            lemma_last_slot(es, id@, j as int);
            if j > 0 {
                assert(es[j - 1].0 == cands@[j - 1].id@);
            }
        }
        slots.push(j - 1);
    }
    slots
}

/// Sort keys and lower-cased names of the candidates.
fn sort_keys(cands: &Vec<ProjectStatus>, lower_names: &Vec<String>, order_lower: &Vec<String>) -> (r: (
    Vec<u8>,
    Vec<usize>,
))
    requires
        lower_names@.len() == cands@.len(),
    ensures
        r.0@.len() == cands@.len(),
        r.1@.len() == cands@.len(),
        forall|j: int|
            0 <= j < cands@.len() ==> (#[trigger] r.0@[j]) as int == column_key(
                views_of(order_lower@),
                lower_names@[j]@,
                cands@[j].status_category.key@,
            ).0,
        forall|j: int|
            0 <= j < cands@.len() ==> (#[trigger] r.1@[j]) as int == column_key(
                views_of(order_lower@),
                lower_names@[j]@,
                cands@[j].status_category.key@,
            ).1,
{
    let ghost order = views_of(order_lower@);
    let mut key_group: Vec<u8> = Vec::new();
    let mut key_value: Vec<usize> = Vec::new();
    let mut i: usize = 0;
    while i < cands.len()
        invariant
            0 <= i <= cands@.len(),
            lower_names@.len() == cands@.len(),
            order == views_of(order_lower@),
            key_group@.len() == i,
            key_value@.len() == i,
            forall|j: int|
                0 <= j < i ==> (#[trigger] key_group@[j]) as int == column_key(
                    order,
                    lower_names@[j]@,
                    cands@[j].status_category.key@,
                ).0,
            forall|j: int|
                0 <= j < i ==> (#[trigger] key_value@[j]) as int == column_key(
                    order,
                    lower_names@[j]@,
                    cands@[j].status_category.key@,
                ).1,
        decreases cands@.len() - i,
    {
        let ghost lname = lower_names@[i as int]@;
        let ghost category = cands@[i as int].status_category.key@;
        let pos = position_of(order_lower, &lower_names[i]);
        let (g, v): (u8, usize) = match pos {
            Some(p) => {
                assert(column_key(order, lname, category) == (0int, p as int));
                (0, p)
            },
            None => {
                let rank = category_rank(cands[i].status_category.key.as_str());
                assert(column_key(order, lname, category) == (1int, rank as int));
                (1, rank as usize)
            },
        };
        key_group.push(g);
        key_value.push(v);
        i = i + 1;
    }
    (key_group, key_value)
}

/// `r[j]` tells whether some slot equals `j`.
fn occupied_flags(n: usize, slots: &Vec<usize>) -> (r: Vec<bool>)
    requires
        forall|k: int| 0 <= k < slots@.len() ==> (#[trigger] slots@[k]) < n,
    ensures
        r@.len() == n,
        forall|j: int|
            0 <= j < n ==> ((#[trigger] r@[j]) <==> exists|k: int|
                0 <= k < slots@.len() && (#[trigger] slots@[k]) == j),
{
    let mut occupied: Vec<bool> = Vec::new();
    for j in 0..n
        invariant
            occupied@.len() == j,
            forall|j2: int| 0 <= j2 < j ==> !(#[trigger] occupied@[j2]),
    {
        occupied.push(false);
    }
    for k in 0..slots.len()
        invariant
            occupied@.len() == n,
            forall|k2: int| 0 <= k2 < slots@.len() ==> (#[trigger] slots@[k2]) < n,
            forall|j2: int|
                0 <= j2 < n ==> ((#[trigger] occupied@[j2]) <==> exists|k2: int|
                    0 <= k2 < k && (#[trigger] slots@[k2]) == j2),
    {
        occupied.set(slots[k], true);
        assert forall|j2: int| 0 <= j2 < n implies ((#[trigger] occupied@[j2]) <==> exists|k2: int|
            0 <= k2 < k + 1 && (#[trigger] slots@[k2]) == j2) by {
            if j2 == slots@[k as int] {
                assert(slots@[k as int] == j2);
            }
        }
    }
    occupied
}

/// `r[j]`: candidate `j` holds a ticket, or its name is not excluded.
fn kept_flags(occupied: &Vec<bool>, lower_names: &Vec<String>, excluded_lower: &Vec<String>) -> (r:
    Vec<bool>)
    requires
        occupied@.len() == lower_names@.len(),
    ensures
        r@.len() == occupied@.len(),
        forall|j: int|
            0 <= j < r@.len() ==> ((#[trigger] r@[j]) == (occupied@[j] || !exists|m: int|
                0 <= m < excluded_lower@.len() && (#[trigger] excluded_lower@[m])@
                    == lower_names@[j]@)),
{
    let mut kept: Vec<bool> = Vec::new();
    for j in 0..occupied.len()
        invariant
            occupied@.len() == lower_names@.len(),
            kept@.len() == j,
            forall|j2: int|
                0 <= j2 < j ==> ((#[trigger] kept@[j2]) == (occupied@[j2] || !exists|m: int|
                    0 <= m < excluded_lower@.len() && (#[trigger] excluded_lower@[m])@
                        == lower_names@[j2]@)),
    {
        let hidden = contains_string(excluded_lower, &lower_names[j]);
        kept.push(occupied[j] || !hidden);
    }
    kept
}

/// The kept candidates, sorted by `before`; the `a`-th of them ends up in
/// column `a`.
fn sort_kept(kept: &Vec<bool>, key_group: &Vec<u8>, key_value: &Vec<usize>, Ghost(q): Ghost<
    ColumnQuery,
>) -> (r: Vec<usize>)
    requires
        kept@.len() == q.len(),
        key_group@.len() == q.len(),
        key_value@.len() == q.len(),
        forall|j: int| 0 <= j < q.len() ==> ((#[trigger] kept@[j]) == q.kept(j)),
        forall|j: int| 0 <= j < q.len() ==> (#[trigger] key_group@[j]) as int == q.key(j).0,
        forall|j: int| 0 <= j < q.len() ==> (#[trigger] key_value@[j]) as int == q.key(j).1,
    ensures
        r@.len() == q.kept_count(q.len() as int),
        forall|a: int| 0 <= a < r@.len() ==> (#[trigger] r@[a]) < q.len(),
        forall|a: int| 0 <= a < r@.len() ==> q.kept(#[trigger] r@[a] as int),
        forall|x: int| 0 <= x < q.len() && #[trigger] q.kept(x) ==> r@.contains(x as usize),
        forall|a: int| 0 <= a < r@.len() ==> (#[trigger] q.position(r@[a] as int)) == a,
{
    let n = kept.len();
    let mut sorted: Vec<usize> = Vec::new();
    let mut j: usize = 0;
    while j < n
        invariant
            0 <= j <= n,
            n == q.len(),
            kept@.len() == n,
            key_group@.len() == n,
            key_value@.len() == n,
            forall|j2: int| 0 <= j2 < n ==> ((#[trigger] kept@[j2]) == q.kept(j2)),
            forall|j2: int| 0 <= j2 < n ==> (#[trigger] key_group@[j2]) as int == q.key(j2).0,
            forall|j2: int| 0 <= j2 < n ==> (#[trigger] key_value@[j2]) as int == q.key(j2).1,
            sorted@.len() == q.kept_count(j as int),
            forall|a: int| 0 <= a < sorted@.len() ==> (#[trigger] sorted@[a]) < j,
            forall|a: int| 0 <= a < sorted@.len() ==> q.kept(#[trigger] sorted@[a] as int),
            forall|x: int| 0 <= x < j && #[trigger] q.kept(x) ==> sorted@.contains(x as usize),
            forall|a: int, b: int|
                0 <= a < b < sorted@.len() ==> q.before(sorted@[a] as int, sorted@[b] as int),
            forall|x: int| (#[trigger] q.kept_before(x, j as int)) == q.count_before(sorted@, x),
        decreases n - j,
    {
        let ghost old_sorted = sorted@;
        if kept[j] {
            let mut p: usize = 0;
            while p < sorted.len() && !key_before(
                key_group[j],
                key_value[j],
                j,
                key_group[sorted[p]],
                key_value[sorted[p]],
                sorted[p],
            )
                invariant
                    0 <= p <= sorted@.len(),
                    sorted@ == old_sorted,
                    forall|a: int| 0 <= a < p ==> !q.before(j as int, #[trigger] sorted@[a] as int),
                    forall|a: int| 0 <= a < sorted@.len() ==> (#[trigger] sorted@[a]) < j,
                    n == q.len(),
                    j < n,
                    key_group@.len() == n,
                    key_value@.len() == n,
                    forall|j2: int| 0 <= j2 < n ==> (#[trigger] key_group@[j2]) as int == q.key(j2).0,
                    forall|j2: int| 0 <= j2 < n ==> (#[trigger] key_value@[j2]) as int == q.key(j2).1,
                decreases sorted@.len() - p,
            {
                p = p + 1;
            }
            proof {
                if p < old_sorted.len() {
                    assert(q.before(j as int, old_sorted[p as int] as int));
                }
                old_sorted.insert_ensures(p as int, j);
                assert forall|x: int| (#[trigger] q.kept_before(x, j + 1)) == q.count_before(
                    old_sorted.insert(p as int, j),
                    x,
                ) by {
                    q.lemma_count_before_insert(old_sorted, p as int, j, x);
                    assert(q.kept_before(x, j as int) == q.count_before(old_sorted, x));
                    assert(q.kept(j as int));
                }
            }
            sorted.insert(p, j);
            proof {
                assert forall|a: int, b: int|
                    0 <= a < b < sorted@.len() implies q.before(
                    sorted@[a] as int,
                    sorted@[b] as int,
                ) by {
                    if a < p && b == p {
                        assert(!q.before(j as int, old_sorted[a] as int));
                    } else if a < p && b > p {
                        assert(!q.before(j as int, old_sorted[a] as int));
                        assert(q.before(old_sorted[a] as int, old_sorted[b - 1] as int));
                    } else if a == p && b > p {
                        assert(q.before(j as int, old_sorted[p as int] as int));
                        if b - 1 > p {
                            assert(q.before(
                                old_sorted[p as int] as int,
                                old_sorted[b - 1] as int,
                            ));
                        }
                    } else if a > p {
                        assert(q.before(old_sorted[a - 1] as int, old_sorted[b - 1] as int));
                    } else {
                        assert(q.before(old_sorted[a] as int, old_sorted[b] as int));
                    }
                }
                assert forall|x: int| 0 <= x < j + 1 && #[trigger] q.kept(x) implies sorted@.contains(
                    x as usize,
                ) by {
                    if x == j {
                        assert(sorted@[p as int] == j);
                    } else {
                        assert(old_sorted.contains(x as usize));
                        let a = choose|a: int|
                            0 <= a < old_sorted.len() && old_sorted[a] == x as usize;
                        if a < p {
                            assert(sorted@[a] == x as usize);
                        } else {
                            assert(sorted@[a + 1] == x as usize);
                        }
                    }
                }
                assert forall|a: int| 0 <= a < sorted@.len() implies (#[trigger] sorted@[a]) < j
                    + 1 by {
                    if a < p {
                        assert(sorted@[a] == old_sorted[a]);
                    } else if a > p {
                        assert(sorted@[a] == old_sorted[a - 1]);
                    }
                }
                assert forall|a: int| 0 <= a < sorted@.len() implies q.kept(
                    #[trigger] sorted@[a] as int,
                ) by {
                    if a < p {
                        assert(sorted@[a] == old_sorted[a]);
                    } else if a > p {
                        assert(sorted@[a] == old_sorted[a - 1]);
                    }
                }
            }
        } else {
            proof {
                assert forall|x: int| (#[trigger] q.kept_before(x, j + 1)) == q.count_before(
                    sorted@,
                    x,
                ) by {
                    assert(q.kept_before(x, j as int) == q.count_before(sorted@, x));
                    assert(!q.kept(j as int));
                }
            }
        }
        j = j + 1;
    }
    proof {
        assert forall|a: int| 0 <= a < sorted@.len() implies (#[trigger] q.position(
            sorted@[a] as int,
        )) == a by {
            q.lemma_count_before_sorted(sorted@, a, sorted@.len() as int);
            assert(sorted@.subrange(0, sorted@.len() as int) =~= sorted@);
            assert(q.kept_before(sorted@[a] as int, n as int) == q.count_before(
                sorted@,
                sorted@[a] as int,
            ));
        }
    }
    sorted
}

/// The status id of each issue, in order.
pub open spec fn issue_status_ids(issues: Seq<Issue>) -> Seq<Seq<char>> {
    issues.map_values(|i: Issue| i.fields.status.id@)
}

/// Everything the column layout depends on, as plain values: the candidate
/// columns, their names lower-cased, the lower-cased `column_order` and
/// `excluded_columns`, and the issues.
pub open spec fn arranged_query(
    cands: Seq<ProjectStatus>,
    lower_names: Seq<String>,
    order_lower: Seq<String>,
    excluded_lower: Seq<String>,
    issues: Seq<Issue>,
) -> ColumnQuery {
    ColumnQuery {
        entries: entries_of(cands),
        lower_names: views_of(lower_names),
        order: views_of(order_lower),
        excluded: views_of(excluded_lower),
        issue_ids: issue_status_ids(issues),
    }
}

/// Lays out a board from its candidate columns `cands` (each issue's status
/// among them), the lower-cased name of each candidate (`lower_names`),
/// and the lower-cased `column_order` and `excluded_columns` (see
/// `status_columns`, and `ColumnQuery::lays_out` for the layout).
///
/// Returns the column names and, in the order of `issues`, each issue's
/// column index.
pub fn arrange_columns(
    cands: &Vec<ProjectStatus>,
    lower_names: &Vec<String>,
    order_lower: &Vec<String>,
    excluded_lower: &Vec<String>,
    issues: &[Issue],
) -> (r: (Vec<String>, Vec<usize>))
    requires
        lower_names@.len() == cands@.len(),
        forall|k: int|
            0 <= k < issues@.len() ==> has_status_id(
                entries_of(cands@),
                (#[trigger] issues@[k]).fields.status.id@,
            ),
    ensures
        arranged_query(cands@, lower_names@, order_lower@, excluded_lower@, issues@).lays_out(
            views_of(r.0@),
            r.1@,
        ),
{
    let ghost q = arranged_query(cands@, lower_names@, order_lower@, excluded_lower@, issues@);
    let n = cands.len();
    assert(q.entries == entries_of(cands@));
    assert forall|j: int| 0 <= j < n implies (#[trigger] q.entries[j]) == project_status_entry(
        cands@[j],
    ) by {}
    let slots = issue_slots(&cands, issues);
    assert forall|k: int| 0 <= k < issues@.len() implies (#[trigger] slots@[k]) as int == q.slot(
        k,
    ) by {
        assert(q.issue_ids[k] == issues@[k].fields.status.id@);
    }
    let (key_group, key_value) = sort_keys(cands, lower_names, order_lower);
    let occupied = occupied_flags(n, &slots);
    let kept = kept_flags(&occupied, lower_names, excluded_lower);
    assert forall|j: int| 0 <= j < n implies ((#[trigger] kept@[j]) == q.kept(j)) by {
        assert(lower_names@[j]@ == q.lower_names[j]);
        if occupied@[j] {
            let k = choose|k: int| 0 <= k < slots@.len() && (#[trigger] slots@[k]) == j;
            assert(q.slot(k) == j);
        } else {
            assert forall|k: int| 0 <= k < q.issue_ids.len() implies #[trigger] q.slot(k) != j by {
                assert(slots@[k] as int == q.slot(k));
            }
        }
        if exists|m: int|
            0 <= m < excluded_lower@.len() && (#[trigger] excluded_lower@[m])@ == lower_names@[j]@ {
            let m = choose|m: int|
                0 <= m < excluded_lower@.len() && (#[trigger] excluded_lower@[m])@
                    == lower_names@[j]@;
            assert(q.excluded[m] == excluded_lower@[m]@);
        } else {
            assert forall|m: int| 0 <= m < q.excluded.len() implies (#[trigger] q.excluded[m])
                != q.lower_names[j] by {
                assert(q.excluded[m] == excluded_lower@[m]@);
            }
        }
    }
    assert forall|j: int| 0 <= j < n implies (#[trigger] key_group@[j]) as int == q.key(j).0 by {
        assert(q.entries[j] == project_status_entry(cands@[j]));
        assert(q.lower_names[j] == lower_names@[j]@);
    }
    assert forall|j: int| 0 <= j < n implies (#[trigger] key_value@[j]) as int == q.key(j).1 by {
        assert(q.entries[j] == project_status_entry(cands@[j]));
        assert(q.lower_names[j] == lower_names@[j]@);
    }
    let sorted = sort_kept(&kept, &key_group, &key_value, Ghost(q));
    // The final names.
    let mut names: Vec<String> = Vec::new();
    for p in 0..sorted.len()
        invariant
            n == q.len(),
            cands@.len() == n,
            forall|j2: int|
                0 <= j2 < n ==> (#[trigger] q.entries[j2]) == project_status_entry(cands@[j2]),
            forall|a: int| 0 <= a < sorted@.len() ==> (#[trigger] sorted@[a]) < n,
            names@.len() == p,
            forall|a: int|
                0 <= a < p ==> (#[trigger] names@[a])@ == q.entries[sorted@[a] as int].1,
    {
        names.push(copy_string(&cands[sorted[p]].name));
    }
    // The column of each issue.
    let mut indices: Vec<usize> = Vec::new();
    for k in 0..issues.len()
        invariant
            n == q.len(),
            slots@.len() == issues@.len(),
            q.issue_ids.len() == issues@.len(),
            forall|k2: int|
                0 <= k2 < slots@.len() ==> (#[trigger] slots@[k2]) as int == q.slot(k2),
            forall|k2: int| 0 <= k2 < slots@.len() ==> (#[trigger] slots@[k2]) < n,
            forall|x: int| 0 <= x < n && #[trigger] q.kept(x) ==> sorted@.contains(x as usize),
            forall|a: int| 0 <= a < sorted@.len() ==> (#[trigger] q.position(sorted@[a] as int)) == a,
            indices@.len() == k,
            forall|k2: int| 0 <= k2 < k ==> (#[trigger] indices@[k2]) == q.position(q.slot(k2)),
    {
        let s = slots[k];
        assert(q.occupied(s as int)) by {
            assert(q.slot(k as int) == s);
        }
        assert(q.kept(s as int));
        assert(sorted@.contains(s));
        let mut p: usize = 0;
        while p < sorted.len() && sorted[p] != s
            invariant
                0 <= p <= sorted@.len(),
                sorted@.contains(s),
                forall|a: int| 0 <= a < p ==> sorted@[a] != s,
            decreases sorted@.len() - p,
        {
            p = p + 1;
        }
        assert(q.position(sorted@[p as int] as int) == p);
        indices.push(p);
    }
    proof {
        assert forall|k: int| 0 <= k < issues@.len() implies 0 <= #[trigger] q.slot(k) < q.len()
            && q.kept(q.slot(k)) && indices@[k] == q.position(q.slot(k)) by {
            assert(slots@[k] as int == q.slot(k));
            assert(q.occupied(q.slot(k)));
        }
        assert forall|j: int| 0 <= j < q.len() && q.kept(j) implies (#[trigger] q.position(j))
            < names@.len() && names@[q.position(j) as int]@ == q.entries[j].1 by {
            assert(sorted@.contains(j as usize));
            let a = choose|a: int| 0 <= a < sorted@.len() && sorted@[a] == j as usize;
            assert(q.position(sorted@[a] as int) == a);
        }
        assert forall|p: int| 0 <= p < names@.len() implies q.shown_at(p, #[trigger] names@[p]@) by {
            let j = sorted@[p] as int;
            assert(q.position(j) == p);
            assert(q.kept(j));
            assert(j < q.len());
            assert(names@[p]@ == q.entries[j].1);
        }
        let nv = views_of(names@);
        assert forall|p: int| 0 <= p < nv.len() implies q.shown_at(p, #[trigger] nv[p]) by {
            assert(nv[p] == names@[p]@);
        }
        assert forall|j: int| 0 <= j < q.len() && q.kept(j) implies nv[(#[trigger] q.position(j))
            as int] == q.entries[j].1 by {
            assert(nv[q.position(j) as int] == names@[q.position(j) as int]@);
        }
    }
    (names, indices)
}

/// The lower-cased name of each status.
fn lower_names_of(v: &Vec<ProjectStatus>) -> (r: Vec<String>)
    ensures
        r@.len() == v@.len(),
        views_of(r@) == lowered_names(entries_of(v@)),
{
    let mut r: Vec<String> = Vec::new();
    for i in 0..v.len()
        invariant
            r@.len() == i,
            forall|j: int| 0 <= j < i ==> (#[trigger] r@[j])@ == lowercase(v@[j].name@),
    {
        r.push(to_lowercase(v[i].name.as_str()));
    }
    assert(views_of(r@) =~= lowered_names(entries_of(v@)));
    r
}

/// Builds the final column list and, for each issue, its column index.
///
/// The candidate columns are `all_statuses` (the project's full workflow,
/// including currently-empty statuses) when available, followed by the
/// status of any issue that is not among them yet, so that no card is ever
/// dropped. Columns named in `prefs.column_order` come first, in that
/// order; the others follow by status category (new, in progress, done);
/// ties keep the candidate order. Columns listed in
/// `prefs.excluded_columns` (case-insensitive) are dropped if, and only if,
/// no issue sits in them. Names are compared lower-cased (`str::to_lowercase`).
///
/// Returns the column names and, in the order of `issues`, each issue's
/// column index.
pub fn status_columns(
    all_statuses: Option<&[ProjectStatus]>,
    issues: &[Issue],
    prefs: &JiraConfig,
) -> (r: (Vec<String>, Vec<usize>))
    ensures
        column_query(slice_seq(all_statuses), issues@, *prefs).lays_out(views_of(r.0@), r.1@),
{
    let cands = candidate_columns(all_statuses, issues);
    proof {
        assert forall|k: int| 0 <= k < issues@.len() implies has_status_id(
            entries_of(cands@),
            (#[trigger] issues@[k]).fields.status.id@,
        ) by {
            lemma_candidates_have_issue_ids(workflow_entries(slice_seq(all_statuses)), issues@, k);
        }
    }
    let lower_names = lower_names_of(&cands);
    let order_lower = lowercase_vec(&prefs.column_order);
    let excluded_lower = lowercase_vec(&prefs.excluded_columns);
    let r = arrange_columns(&cands, &lower_names, &order_lower, &excluded_lower, issues);
    assert(views_of(order_lower@) =~= lowercase_all(prefs.column_order@));
    assert(views_of(excluded_lower@) =~= lowercase_all(prefs.excluded_columns@));
    assert(arranged_query(cands@, lower_names@, order_lower@, excluded_lower@, issues@)
        == column_query(slice_seq(all_statuses), issues@, *prefs));
    r
}


/// An issue as plain values: key, summary, status, project key.
pub struct IssueView {
    pub key: Seq<char>,
    pub summary: Seq<char>,
    pub status: StatusEntry,
    pub project: Seq<char>,
}

impl View for Issue {
    type V = IssueView;

    open spec fn view(&self) -> IssueView {
        IssueView {
            key: self.key@,
            summary: self.fields.summary@,
            status: issue_status_entry(*self),
            project: self.fields.project.key@,
        }
    }
}

pub open spec fn issues_view(v: Seq<Issue>) -> Seq<IssueView> {
    v.map_values(|i: Issue| i@)
}

/// The projects of `issues`, each once, in the order they first appear.
pub open spec fn project_keys(issues: Seq<IssueView>) -> Seq<Seq<char>>
    decreases issues.len(),
{
    if issues.len() == 0 {
        seq![]
    } else {
        let p = project_keys(issues.drop_last());
        if p.contains(issues.last().project) {
            p
        } else {
            p.push(issues.last().project)
        }
    }
}

/// The issues of project `key`, in order.
pub open spec fn of_project(issues: Seq<IssueView>, key: Seq<char>) -> Seq<IssueView> {
    issues.filter(|i: IssueView| i.project == key)
}

/// The issues of one project, in the order they came.
#[derive(Debug)]
pub struct ProjectIssues {
    pub project_key: String,
    pub issues: Vec<Issue>,
}

/// Every project of `issues` is among its project keys.
pub proof fn lemma_project_keys_cover(issues: Seq<IssueView>)
    ensures
        forall|m: int| 0 <= m < issues.len() ==> project_keys(issues).contains(#[trigger] issues[m].project),
        forall|a: int, b: int|
            0 <= a < b < project_keys(issues).len() ==> project_keys(issues)[a] != project_keys(
                issues,
            )[b],
    decreases issues.len(),
{
    if issues.len() > 0 {
        let pre = issues.drop_last();
        lemma_project_keys_cover(pre);
        assert forall|m: int| 0 <= m < issues.len() implies project_keys(issues).contains(
            #[trigger] issues[m].project,
        ) by {
            if m < issues.len() - 1 {
                assert(pre[m] == issues[m]);
                let p = project_keys(pre);
                let w = choose|w: int| 0 <= w < p.len() && p[w] == pre[m].project;
                assert(project_keys(issues)[w] == p[w]);
            } else if !project_keys(pre).contains(issues.last().project) {
                assert(project_keys(issues)[project_keys(pre).len() as int] == issues.last().project);
            }
        }
    }
}

/// The issues grouped by project: one group per project, in the order the
/// projects first appear, each holding that project's issues in order.
pub fn group_by_project(issues: Vec<Issue>) -> (r: Vec<ProjectIssues>)
    ensures
        r@.len() == project_keys(issues_view(issues@)).len(),
        forall|j: int|
            0 <= j < r@.len() ==> (#[trigger] r@[j]).project_key@ == project_keys(issues_view(issues@))[j],
        forall|j: int|
            0 <= j < r@.len() ==> issues_view((#[trigger] r@[j]).issues@) == of_project(
                issues_view(issues@),
                project_keys(issues_view(issues@))[j],
            ),
{
    let ghost all = issues_view(issues@);
    let total = issues.len();
    let mut rest = issues;
    let mut groups: Vec<ProjectIssues> = Vec::new();
    let mut n: usize = 0;
    assert(all.take(0) =~= seq![]);
    while rest.len() > 0
        invariant
            0 <= n <= total,
            all.len() == total,
            rest@.len() == total - n,
            issues_view(rest@) == all.subrange(n as int, total as int),
            groups@.len() == project_keys(all.take(n as int)).len(),
            forall|j: int|
                0 <= j < groups@.len() ==> (#[trigger] groups@[j]).project_key@ == project_keys(
                    all.take(n as int),
                )[j],
            forall|j: int|
                0 <= j < groups@.len() ==> issues_view((#[trigger] groups@[j]).issues@) == of_project(
                    all.take(n as int),
                    project_keys(all.take(n as int))[j],
                ),
        decreases rest@.len(),
    {
        let ghost pre = all.take(n as int);
        let ghost keys = project_keys(pre);
        let ghost rest0 = rest@;
        let issue = rest.remove(0);
        assert(issues_view(rest0)[0] == issue@);
        assert(issues_view(rest@) =~= issues_view(rest0).drop_first());
        assert(issue@ == all[n as int]);
        let ghost post = all.take(n + 1);
        assert(post =~= pre.push(issue@));
        assert(post.drop_last() =~= pre);
        proof {
            lemma_project_keys_cover(pre);
        }
        let mut j: usize = 0;
        while j < groups.len() && !str_equal(groups[j].project_key.as_str(), issue.fields.project.key.as_str())
            invariant
                0 <= j <= groups@.len(),
                groups@.len() == keys.len(),
                forall|m: int| 0 <= m < groups@.len() ==> (#[trigger] groups@[m]).project_key@ == keys[m],
                forall|m: int| 0 <= m < j ==> keys[m] != issue@.project,
            decreases groups@.len() - j,
        {
            j = j + 1;
        }
        let ghost gs0 = groups@;
        if j < groups.len() {
            assert(keys[j as int] == issue@.project);
            assert(keys.contains(issue@.project));
            assert(project_keys(post) == keys);
            let mut g = groups.remove(j);
            let ghost gi0 = issues_view(g.issues@);
            g.issues.push(issue);
            assert(issues_view(g.issues@) =~= gi0.push(issue@));
            groups.insert(j, g);
            assert forall|m: int| 0 <= m < groups@.len() implies issues_view((#[trigger] groups@[m]).issues@)
                == of_project(post, keys[m]) by {
                pre.lemma_filter_push(issue@, |i: IssueView| i.project == keys[m]);
                if m != j {
                    assert(groups@[m] == gs0[m]);
                    assert(keys[m] != issue@.project) by {
                        lemma_project_keys_cover(pre);
                    }
                }
            }
            assert forall|m: int| 0 <= m < groups@.len() implies (#[trigger] groups@[m]).project_key@
                == keys[m] by {
                if m != j {
                    assert(groups@[m] == gs0[m]);
                }
            }
        } else {
            assert(!keys.contains(issue@.project));
            assert(project_keys(post) == keys.push(issue@.project));
            let key = copy_string(&issue.fields.project.key);
            let mut v: Vec<Issue> = Vec::new();
            v.push(issue);
            proof {
                pre.lemma_filter_push(issue@, |i: IssueView| i.project == issue@.project);
                assert forall|m: int| 0 <= m < pre.len() implies !((|i: IssueView| i.project == issue@.project)(
                    #[trigger] pre[m],
                )) by {}
                pre.lemma_all_neg_filter_empty(|i: IssueView| i.project == issue@.project);
            }
            assert(issues_view(v@) =~= of_project(post, issue@.project));
            groups.push(ProjectIssues { project_key: key, issues: v });
            assert forall|m: int| 0 <= m < gs0.len() implies issues_view((#[trigger] groups@[m]).issues@)
                == of_project(post, keys[m]) by {
                pre.lemma_filter_push(issue@, |i: IssueView| i.project == keys[m]);
                assert(groups@[m] == gs0[m]);
            }
        }
        n = n + 1;
    }
    assert(all.take(total as int) =~= all);
    groups
}


/// The title of a project's board: the name of its agile board when one was
/// found with a name, else `Jira: ` and the project key.
pub open spec fn board_title(project_key: Seq<char>, found: Option<Seq<char>>) -> Seq<char> {
    match found {
        Some(n) => if n.len() > 0 {
            n
        } else {
            "Jira: "@ + project_key
        },
        None => "Jira: "@ + project_key,
    }
}

/// The card shown for issue `i`: its key and summary, done when its status
/// is in the `done` category, linked to the issue by its key.
pub open spec fn issue_card(i: IssueView, column: usize, board_index: usize, id: u128) -> TodoView {
    TodoView {
        id,
        text: i.key + " — "@ + i.summary,
        is_done: i.status.2 == "done"@,
        external_id: Some(i.key),
        column,
        board_index,
    }
}

pub open spec fn todo_columns(v: Seq<Todo>) -> Seq<usize> {
    v.map_values(|t: Todo| t.column)
}

/// The board of one project and its cards. Its columns are laid out by
/// `status_columns` from the project's workflow statuses (`all_statuses`,
/// when they could be fetched) and its issues; `found_name` is the name of
/// the project's agile board, if one was found. Each card is stamped with
/// `board_index`, the board's position in the section.
pub fn build_project_board(
    project_key: &str,
    found_name: Option<String>,
    all_statuses: Option<&[ProjectStatus]>,
    issues: Vec<Issue>,
    prefs: &JiraConfig,
    board_index: usize,
) -> (r: (KanbanBoard, Vec<Todo>))
    ensures
        r.0@.name == board_title(project_key@, opt_str_view(found_name)),
        column_query(slice_seq(all_statuses), issues@, *prefs).lays_out(r.0@.columns, todo_columns(r.1@)),
        r.1@.len() == issues@.len(),
        forall|k: int|
            0 <= k < r.1@.len() ==> (#[trigger] r.1@[k])@ == issue_card(
                issues@[k]@,
                r.1@[k].column,
                board_index,
                r.1@[k].id,
            ),
        forall|k: int| 0 <= k < r.1@.len() ==> is_random_uuid((#[trigger] r.1@[k]).id),
{
    let name = match found_name {
        Some(n) => {
            if n.unicode_len() > 0 {
                n
            } else {
                concat2("Jira: ", project_key)
            }
        },
        None => concat2("Jira: ", project_key),
    };
    let (column_names, column_indices) = status_columns(all_statuses, issues.as_slice(), prefs);
    let mut todos: Vec<Todo> = Vec::new();
    for k in 0..issues.len()
        invariant
            column_indices@.len() == issues@.len(),
            todos@.len() == k,
            forall|m: int|
                0 <= m < k ==> (#[trigger] todos@[m])@ == issue_card(
                    issues@[m]@,
                    column_indices@[m],
                    board_index,
                    todos@[m].id,
                ),
            forall|m: int| 0 <= m < k ==> is_random_uuid((#[trigger] todos@[m]).id),
    {
        let issue = &issues[k];
        let text = concat3(issue.key.as_str(), " — ", issue.fields.summary.as_str());
        let done = str_equal(issue.fields.status.status_category.key.as_str(), "done");
        todos.push(
            Todo {
                id: new_id(),
                text,
                is_done: done,
                external_id: Some(copy_string(&issue.key)),
                column: column_indices[k],
                board_index,
            },
        );
    }
    assert(todo_columns(todos@) =~= column_indices@);
    let board = KanbanBoard { name, columns: column_names };
    assert(board@.columns == views_of(column_names@));
    (board, todos)
}

/// Statuses in order, each id kept once (its first occurrence).
pub open spec fn unique_by_id(s: Seq<StatusEntry>) -> Seq<StatusEntry>
    decreases s.len(),
{
    if s.len() == 0 {
        seq![]
    } else {
        let p = unique_by_id(s.drop_last());
        if has_status_id(p, s.last().0) {
            p
        } else {
            p.push(s.last())
        }
    }
}

/// The statuses of every issue type, one after the other.
pub open spec fn all_entries(lists: Seq<Seq<ProjectStatus>>) -> Seq<StatusEntry>
    decreases lists.len(),
{
    if lists.len() == 0 {
        seq![]
    } else {
        all_entries(lists.drop_last()) + entries_of(lists.last())
    }
}

pub open spec fn lists_view(v: Seq<Vec<ProjectStatus>>) -> Seq<Seq<ProjectStatus>> {
    v.map_values(|l: Vec<ProjectStatus>| l@)
}

/// Whether some element of `v` has the id `id`.
fn has_id(v: &Vec<ProjectStatus>, id: &String) -> (r: bool)
    ensures
        r == has_status_id(entries_of(v@), id@),
{
    for i in 0..v.len()
        invariant
            forall|j: int| 0 <= j < i ==> (#[trigger] entries_of(v@)[j]).0 != id@,
    {
        if v[i].id == *id {
            assert(entries_of(v@)[i as int].0 == id@);
            return true;
        }
    }
    false
}

/// The statuses of a project's workflow, from the statuses of each of its
/// issue types: all of them in order, each status id once.
pub fn workflow_statuses(lists: Vec<Vec<ProjectStatus>>) -> (r: Vec<ProjectStatus>)
    ensures
        entries_of(r@) == unique_by_id(all_entries(lists_view(lists@))),
{
    let ghost lv = lists_view(lists@);
    let mut out: Vec<ProjectStatus> = Vec::new();
    assert(all_entries(lv.take(0)) =~= seq![]);
    assert(entries_of(out@) =~= seq![]);
    for a in 0..lists.len()
        invariant
            lv == lists_view(lists@),
            entries_of(out@) == unique_by_id(all_entries(lv.take(a as int))),
    {
        let list = &lists[a];
        let ghost before = all_entries(lv.take(a as int));
        assert(lv.take(a + 1).drop_last() =~= lv.take(a as int));
        assert(lv.take(a + 1).last() == list@);
        assert(all_entries(lv.take(a + 1)) == before + entries_of(list@));
        for b in 0..list.len()
            invariant
                entries_of(out@) == unique_by_id(before + entries_of(list@).take(b as int)),
        {
            let ghost cur = before + entries_of(list@).take(b as int);
            let ghost nxt = before + entries_of(list@).take(b + 1);
            assert(nxt.drop_last() =~= cur);
            assert(nxt.last() == project_status_entry(list@[b as int]));
            let ghost prev = entries_of(out@);
            if !has_id(&out, &list[b].id) {
                out.push(copy_status(&list[b]));
                assert(entries_of(out@) =~= prev.push(project_status_entry(list@[b as int])));
            }
        }
        assert(entries_of(list@).take(list@.len() as int) =~= entries_of(list@));
    }
    assert(lv.take(lists@.len() as int) =~= lv);
    out
}

/// An agile board: its name and type (`kanban`, `scrum`, ...).
#[derive(Debug)]
pub struct AgileBoard {
    pub name: String,
    pub board_type: String,
}

pub open spec fn board_types(v: Seq<AgileBoard>) -> Seq<Seq<char>> {
    v.map_values(|b: AgileBoard| b.board_type@)
}

/// The agile board used for a project's title: its first kanban board,
/// else its first board.
pub open spec fn chosen_board(boards: Seq<AgileBoard>) -> Option<int> {
    let k = first_match(board_types(boards), "kanban"@);
    if k >= 0 {
        Some(k)
    } else if boards.len() > 0 {
        Some(0)
    } else {
        None
    }
}

/// The name of the agile board used for a project's title (see
/// `chosen_board`).
pub fn pick_board_name(boards: &Vec<AgileBoard>) -> (r: Option<String>)
    ensures
        match chosen_board(boards@) {
            Some(k) => r is Some && r.unwrap()@ == boards@[k].name@,
            None => r is None,
        },
{
    let ghost types = board_types(boards@);
    proof {
        lemma_first_match(types, "kanban"@);
    }
    for i in 0..boards.len()
        invariant
            types == board_types(boards@),
            forall|j: int| 0 <= j < i ==> types[j] != "kanban"@,
            -1 <= first_match(types, "kanban"@) < types.len(),
            first_match(types, "kanban"@) == -1 <==> forall|j: int|
                0 <= j < types.len() ==> types[j] != "kanban"@,
            first_match(types, "kanban"@) >= 0 ==> types[first_match(types, "kanban"@)]
                == "kanban"@ && forall|j: int|
                0 <= j < first_match(types, "kanban"@) ==> types[j] != "kanban"@,
    {
        if str_equal(boards[i].board_type.as_str(), "kanban") {
            assert(types[i as int] == "kanban"@);
            return Some(copy_string(&boards[i].name));
        }
    }
    if boards.len() > 0 {
        Some(copy_string(&boards[0].name))
    } else {
        None
    }
}

/// Name of the section fed by the JQL query `jql`: `Jira` for the default
/// query, else `Jira: ` and the query.
pub open spec fn jira_section_name(jql: Seq<char>) -> Seq<char> {
    if jql == DEFAULT_JQL@ {
        "Jira"@
    } else {
        "Jira: "@ + jql
    }
}

/// What was fetched for one project: its issues, the name of its agile
/// board (when one was found) and its workflow's statuses (when they could
/// be fetched).
#[derive(Debug)]
pub struct ProjectFetch {
    pub project: ProjectIssues,
    pub board_name: Option<String>,
    pub statuses: Option<Vec<ProjectStatus>>,
}

/// Number of issues of the first `k` projects of `fs`.
pub open spec fn issues_before(fs: Seq<ProjectFetch>, k: int) -> nat
    decreases k,
{
    if k <= 0 {
        0
    } else {
        issues_before(fs, k - 1) + fs[k - 1].project.issues@.len()
    }
}

/// Whether `board` and `cards` are the board and cards of project `f`, the
/// `g`-th board of its section (see `build_project_board`).
pub open spec fn project_shown(
    f: ProjectFetch,
    prefs: JiraConfig,
    g: int,
    board: BoardView,
    cards: Seq<Todo>,
) -> bool {
    &&& board.name == board_title(f.project.project_key@, opt_str_view(f.board_name))
    &&& column_query(vec_seq(f.statuses), f.project.issues@, prefs).lays_out(
        board.columns,
        todo_columns(cards),
    )
    &&& cards.len() == f.project.issues@.len()
    &&& forall|m: int|
        0 <= m < cards.len() ==> (#[trigger] cards[m])@ == issue_card(
            f.project.issues@[m]@,
            cards[m].column,
            g as usize,
            cards[m].id,
        ) && is_random_uuid(cards[m].id)
}

proof fn lemma_issues_before_grows(fs: Seq<ProjectFetch>, a: int, b: int)
    requires
        a <= b,
    ensures
        issues_before(fs, a) <= issues_before(fs, b),
    decreases b - a,
{
    if a < b {
        lemma_issues_before_grows(fs, a, b - 1);
    }
}

/// Appending the board and cards of the `g`-th project keeps every earlier
/// project shown, and shows the `g`-th.
proof fn lemma_shown_after_push(
    fv: Seq<ProjectFetch>,
    prefs: JiraConfig,
    g: int,
    old_boards: Seq<KanbanBoard>,
    board: KanbanBoard,
    old_todos: Seq<Todo>,
    cards: Seq<Todo>,
)
    requires
        0 <= g < fv.len(),
        old_boards.len() == g,
        old_todos.len() == issues_before(fv, g),
        forall|h: int|
            0 <= h < g ==> project_shown(
                #[trigger] fv[h],
                prefs,
                h,
                old_boards[h]@,
                old_todos.subrange(issues_before(fv, h) as int, issues_before(fv, h + 1) as int),
            ),
        project_shown(fv[g], prefs, g, board@, cards),
    ensures
        (old_todos + cards).len() == issues_before(fv, g + 1),
        forall|h: int|
            0 <= h <= g ==> project_shown(
                #[trigger] fv[h],
                prefs,
                h,
                old_boards.push(board)[h]@,
                (old_todos + cards).subrange(
                    issues_before(fv, h) as int,
                    issues_before(fv, h + 1) as int,
                ),
            ),
{
    let todos = old_todos + cards;
    let boards = old_boards.push(board);
    assert forall|h: int| 0 <= h <= g implies project_shown(
        #[trigger] fv[h],
        prefs,
        h,
        boards[h]@,
        todos.subrange(issues_before(fv, h) as int, issues_before(fv, h + 1) as int),
    ) by {
        if h < g {
            lemma_issues_before_grows(fv, h + 1, g);
            lemma_issues_before_grows(fv, h, h + 1);
            assert(todos.subrange(issues_before(fv, h) as int, issues_before(fv, h + 1) as int)
                =~= old_todos.subrange(issues_before(fv, h) as int, issues_before(fv, h + 1) as int));
            assert(boards[h] == old_boards[h]);
        } else {
            assert(todos.subrange(issues_before(fv, h) as int, issues_before(fv, h + 1) as int)
                =~= cards);
        }
    }
}

/// The section fed by the JQL query `jql`: one board per project of `fs`
/// (in order; the `g`-th project's cards are stamped with board index `g`),
/// all their cards, board after board, and a fresh identifier. It is named
/// `Jira` for the default query, else `Jira: ` and the query.
#[verifier::spinoff_prover]
pub fn assemble_jira_section(jql: &str, fs: Vec<ProjectFetch>, prefs: &JiraConfig) -> (r: Section)
    ensures
        r@.name == jira_section_name(jql@),
        r@.source == SourceView::Jira(jql@),
        r@.columns is None,
        is_random_uuid(r@.id),
        r.boards is Some,
        r.boards.unwrap()@.len() == fs@.len(),
        r.todos@.len() == issues_before(fs@, fs@.len() as int),
        forall|g: int|
            0 <= g < fs@.len() ==> project_shown(
                #[trigger] fs@[g],
                *prefs,
                g,
                r.boards.unwrap()@[g]@,
                r.todos@.subrange(issues_before(fs@, g) as int, issues_before(fs@, g + 1) as int),
            ),
{
    let ghost fv = fs@;
    let total = fs.len();
    let mut rest = fs;
    let mut boards: Vec<KanbanBoard> = Vec::new();
    let mut todos: Vec<Todo> = Vec::new();
    let mut g: usize = 0;
    while rest.len() > 0
        invariant
            0 <= g <= total,
            fv.len() == total,
            rest@ == fv.subrange(g as int, total as int),
            boards@.len() == g,
            todos@.len() == issues_before(fv, g as int),
            forall|h: int|
                0 <= h < g ==> project_shown(
                    #[trigger] fv[h],
                    *prefs,
                    h,
                    boards@[h]@,
                    todos@.subrange(issues_before(fv, h) as int, issues_before(fv, h + 1) as int),
                ),
        decreases rest@.len(),
    {
        let f = rest.remove(0);
        assert(f == fv[g as int]);
        let statuses: Option<&[ProjectStatus]> = match &f.statuses {
            Some(v) => Some(v.as_slice()),
            None => None,
        };
        assert(slice_seq(statuses) == vec_seq(f.statuses));
        let ghost issues = f.project.issues@;
        let (board, mut cards) = build_project_board(
            f.project.project_key.as_str(),
            f.board_name,
            statuses,
            f.project.issues,
            prefs,
            g,
        );
        proof {
            assert(project_shown(fv[g as int], *prefs, g as int, board@, cards@));
        }
        let ghost old_todos = todos@;
        let ghost new_cards = cards@;
        let ghost old_boards = boards@;
        let ghost pushed = board;
        boards.push(board);
        todos.append(&mut cards);
        proof {
            lemma_shown_after_push(fv, *prefs, g as int, old_boards, pushed, old_todos, new_cards);
            assert(boards@ == old_boards.push(pushed));
            assert(todos@ == old_todos + new_cards);
        }
        g = g + 1;
    }
    let name = if str_equal(jql, DEFAULT_JQL) {
        String::from_str("Jira")
    } else {
        concat2("Jira: ", jql)
    };
    Section {
        id: new_id(),
        name,
        todos,
        source: SectionSource::Jira { jql: jql.to_owned() },
        columns: None,
        boards: Some(boards),
    }
}

/// Most issues a search collects.
pub const SEARCH_CAP: usize = 500;

/// Whether a paginated search stops after a page: when there is no next
/// page, or once `SEARCH_CAP` issues were collected.
pub fn search_finished(next_page_token: &Option<String>, collected: usize) -> (r: bool)
    ensures
        r == (next_page_token is None || collected >= SEARCH_CAP),
{
    next_page_token.is_none() || collected >= SEARCH_CAP
}

/// ASCII lower case of `c` (other characters unchanged).
pub open spec fn ascii_lower(c: char) -> char {
    if 'A' <= c && c <= 'Z' {
        ((c as u32) + 32) as char
    } else {
        c
    }
}

/// Whether `a` and `b` are equal ignoring ASCII case (`str::eq_ignore_ascii_case`).
pub open spec fn equal_ignoring_ascii_case(a: Seq<char>, b: Seq<char>) -> bool {
    a.len() == b.len() && forall|i: int| 0 <= i < a.len() ==> ascii_lower(#[trigger] a[i]) == ascii_lower(b[i])
}

fn lower_ascii_char(c: char) -> (r: char)
    ensures
        r == ascii_lower(c),
{
    if 'A' <= c && c <= 'Z' {
        ((c as u8) + 32) as char
    } else {
        c
    }
}

/// Whether `a` and `b` are equal ignoring ASCII case.
pub fn eq_ignore_ascii_case(a: &str, b: &str) -> (r: bool)
    ensures
        r == equal_ignoring_ascii_case(a@, b@),
{
    let ca = chars_of(a);
    let cb = chars_of(b);
    if ca.len() != cb.len() {
        return false;
    }
    for i in 0..ca.len()
        invariant
            ca@ == a@,
            cb@ == b@,
            ca@.len() == cb@.len(),
            forall|j: int| 0 <= j < i ==> ascii_lower(#[trigger] a@[j]) == ascii_lower(b@[j]),
    {
        if lower_ascii_char(ca[i]) != lower_ascii_char(cb[i]) {
            return false;
        }
    }
    true
}

/// A workflow transition: its id and the name of the status it leads to.
#[derive(Debug)]
pub struct Transition {
    pub id: String,
    pub to: TransitionTarget,
}

/// The status a transition leads to.
#[derive(Debug)]
pub struct TransitionTarget {
    pub name: String,
}

pub open spec fn target_names(v: Seq<Transition>) -> Seq<Seq<char>> {
    v.map_values(|t: Transition| t.to.name@)
}

/// Index of the first transition leading to a status named `target`
/// (ignoring ASCII case), or `-1`.
pub open spec fn transition_index(names: Seq<Seq<char>>, target: Seq<char>) -> int
    decreases names.len(),
{
    if names.len() == 0 {
        -1
    } else if equal_ignoring_ascii_case(names[0], target) {
        0
    } else {
        let r = transition_index(names.drop_first(), target);
        if r < 0 {
            -1
        } else {
            r + 1
        }
    }
}

pub proof fn lemma_transition_index(names: Seq<Seq<char>>, target: Seq<char>)
    ensures
        -1 <= transition_index(names, target) < names.len(),
        transition_index(names, target) == -1 <==> forall|j: int|
            0 <= j < names.len() ==> !equal_ignoring_ascii_case(#[trigger] names[j], target),
        transition_index(names, target) >= 0 ==> equal_ignoring_ascii_case(
            names[transition_index(names, target)],
            target,
        ),
    decreases names.len(),
{
    if names.len() > 0 && !equal_ignoring_ascii_case(names[0], target) {
        lemma_transition_index(names.drop_first(), target);
        assert forall|j: int| 0 < j < names.len() implies names[j] == names.drop_first()[j - 1] by {}
    }
}

/// The message given when issue `issue_key` has no transition to `target`.
pub open spec fn no_transition_message(issue_key: Seq<char>, target: Seq<char>) -> Seq<char> {
    issue_key + " has no direct transition available to \""@ + target
        + "\" from its current status"@
}

/// The transition to take to move issue `issue_key` to the status named
/// `target` (ignoring ASCII case), among those `transitions` Jira offers
/// from its current status: the first that leads there. When none does,
/// the error says so, rather than guessing an approximate transition.
pub fn find_transition(transitions: &Vec<Transition>, issue_key: &str, target: &str) -> (r: Result<
    String,
    String,
>)
    ensures
        ({
            let k = transition_index(target_names(transitions@), target@);
            match r {
                Ok(id) => k >= 0 && id@ == transitions@[k].id@,
                Err(e) => k == -1 && e@ == no_transition_message(issue_key@, target@),
            }
        }),
{
    let ghost names = target_names(transitions@);
    proof {
        lemma_transition_index(names, target@);
    }
    for i in 0..transitions.len()
        invariant
            names == target_names(transitions@),
            forall|j: int| 0 <= j < i ==> !equal_ignoring_ascii_case(#[trigger] names[j], target@),
    {
        if eq_ignore_ascii_case(transitions[i].to.name.as_str(), target) {
            proof {
                lemma_transition_index(names, target@);
                assert(names[i as int] == transitions@[i as int].to.name@);
                if transition_index(names, target@) < i {
                    let k = transition_index(names, target@);
                    assert(!equal_ignoring_ascii_case(names[k], target@));
                }
                assert(transition_index(names, target@) == i) by {
                    transition_index_first(names, target@, i as int);
                }
            }
            return Ok(copy_string(&transitions[i].id));
        }
    }
    let mut e = concat3(issue_key, " has no direct transition available to \"", target);
    e.append("\" from its current status");
    Err(e)
}

/// The first index with a match is the transition index.
pub proof fn transition_index_first(names: Seq<Seq<char>>, target: Seq<char>, i: int)
    requires
        0 <= i < names.len(),
        equal_ignoring_ascii_case(names[i], target),
        forall|j: int| 0 <= j < i ==> !equal_ignoring_ascii_case(#[trigger] names[j], target),
    ensures
        transition_index(names, target) == i,
    decreases i,
{
    if i > 0 {
        assert forall|j: int| 0 <= j < i - 1 implies !equal_ignoring_ascii_case(
            #[trigger] names.drop_first()[j],
            target,
        ) by {
            assert(names.drop_first()[j] == names[j + 1]);
        }
        transition_index_first(names.drop_first(), target, i - 1);
    }
}

} // verus!
