use vstd::prelude::*;
use crate::model::Issue;
use crate::text::{in_any_project, is_in_any_project};

verus! {

/// Key of a stored issue: its workspace, then its id in that workspace.
pub type RowKey = (i64, i64);

/// The stored row for a key in a sequence of rows: the last row with that key.
pub open spec fn row_of(rows: Seq<Issue>, k: RowKey) -> Option<Issue>
    decreases rows.len(),
{
    if rows.len() == 0 {
        None
    } else if rows.last().row_key() == k {
        Some(rows.last())
    } else {
        row_of(rows.drop_last(), k)
    }
}

/// The table that a sequence of rows stands for.
pub open spec fn table_of(rows: Seq<Issue>) -> Map<RowKey, Issue> {
    Map::new(|k: RowKey| row_of(rows, k) is Some, |k: RowKey| row_of(rows, k).unwrap())
}

/// Whether no two rows share a key.
pub open spec fn keys_unique(rows: Seq<Issue>) -> bool {
    forall|i: int, j: int|
        0 <= i < j < rows.len() ==> #[trigger] rows[i].row_key() != #[trigger] rows[j].row_key()
}

/// The issue as stored for a workspace.
pub open spec fn stored_for(issue: Issue, workspace_id: i64) -> Issue {
    Issue { workspace_id, ..issue }
}

/// Whether a stored row of the reconciled workspace survives the pruning
/// steps: it is not in a project that synced this round (those rows are
/// replaced by what was fetched), and it is in a project still configured.
pub open spec fn survives_pruning(
    issue: Issue,
    synced: Seq<Seq<char>>,
    configured: Seq<Seq<char>>,
) -> bool {
    !in_any_project(issue.issue_key@, synced) && in_any_project(issue.issue_key@, configured)
}

/// The table after pruning the rows of workspace `ws`.
pub open spec fn pruned(
    m: Map<RowKey, Issue>,
    ws: i64,
    synced: Seq<Seq<char>>,
    configured: Seq<Seq<char>>,
) -> Map<RowKey, Issue> {
    Map::new(
        |k: RowKey| m.contains_key(k) && (k.0 != ws || survives_pruning(m[k], synced, configured)),
        |k: RowKey| m[k],
    )
}

/// The table after writing the fetched issues of workspace `ws` in order; an
/// issue outside every configured project is not kept.
pub open spec fn upserted(
    m: Map<RowKey, Issue>,
    ws: i64,
    fresh: Seq<Issue>,
    configured: Seq<Seq<char>>,
) -> Map<RowKey, Issue>
    decreases fresh.len(),
{
    if fresh.len() == 0 {
        m
    } else {
        let before = upserted(m, ws, fresh.drop_last(), configured);
        let x = fresh.last();
        if in_any_project(x.issue_key@, configured) {
            before.insert((ws, x.id), stored_for(x, ws))
        } else {
            before.remove((ws, x.id))
        }
    }
}

/// The table after reconciling workspace `ws` with the issues fetched for it.
pub open spec fn reconciled(
    m: Map<RowKey, Issue>,
    ws: i64,
    fresh: Seq<Issue>,
    synced: Seq<Seq<char>>,
    configured: Seq<Seq<char>>,
) -> Map<RowKey, Issue> {
    upserted(pruned(m, ws, synced, configured), ws, fresh, configured)
}

/// The last fetched issue with a given id.
pub open spec fn last_with_id(fresh: Seq<Issue>, id: i64) -> Option<Issue>
    decreases fresh.len(),
{
    if fresh.len() == 0 {
        None
    } else if fresh.last().id == id {
        Some(fresh.last())
    } else {
        last_with_id(fresh.drop_last(), id)
    }
}

/// The table without the rows of one workspace.
pub open spec fn without_workspace(m: Map<RowKey, Issue>, ws: i64) -> Map<RowKey, Issue> {
    Map::new(|k: RowKey| m.contains_key(k) && k.0 != ws, |k: RowKey| m[k])
}

/// Whether issues are ordered by score, highest first.
pub open spec fn by_score_desc(s: Seq<Issue>) -> bool {
    forall|i: int, j: int|
        0 <= i < j < s.len() ==> #[trigger] s[i].relevance_score >= #[trigger] s[j].relevance_score
}

/// The rows of one workspace.
pub open spec fn of_workspace(m: Map<RowKey, Issue>, ws: i64) -> Map<RowKey, Issue> {
    Map::new(|k: RowKey| m.contains_key(k) && k.0 == ws, |k: RowKey| m[k])
}

/// The local issue table: at most one row per (workspace, issue id).
pub struct IssueStore {
    rows: Vec<Issue>,
}

/// The columns stored beside an issue's snapshot for lookup and search.
#[derive(Debug, Clone)]
pub struct SearchColumns {
    pub priority: Option<String>,
    pub status: Option<String>,
    pub assignee: Option<String>,
}

/// The search columns of an issue: the names of its priority, status and
/// assignee.
pub fn search_columns(issue: &Issue) -> (r: SearchColumns)
    ensures
        r.priority == match issue.priority {
            Some(p) => Some(p.name),
            None => None,
        },
        r.status == match issue.status {
            Some(s) => Some(s.name),
            None => None,
        },
        r.assignee == match issue.assignee {
            Some(u) => Some(u.name),
            None => None,
        },
{
    SearchColumns {
        priority: match &issue.priority {
            Some(p) => Some(p.name.clone()),
            None => None,
        },
        status: match &issue.status {
            Some(s) => Some(s.name.clone()),
            None => None,
        },
        assignee: match &issue.assignee {
            Some(u) => Some(u.name.clone()),
            None => None,
        },
    }
}

proof fn lemma_table_push(rows: Seq<Issue>, x: Issue)
    ensures
        table_of(rows.push(x)) == table_of(rows).insert(x.row_key(), x),
{
    assert(rows.push(x).drop_last() =~= rows);
    assert(table_of(rows.push(x)) =~= table_of(rows).insert(x.row_key(), x));
}

proof fn lemma_row_of_member(rows: Seq<Issue>, k: RowKey)
    ensures
        row_of(rows, k) matches Some(v) ==> v.row_key() == k && exists|j: int|
            0 <= j < rows.len() && rows[j] == v,
    decreases rows.len(),
{
    if rows.len() > 0 && rows.last().row_key() != k {
        lemma_row_of_member(rows.drop_last(), k);
        if row_of(rows.drop_last(), k) is Some {
            let j = choose|j: int|
                0 <= j < rows.drop_last().len() && rows.drop_last()[j] == row_of(
                    rows.drop_last(),
                    k,
                ).unwrap();
            assert(rows[j] == row_of(rows, k).unwrap());
        }
    } else if rows.len() > 0 {
        assert(rows[rows.len() - 1] == rows.last());
    }
}

proof fn lemma_element_in_table(rows: Seq<Issue>, a: int)
    requires
        0 <= a < rows.len(),
    ensures
        table_of(rows).contains_key(rows[a].row_key()),
    decreases rows.len(),
{
    if a < rows.len() - 1 && rows.last().row_key() != rows[a].row_key() {
        lemma_element_in_table(rows.drop_last(), a);
    }
}

proof fn lemma_prefix_table(rows: Seq<Issue>, i: int)
    requires
        0 <= i < rows.len(),
    ensures
        table_of(rows.subrange(0, i + 1)) == table_of(rows.subrange(0, i)).insert(
            rows[i].row_key(),
            rows[i],
        ),
{
    assert(rows.subrange(0, i + 1) =~= rows.subrange(0, i).push(rows[i]));
    lemma_table_push(rows.subrange(0, i), rows[i]);
}

proof fn lemma_unique_not_in_prefix(rows: Seq<Issue>, i: int)
    requires
        0 <= i < rows.len(),
        keys_unique(rows),
    ensures
        !table_of(rows.subrange(0, i)).contains_key(rows[i].row_key()),
{
    let p = rows.subrange(0, i);
    lemma_row_of_member(p, rows[i].row_key());
    if table_of(p).contains_key(rows[i].row_key()) {
        let j = choose|j: int| 0 <= j < p.len() && p[j] == row_of(p, rows[i].row_key()).unwrap();
        assert(rows[j].row_key() == rows[i].row_key());
    }
}

proof fn lemma_push_keeps_unique(rows: Seq<Issue>, x: Issue)
    requires
        keys_unique(rows),
        !table_of(rows).contains_key(x.row_key()),
    ensures
        keys_unique(rows.push(x)),
{
    assert forall|i: int, j: int| 0 <= i < j < rows.push(x).len() implies #[trigger] rows.push(
        x,
    )[i].row_key() != #[trigger] rows.push(x)[j].row_key() by {
        if j == rows.len() {
            lemma_element_in_table(rows, i);
        }
    }
}

/// The rows without the one with key `k`.
fn rows_without_key(rows: &Vec<Issue>, k: RowKey) -> (out: Vec<Issue>)
    requires
        keys_unique(rows@),
    ensures
        keys_unique(out@),
        table_of(out@) == table_of(rows@).remove(k),
{
    let mut out: Vec<Issue> = Vec::new();
    let mut i: usize = 0;
    while i < rows.len()
        invariant
            i <= rows.len(),
            keys_unique(rows@),
            keys_unique(out@),
            table_of(out@) == table_of(rows@.subrange(0, i as int)).remove(k),
        decreases rows.len() - i,
    {
        let r = &rows[i];
        proof {
            lemma_prefix_table(rows@, i as int);
            lemma_unique_not_in_prefix(rows@, i as int);
        }
        if r.workspace_id != k.0 || r.id != k.1 {
            proof {
                lemma_push_keeps_unique(out@, *r);
                lemma_table_push(out@, *r);
            }
            out.push(r.duplicate());
        }
        assert(table_of(out@) =~= table_of(rows@.subrange(0, i + 1)).remove(k));
        i = i + 1;
    }
    assert(rows@.subrange(0, rows.len() as int) =~= rows@);
    out
}

impl View for IssueStore {
    type V = Map<RowKey, Issue>;

    closed spec fn view(&self) -> Map<RowKey, Issue> {
        table_of(self.rows@)
    }
}

impl IssueStore {
    #[verifier::type_invariant]
    spec fn wf(&self) -> bool {
        keys_unique(self.rows@)
    }

    /// An empty table.
    pub fn new() -> (r: Self)
        ensures
            r@ == Map::<RowKey, Issue>::empty(),
    {
        let r = IssueStore { rows: Vec::new() };
        assert(r@ =~= Map::<RowKey, Issue>::empty());
        r
    }

    /// The table holding the given rows; of two rows with one key the later
    /// one stands.
    pub fn from_rows(rows: Vec<Issue>) -> (r: Self)
        ensures
            r@ == table_of(rows@),
    {
        let mut store = Self::new();
        let mut i: usize = 0;
        while i < rows.len()
            invariant
                i <= rows.len(),
                    store@ == table_of(rows@.subrange(0, i as int)),
            decreases rows.len() - i,
        {
            proof {
                lemma_prefix_table(rows@, i as int);
            }
            store.put(rows[i].duplicate());
            i = i + 1;
        }
        assert(rows@.subrange(0, rows.len() as int) =~= rows@);
        store
    }

    /// The rows as they are held.
    pub closed spec fn row_seq(&self) -> Seq<Issue> {
        self.rows@
    }

    /// The rows of the table, in no particular order.
    pub fn rows(&self) -> (r: &Vec<Issue>)
        ensures
            r@ == self.row_seq(),
            table_of(r@) == self@,
            keys_unique(r@),
    {
        proof {
            use_type_invariant(self);
        }
        &self.rows
    }

    /// Every row, highest score first.
    pub fn issues_by_score(&self) -> (r: Vec<Issue>)
        ensures
            by_score_desc(r@),
            r@.to_multiset() == self.row_seq().to_multiset(),
    {
        let mut out: Vec<Issue> = Vec::new();
        let mut i: usize = 0;
        assert(self.rows@.subrange(0, 0) =~= Seq::<Issue>::empty());
        while i < self.rows.len()
            invariant
                i <= self.rows.len(),
                by_score_desc(out@),
                out@.to_multiset() == self.rows@.subrange(0, i as int).to_multiset(),
            decreases self.rows.len() - i,
        {
            let x = self.rows[i].duplicate();
            let mut p: usize = 0;
            while p < out.len() && out[p].relevance_score >= x.relevance_score
                invariant
                    p <= out.len(),
                    forall|q: int| 0 <= q < p ==> #[trigger] out@[q].relevance_score
                        >= x.relevance_score,
                decreases out.len() - p,
            {
                p = p + 1;
            }
            let ghost before = out@;
            out.insert(p, x);
            assert(self.rows@.subrange(0, i + 1) =~= self.rows@.subrange(0, i as int).push(x));
            proof {
                vstd::seq_lib::to_multiset_insert(before, p as int, x);
                vstd::seq_lib::to_multiset_build(self.rows@.subrange(0, i as int), x);
            }
            assert forall|a: int, b: int| 0 <= a < b < out.len() implies #[trigger] out@[a].relevance_score
                >= #[trigger] out@[b].relevance_score by {
                if b == p {
                } else if a == p {
                    assert(before[b - 1].relevance_score <= before[p as int].relevance_score);
                } else if a > p {
                    assert(before[a - 1].relevance_score >= before[b - 1].relevance_score);
                } else if b > p {
                    assert(before[a].relevance_score >= before[b - 1].relevance_score);
                } else {
                    assert(before[a].relevance_score >= before[b].relevance_score);
                }
            }
            i = i + 1;
        }
        assert(self.rows@.subrange(0, self.rows.len() as int) =~= self.rows@);
        out
    }

    /// The number of rows.
    pub fn len(&self) -> (r: usize)
        ensures
            r == self@.len(),
    {
        proof {
            use_type_invariant(self);
            lemma_table_len(self.rows@);
        }
        self.rows.len()
    }

    /// The rows of one workspace, each once.
    pub fn rows_of_workspace(&self, ws: i64) -> (r: Vec<Issue>)
        ensures
            keys_unique(r@),
            table_of(r@) == of_workspace(self@, ws),
            forall|i: int| 0 <= i < r.len() ==> #[trigger] r@[i].workspace_id == ws,
    {
        proof {
            use_type_invariant(self);
        }
        let mut out: Vec<Issue> = Vec::new();
        let mut i: usize = 0;
        while i < self.rows.len()
            invariant
                i <= self.rows.len(),
                keys_unique(self.rows@),
                keys_unique(out@),
                table_of(out@) == of_workspace(table_of(self.rows@.subrange(0, i as int)), ws),
                forall|a: int| 0 <= a < out.len() ==> #[trigger] out@[a].workspace_id == ws,
            decreases self.rows.len() - i,
        {
            let r = &self.rows[i];
            proof {
                lemma_prefix_table(self.rows@, i as int);
                lemma_unique_not_in_prefix(self.rows@, i as int);
            }
            if r.workspace_id == ws {
                proof {
                    lemma_push_keeps_unique(out@, *r);
                    lemma_table_push(out@, *r);
                }
                out.push(r.duplicate());
            }
            assert(table_of(out@) =~= of_workspace(table_of(self.rows@.subrange(0, i + 1)), ws));
            i = i + 1;
        }
        assert(self.rows@.subrange(0, self.rows.len() as int) =~= self.rows@);
        out
    }

    /// Removes the row with key `k`, if any.
    pub fn remove_key(&mut self, k: RowKey)
        ensures
            final(self)@ == old(self)@.remove(k),
    {
        proof {
            use_type_invariant(&*self);
        }
        self.rows = rows_without_key(&self.rows, k);
    }

    /// Inserts a row, replacing the row with the same key.
    pub fn put(&mut self, issue: Issue)
        ensures
            final(self)@ == old(self)@.insert(issue.row_key(), issue),
    {
        proof {
            use_type_invariant(&*self);
        }
        let mut rows = rows_without_key(&self.rows, (issue.workspace_id, issue.id));
        proof {
            lemma_push_keeps_unique(rows@, issue);
            lemma_table_push(rows@, issue);
        }
        rows.push(issue);
        self.rows = rows;
        assert(self@ =~= old(self)@.insert(issue.row_key(), issue));
    }

    /// The score stored for an issue, where the table holds it.
    pub fn previous_score(&self, workspace_id: i64, id: i64) -> (r: Option<i32>)
        ensures
            r == if self@.contains_key((workspace_id, id)) {
                Some(self@[(workspace_id, id)].relevance_score)
            } else {
                None::<i32>
            },
    {
        let ghost k = (workspace_id, id);
        let mut i: usize = self.rows.len();
        assert(self.rows@.subrange(0, i as int) =~= self.rows@);
        while i > 0
            invariant
                i <= self.rows.len(),
                k == (workspace_id, id),
                row_of(self.rows@.subrange(0, i as int), k) == row_of(self.rows@, k),
            decreases i,
        {
            let ghost p = self.rows@.subrange(0, i as int);
            assert(p.drop_last() =~= self.rows@.subrange(0, i - 1));
            assert(p.last() == self.rows@[i - 1]);
            if self.rows[i - 1].workspace_id == workspace_id && self.rows[i - 1].id == id {
                assert(p.last().row_key() == k);
                assert(row_of(p, k) == Some(self.rows@[i - 1]));
                assert(self@.contains_key(k));
                return Some(self.rows[i - 1].relevance_score);
            }
            assert(p.last().row_key() != k);
            i = i - 1;
        }
        assert(self.rows@.subrange(0, 0) =~= Seq::<Issue>::empty());
        None
    }

    /// Reconciles workspace `ws` with the issues fetched for it this round.
    ///
    /// Rows of other workspaces stay. A row of `ws` in a project that synced
    /// (`synced`) stays only if it was fetched again, and then takes the
    /// fetched value; rows of projects whose fetch failed stay as they were.
    /// Every fetched issue is then written in fetch order, so that of two with
    /// one id the later one stands. Finally no row of `ws`
    /// stays outside the configured projects (`configured`), so none at all where
    /// `configured` is empty.
    pub fn reconcile(
        &mut self,
        ws: i64,
        fresh: &Vec<Issue>,
        synced: &Vec<String>,
        configured: &Vec<String>,
    )
        ensures
            final(self)@ == reconciled(old(self)@, ws, fresh@, synced.deep_view(), configured.deep_view()),
    {
        proof {
            use_type_invariant(&*self);
        }
        let ghost m = self@;
        let ghost sv = synced.deep_view();
        let ghost tv = configured.deep_view();
        let mut kept: Vec<Issue> = Vec::new();
        let mut i: usize = 0;
        while i < self.rows.len()
            invariant
                i <= self.rows.len(),
                m == table_of(self.rows@),
                sv == synced.deep_view(),
                tv == configured.deep_view(),
                keys_unique(self.rows@),
                keys_unique(kept@),
                table_of(kept@) == pruned(table_of(self.rows@.subrange(0, i as int)), ws, sv, tv),
            decreases self.rows.len() - i,
        {
            let r = &self.rows[i];
            proof {
                lemma_prefix_table(self.rows@, i as int);
                lemma_unique_not_in_prefix(self.rows@, i as int);
            }
            let keep = r.workspace_id != ws || (!is_in_any_project(r.issue_key.as_str(), synced)
                && is_in_any_project(r.issue_key.as_str(), configured));
            if keep {
                proof {
                    assert(!table_of(kept@).contains_key(r.row_key()));
                    lemma_push_keeps_unique(kept@, *r);
                    lemma_table_push(kept@, *r);
                }
                kept.push(r.duplicate());
            }
            assert(table_of(kept@) =~= pruned(
                table_of(self.rows@.subrange(0, i + 1)),
                ws,
                sv,
                tv,
            ));
            i = i + 1;
        }
        assert(self.rows@.subrange(0, self.rows.len() as int) =~= self.rows@);
        let mut store = IssueStore { rows: kept };
        let mut j: usize = 0;
        while j < fresh.len()
            invariant
                j <= fresh.len(),
                tv == configured.deep_view(),
                    store@ == upserted(pruned(m, ws, sv, tv), ws, fresh@.subrange(0, j as int), tv),
            decreases fresh.len() - j,
        {
            let x = &fresh[j];
            assert(fresh@.subrange(0, j + 1).drop_last() =~= fresh@.subrange(0, j as int));
            if is_in_any_project(x.issue_key.as_str(), configured) {
                let mut y = x.duplicate();
                y.workspace_id = ws;
                store.put(y);
            } else {
                store.remove_key((ws, x.id));
            }
            j = j + 1;
        }
        assert(fresh@.subrange(0, fresh.len() as int) =~= fresh@);
        *self = store;
    }

    /// Deletes every row of a workspace.
    pub fn delete_workspace_issues(&mut self, ws: i64)
        ensures
            final(self)@ == without_workspace(old(self)@, ws),
    {
        let ghost m = self@;
        let none: Vec<Issue> = Vec::new();
        let no_keys: Vec<String> = Vec::new();
        self.reconcile(ws, &none, &no_keys, &no_keys);
        assert(none@ =~= Seq::<Issue>::empty());
        assert(self@ =~= without_workspace(m, ws));
    }
}

proof fn lemma_table_len(rows: Seq<Issue>)
    requires
        keys_unique(rows),
    ensures
        table_of(rows).len() == rows.len(),
        table_of(rows).dom().finite(),
    decreases rows.len(),
{
    if rows.len() == 0 {
        assert(table_of(rows) =~= Map::<RowKey, Issue>::empty());
    } else {
        let p = rows.drop_last();
        assert(keys_unique(p));
        lemma_table_len(p);
        assert(rows.subrange(0, rows.len() - 1) =~= p);
        lemma_unique_not_in_prefix(rows, rows.len() - 1);
        assert(rows =~= p.push(rows.last()));
        lemma_table_push(p, rows.last());
    }
}

/// What the upserting steps leave at one key: for a key of the workspace whose
/// id was fetched, the last issue fetched with that id where it lies in a
/// configured project and nothing otherwise; elsewhere the table as it was.
pub proof fn lemma_upserted_at(
    m: Map<RowKey, Issue>,
    ws: i64,
    fresh: Seq<Issue>,
    configured: Seq<Seq<char>>,
    k: RowKey,
)
    ensures
        ({
            let u = upserted(m, ws, fresh, configured);
            let last = last_with_id(fresh, k.1);
            if k.0 == ws && last is Some {
                &&& u.contains_key(k) == in_any_project(last.unwrap().issue_key@, configured)
                &&& u.contains_key(k) ==> u[k] == stored_for(last.unwrap(), ws)
            } else {
                &&& u.contains_key(k) == m.contains_key(k)
                &&& u.contains_key(k) ==> u[k] == m[k]
            }
        }),
    decreases fresh.len(),
{
    if fresh.len() > 0 {
        lemma_upserted_at(m, ws, fresh.drop_last(), configured, k);
    }
}

/// Reconciling a workspace twice in a row with the same fetched issues and the
/// same projects leaves the table as the first reconciliation left it.
pub proof fn lemma_reconcile_idempotent(
    m: Map<RowKey, Issue>,
    ws: i64,
    fresh: Seq<Issue>,
    synced: Seq<Seq<char>>,
    configured: Seq<Seq<char>>,
)
    ensures
        reconciled(reconciled(m, ws, fresh, synced, configured), ws, fresh, synced, configured)
            == reconciled(m, ws, fresh, synced, configured),
{
    let m1 = reconciled(m, ws, fresh, synced, configured);
    let m2 = reconciled(m1, ws, fresh, synced, configured);
    assert forall|k: RowKey|
        #![trigger m2.contains_key(k)]
        #![trigger m1.contains_key(k)]
        m2.contains_key(k) == m1.contains_key(k) && (m1.contains_key(k) ==> m2[k] == m1[k]) by {
        lemma_upserted_at(pruned(m, ws, synced, configured), ws, fresh, configured, k);
        lemma_upserted_at(pruned(m1, ws, synced, configured), ws, fresh, configured, k);
    }
    assert(m2 =~= m1);
}

/// Reconciling a workspace that configures a single project, which synced and
/// returned no issues, deletes every row of that workspace and leaves the
/// rows of other workspaces as they were.
pub proof fn lemma_empty_fetch_clears_workspace(
    m: Map<RowKey, Issue>,
    ws: i64,
    project: Seq<char>,
)
    ensures
        ({
            let r = reconciled(m, ws, Seq::empty(), seq![project], seq![project]);
            &&& forall|k: RowKey| k.0 == ws ==> !#[trigger] r.contains_key(k)
            &&& forall|k: RowKey|
                k.0 != ws ==> (#[trigger] r.contains_key(k) == m.contains_key(k) && (
                m.contains_key(k) ==> r[k] == m[k]))
        }),
{
    let r = reconciled(m, ws, Seq::empty(), seq![project], seq![project]);
    assert forall|k: RowKey| k.0 == ws implies !#[trigger] r.contains_key(k) by {
        lemma_upserted_at(pruned(m, ws, seq![project], seq![project]), ws, Seq::empty(), seq![project], k);
    }
    assert forall|k: RowKey| k.0 != ws implies (#[trigger] r.contains_key(k) == m.contains_key(k) && (
    m.contains_key(k) ==> r[k] == m[k])) by {
        lemma_upserted_at(pruned(m, ws, seq![project], seq![project]), ws, Seq::empty(), seq![project], k);
    }
}

} // verus!
