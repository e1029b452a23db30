use vstd::prelude::*;
use crate::clock::Instant;
use crate::model::{Issue, User, Workspace};
use crate::notify::{crosses_threshold, should_notify};
use crate::rate_limit::RateLimitInfo;
use crate::scoring::{ScoringService, score_of, signals_of};
use crate::store::{IssueStore, RowKey, reconciled, without_workspace};
use crate::text::{project_keys_of, split_project_keys};

verus! {

/// Status ids of the issues fetched for a project: open, in progress and
/// resolved. Closed issues are never fetched.
pub const OPEN_STATUS_IDS: [i64; 3] = [1, 2, 3];

/// What a project's fetch returned.
#[derive(Debug, Clone)]
pub struct FetchedIssues {
    pub issues: Vec<Issue>,
    pub rate_limit: RateLimitInfo,
}

/// The fetch of one configured project in a round; `result` is `None` where
/// the fetch failed.
#[derive(Debug, Clone)]
pub struct ProjectFetch {
    pub project_key: String,
    pub result: Option<FetchedIssues>,
}

/// What a synchronized workspace hands back for the round.
#[derive(Debug, Clone)]
pub struct WorkspaceReport {
    /// The fetched issues, scored and stamped with the workspace.
    pub issues: Vec<Issue>,
    /// The issues whose score crossed the importance threshold.
    pub notify: Vec<Issue>,
    /// The projects whose fetch succeeded.
    pub synced_projects: Vec<String>,
    /// The window of the last successful fetch, to be stored for the workspace.
    pub rate_limit: Option<RateLimitInfo>,
    /// The signed-in user, where the workspace has not cached it yet.
    pub identity: Option<User>,
}

/// How one workspace fared in a round.
#[derive(Debug, Clone)]
pub enum WorkspaceOutcome {
    /// The workspace is disabled: its issues were deleted, nothing was fetched.
    Disabled,
    /// The signed-in user could not be fetched: the round left it untouched.
    IdentityUnavailable,
    /// The workspace was scored and reconciled.
    Synced(WorkspaceReport),
}

/// The issues that the successful fetches returned, in fetch order.
pub open spec fn fetched_issues(fetches: Seq<ProjectFetch>) -> Seq<Issue>
    decreases fetches.len(),
{
    if fetches.len() == 0 {
        Seq::empty()
    } else {
        fetched_issues(fetches.drop_last()) + match fetches.last().result {
            Some(f) => f.issues@,
            None => Seq::empty(),
        }
    }
}

/// The keys of the projects whose fetch succeeded.
pub open spec fn synced_keys(fetches: Seq<ProjectFetch>) -> Seq<Seq<char>>
    decreases fetches.len(),
{
    if fetches.len() == 0 {
        Seq::empty()
    } else {
        let before = synced_keys(fetches.drop_last());
        match fetches.last().result {
            Some(_) => before.push(fetches.last().project_key@),
            None => before,
        }
    }
}

/// The window reported by the last successful fetch.
pub open spec fn last_rate_limit(fetches: Seq<ProjectFetch>) -> Option<RateLimitInfo>
    decreases fetches.len(),
{
    if fetches.len() == 0 {
        None
    } else {
        match fetches.last().result {
            Some(f) => Some(f.rate_limit),
            None => last_rate_limit(fetches.drop_last()),
        }
    }
}

/// The issues scored for the user and stamped with the workspace.
pub open spec fn scored(issues: Seq<Issue>, me: User, ws: i64, today: i32, now: Instant) -> Seq<
    Issue,
> {
    Seq::new(
        issues.len(),
        |j: int| issues[j].stamped(ws, score_of(signals_of(issues[j], me), today, now) as i32),
    )
}

/// The score a table holds for a key.
pub open spec fn stored_score(m: Map<RowKey, Issue>, k: RowKey) -> Option<i32> {
    if m.contains_key(k) {
        Some(m[k].relevance_score)
    } else {
        None
    }
}

/// The issues whose new score crosses the threshold from the score the table
/// held before the round.
pub open spec fn notifications(m: Map<RowKey, Issue>, issues: Seq<Issue>) -> Seq<Issue>
    decreases issues.len(),
{
    if issues.len() == 0 {
        Seq::empty()
    } else {
        let before = notifications(m, issues.drop_last());
        let x = issues.last();
        if crosses_threshold(stored_score(m, x.row_key()), x.relevance_score) {
            before.push(x)
        } else {
            before
        }
    }
}

/// The table after a workspace's round.
pub open spec fn table_after_round(
    m: Map<RowKey, Issue>,
    w: Workspace,
    fetches: Seq<ProjectFetch>,
    me: Option<User>,
    today: i32,
    now: Instant,
) -> Map<RowKey, Issue> {
    if !w.enabled {
        without_workspace(m, w.id)
    } else {
        match me {
            None => m,
            Some(u) => reconciled(
                m,
                w.id,
                scored(fetched_issues(fetches), u, w.id, today, now),
                synced_keys(fetches),
                project_keys_of(w.project_keys@),
            ),
        }
    }
}

/// Whether a round's outcome matches the workspace and what was fetched.
pub open spec fn outcome_of(
    r: WorkspaceOutcome,
    m: Map<RowKey, Issue>,
    w: Workspace,
    fetches: Seq<ProjectFetch>,
    me: Option<User>,
    today: i32,
    now: Instant,
) -> bool {
    if !w.enabled {
        r is Disabled
    } else {
        match me {
            None => r is IdentityUnavailable,
            Some(u) => match r {
                WorkspaceOutcome::Synced(rep) => {
                    &&& rep.issues@ == scored(fetched_issues(fetches), u, w.id, today, now)
                    &&& rep.notify@ == notifications(m, rep.issues@)
                    &&& rep.synced_projects.deep_view() == synced_keys(fetches)
                    &&& rep.rate_limit == last_rate_limit(fetches)
                    &&& rep.identity == if w.user_id is None || w.user_name is None {
                        Some(u)
                    } else {
                        None
                    }
                },
                _ => false,
            },
        }
    }
}

/// Runs the round of one workspace on what was fetched for it: `fetches` for
/// its projects, and `me`, the signed-in user, or `None` where that fetch
/// failed. A disabled workspace loses its issues. Without the user the
/// workspace is left as it was. Otherwise every fetched issue is scored, the
/// threshold crossings are read against the scores stored before, and the
/// table is reconciled.
pub fn sync_workspace(
    store: &mut IssueStore,
    workspace: &Workspace,
    fetches: &Vec<ProjectFetch>,
    me: Option<User>,
    today: i32,
    now: Instant,
) -> (r: WorkspaceOutcome)
    ensures
        final(store)@ == table_after_round(old(store)@, *workspace, fetches@, me, today, now),
        outcome_of(r, old(store)@, *workspace, fetches@, me, today, now),
{
    let ws = workspace.id;
    if !workspace.enabled {
        store.delete_workspace_issues(ws);
        return WorkspaceOutcome::Disabled;
    }
    let u = match me {
        None => {
            return WorkspaceOutcome::IdentityUnavailable;
        },
        Some(u) => u,
    };
    let mut fetched: Vec<Issue> = Vec::new();
    let mut synced: Vec<String> = Vec::new();
    let mut rate_limit: Option<RateLimitInfo> = None;
    let mut i: usize = 0;
    while i < fetches.len()
        invariant
            i <= fetches.len(),
            fetched@ == fetched_issues(fetches@.subrange(0, i as int)),
            synced.deep_view() == synced_keys(fetches@.subrange(0, i as int)),
            rate_limit == last_rate_limit(fetches@.subrange(0, i as int)),
        decreases fetches.len() - i,
    {
        let ghost p = fetches@.subrange(0, i + 1);
        assert(p.drop_last() =~= fetches@.subrange(0, i as int));
        assert(p.last() == fetches@[i as int]);
        match &fetches[i].result {
            Some(f) => {
                let ghost before = fetched@;
                let mut j: usize = 0;
                while j < f.issues.len()
                    invariant
                        j <= f.issues.len(),
                        fetched@ == before + f.issues@.subrange(0, j as int),
                    decreases f.issues.len() - j,
                {
                    fetched.push(f.issues[j].duplicate());
                    assert(f.issues@.subrange(0, j + 1) =~= f.issues@.subrange(0, j as int).push(
                        f.issues@[j as int],
                    ));
                    j = j + 1;
                }
                assert(f.issues@.subrange(0, f.issues.len() as int) =~= f.issues@);
                let ghost keys = synced.deep_view();
                synced.push(fetches[i].project_key.clone());
                assert(synced.deep_view() =~= keys.push(fetches@[i as int].project_key@));
                rate_limit = Some(f.rate_limit.duplicate());
            },
            None => {
                assert(fetched_issues(p) =~= fetched_issues(fetches@.subrange(0, i as int)));
            },
        }
        i = i + 1;
    }
    assert(fetches@.subrange(0, fetches.len() as int) =~= fetches@);
    let ghost m = store@;
    let ghost expected = scored(fetched@, u, ws, today, now);
    let mut issues: Vec<Issue> = Vec::new();
    let mut notify: Vec<Issue> = Vec::new();
    let mut j: usize = 0;
    while j < fetched.len()
        invariant
            j <= fetched.len(),
            store@ == m,
            expected == scored(fetched@, u, ws, today, now),
            issues@ == expected.subrange(0, j as int),
            notify@ == notifications(m, issues@),
        decreases fetched.len() - j,
    {
        let x = &fetched[j];
        let score = ScoringService::score_at(x, &u, today, now);
        let mut y = x.duplicate();
        y.relevance_score = score;
        y.workspace_id = ws;
        assert(y == expected[j as int]);
        let ghost before = issues@;
        if should_notify(store.previous_score(ws, y.id), score) {
            notify.push(y.duplicate());
        }
        issues.push(y);
        assert(issues@.drop_last() =~= before);
        assert(issues@ =~= expected.subrange(0, j + 1));
        j = j + 1;
    }
    assert(issues@ =~= expected);
    let configured = split_project_keys(workspace.project_keys.as_str());
    store.reconcile(ws, &issues, &synced, &configured);
    let identity = if workspace.user_id.is_none() || workspace.user_name.is_none() {
        Some(u)
    } else {
        None
    };
    WorkspaceOutcome::Synced(
        WorkspaceReport { issues, notify, synced_projects: synced, rate_limit, identity },
    )
}

/// A disabled workspace's round deletes all of its issues and nothing else,
/// reports it as disabled whatever was fetched, and every later round while
/// it stays disabled leaves the table as it is.
pub proof fn lemma_disabled_workspace_purged(
    m: Map<RowKey, Issue>,
    w: Workspace,
    fetches: Seq<ProjectFetch>,
    me: Option<User>,
    today: i32,
    now: Instant,
    r: WorkspaceOutcome,
    later_fetches: Seq<ProjectFetch>,
    later_me: Option<User>,
    later_today: i32,
    later_now: Instant,
)
    requires
        !w.enabled,
        outcome_of(r, m, w, fetches, me, today, now),
    ensures
        r is Disabled,
        ({
            let after = table_after_round(m, w, fetches, me, today, now);
            &&& forall|k: RowKey| k.0 == w.id ==> !#[trigger] after.contains_key(k)
            &&& forall|k: RowKey|
                k.0 != w.id ==> (#[trigger] after.contains_key(k) == m.contains_key(k) && (
                m.contains_key(k) ==> after[k] == m[k]))
            &&& table_after_round(after, w, later_fetches, later_me, later_today, later_now)
                == after
        }),
{
    let after = table_after_round(m, w, fetches, me, today, now);
    assert(table_after_round(after, w, later_fetches, later_me, later_today, later_now) =~= after);
}

} // verus!
