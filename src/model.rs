use vstd::prelude::*;

verus! {

/// Priority of an issue, as the tracker names it.
#[derive(Debug, Clone)]
pub struct Priority {
    pub id: i64,
    pub name: String,
}

/// Workflow status of an issue.
#[derive(Debug, Clone)]
pub struct Status {
    pub id: i64,
    pub name: String,
}

/// Kind of an issue (task, bug, ...).
#[derive(Debug, Clone)]
pub struct IssueType {
    pub id: i64,
    pub name: String,
}

/// A user of the tracker: the assignee of an issue, or the signed-in user.
#[derive(Debug, Clone)]
pub struct User {
    pub id: i64,
    pub name: String,
}

/// A project of the tracker.
#[derive(Debug, Clone)]
pub struct Project {
    pub id: i64,
    pub project_key: String,
    pub name: String,
}

/// A snapshot of a remote work item, with the score computed for it and the
/// workspace it was fetched from.
#[derive(Debug, Clone)]
pub struct Issue {
    pub id: i64,
    /// Human-readable key of the form `PROJECT-NUMBER`.
    pub issue_key: String,
    pub summary: String,
    pub description: Option<String>,
    pub priority: Option<Priority>,
    pub status: Option<Status>,
    pub issue_type: Option<IssueType>,
    pub assignee: Option<User>,
    /// Due date as the tracker sends it (`2024-12-31` or `2024-12-31T00:00:00Z`).
    pub due_date: Option<String>,
    /// Last update as an RFC 3339 timestamp.
    pub updated: Option<String>,
    pub relevance_score: i32,
    pub workspace_id: i64,
}

/// A configured tracker account.
#[derive(Debug, Clone)]
pub struct Workspace {
    pub id: i64,
    pub domain: String,
    pub api_key: String,
    /// Comma-separated keys of the configured projects.
    pub project_keys: String,
    pub user_id: Option<i64>,
    pub user_name: Option<String>,
    pub enabled: bool,
    pub api_limit: Option<i64>,
    pub api_remaining: Option<i64>,
    pub api_reset: Option<String>,
}

/// Whether a workspace whose stored record says nothing about it is enabled.
pub fn default_enabled() -> (r: bool)
    ensures
        r,
{
    true
}

/// A copy of an optional text.
pub fn copy_text(t: &Option<String>) -> (r: Option<String>)
    ensures
        r == *t,
{
    match t {
        Some(s) => Some(s.clone()),
        None => None,
    }
}

impl Priority {
    /// A copy equal to `self`.
    pub fn duplicate(&self) -> (r: Self)
        ensures
            r == *self,
    {
        Priority { id: self.id, name: self.name.clone() }
    }
}

impl Status {
    /// A copy equal to `self`.
    pub fn duplicate(&self) -> (r: Self)
        ensures
            r == *self,
    {
        Status { id: self.id, name: self.name.clone() }
    }
}

impl IssueType {
    /// A copy equal to `self`.
    pub fn duplicate(&self) -> (r: Self)
        ensures
            r == *self,
    {
        IssueType { id: self.id, name: self.name.clone() }
    }
}

impl User {
    /// A copy equal to `self`.
    pub fn duplicate(&self) -> (r: Self)
        ensures
            r == *self,
    {
        User { id: self.id, name: self.name.clone() }
    }
}

impl Issue {
    /// A copy equal to `self`.
    pub fn duplicate(&self) -> (r: Self)
        ensures
            r == *self,
    {
        Issue {
            id: self.id,
            issue_key: self.issue_key.clone(),
            summary: self.summary.clone(),
            description: copy_text(&self.description),
            priority: match &self.priority {
                Some(p) => Some(p.duplicate()),
                None => None,
            },
            status: match &self.status {
                Some(s) => Some(s.duplicate()),
                None => None,
            },
            issue_type: match &self.issue_type {
                Some(t) => Some(t.duplicate()),
                None => None,
            },
            assignee: match &self.assignee {
                Some(u) => Some(u.duplicate()),
                None => None,
            },
            due_date: copy_text(&self.due_date),
            updated: copy_text(&self.updated),
            relevance_score: self.relevance_score,
            workspace_id: self.workspace_id,
        }
    }

    /// The key under which the issue is stored: its workspace, then its id.
    pub open spec fn row_key(self) -> (i64, i64) {
        (self.workspace_id, self.id)
    }

    /// The issue as stored for a workspace, with the given score.
    pub open spec fn stamped(self, workspace_id: i64, score: i32) -> Issue {
        Issue { workspace_id, relevance_score: score, ..self }
    }
}

} // verus!
