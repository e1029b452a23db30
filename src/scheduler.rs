use vstd::prelude::*;
use crate::model::Issue;
use crate::notify::is_important;
use crate::sync::WorkspaceOutcome;

verus! {

/// Seconds between two synchronization rounds.
pub const SYNC_INTERVAL_SECS: u64 = 300;

/// The two states of the scheduler.
#[derive(Debug, Clone, Copy, PartialEq, Eq)]
pub enum SchedulerState {
    /// Waiting for the next tick.
    Idle,
    /// Running a round over every workspace.
    Syncing,
}

/// Drives the periodic rounds: a tick starts a round when none runs, and a
/// round ends once every workspace was processed, whatever failed in it.
#[derive(Debug, Clone, Copy)]
pub struct Scheduler {
    pub state: SchedulerState,
}

/// What the presentation side is asked to announce after a round.
#[derive(Debug, Clone)]
pub enum NotificationRequest {
    /// One issue crossed the threshold.
    Single { summary: String, score: i32 },
    /// Several issues crossed the threshold.
    Several { count: usize },
}

/// The aggregate of a round over all workspaces.
#[derive(Debug, Clone)]
pub struct RoundSummary {
    /// The issues of every synchronized workspace, in workspace order.
    pub issues: Vec<Issue>,
    /// How many of them are important.
    pub important_count: usize,
    /// The announcement to make, where some issue crossed the threshold.
    pub notification: Option<NotificationRequest>,
}

/// The issues of the synchronized workspaces, in order.
pub open spec fn round_issues(outcomes: Seq<WorkspaceOutcome>) -> Seq<Issue>
    decreases outcomes.len(),
{
    if outcomes.len() == 0 {
        Seq::empty()
    } else {
        round_issues(outcomes.drop_last()) + match outcomes.last() {
            WorkspaceOutcome::Synced(rep) => rep.issues@,
            _ => Seq::empty(),
        }
    }
}

/// The issues that crossed the threshold in the synchronized workspaces.
pub open spec fn round_notifications(outcomes: Seq<WorkspaceOutcome>) -> Seq<Issue>
    decreases outcomes.len(),
{
    if outcomes.len() == 0 {
        Seq::empty()
    } else {
        round_notifications(outcomes.drop_last()) + match outcomes.last() {
            WorkspaceOutcome::Synced(rep) => rep.notify@,
            _ => Seq::empty(),
        }
    }
}

/// How many issues are important.
pub open spec fn count_important(issues: Seq<Issue>) -> nat
    decreases issues.len(),
{
    if issues.len() == 0 {
        0
    } else {
        count_important(issues.drop_last()) + if is_important(
            issues.last().relevance_score as int,
        ) {
            1nat
        } else {
            0nat
        }
    }
}

/// The announcement for the issues that crossed the threshold in a round.
pub open spec fn request_for(crossed: Seq<Issue>) -> Option<NotificationRequest> {
    if crossed.len() == 0 {
        None
    } else if crossed.len() == 1 {
        Some(
            NotificationRequest::Single {
                summary: crossed[0].summary,
                score: crossed[0].relevance_score,
            },
        )
    } else {
        Some(NotificationRequest::Several { count: crossed.len() as usize })
    }
}

impl Scheduler {
    /// A scheduler waiting for its first tick.
    pub fn new() -> (r: Self)
        ensures
            r.state == SchedulerState::Idle,
    {
        Scheduler { state: SchedulerState::Idle }
    }

    /// The timer fired. A round starts when none runs; the result says
    /// whether one started.
    pub fn on_tick(&mut self) -> (started: bool)
        ensures
            started == (old(self).state == SchedulerState::Idle),
            final(self).state == SchedulerState::Syncing,
    {
        match self.state {
            SchedulerState::Idle => {
                self.state = SchedulerState::Syncing;
                true
            },
            SchedulerState::Syncing => false,
        }
    }

    /// Every workspace of the round was processed.
    pub fn on_round_complete(&mut self)
        ensures
            final(self).state == SchedulerState::Idle,
    {
        self.state = SchedulerState::Idle;
    }
}

fn append_copies(dst: &mut Vec<Issue>, src: &Vec<Issue>)
    ensures
        final(dst)@ == old(dst)@ + src@,
{
    let mut j: usize = 0;
    while j < src.len()
        invariant
            j <= src.len(),
            dst@ == old(dst)@ + src@.subrange(0, j as int),
        decreases src.len() - j,
    {
        dst.push(src[j].duplicate());
        assert(src@.subrange(0, j + 1) =~= src@.subrange(0, j as int).push(src@[j as int]));
        j = j + 1;
    }
    assert(src@.subrange(0, src.len() as int) =~= src@);
}

/// Gathers a round: the issues of every synchronized workspace, how many of
/// them are important, and the announcement for the issues that crossed the
/// threshold, one by name or several by count.
pub fn summarize_round(outcomes: &Vec<WorkspaceOutcome>) -> (r: RoundSummary)
    ensures
        r.issues@ == round_issues(outcomes@),
        r.important_count == count_important(r.issues@),
        r.notification == request_for(round_notifications(outcomes@)),
{
    let mut issues: Vec<Issue> = Vec::new();
    let mut crossed: Vec<Issue> = Vec::new();
    let mut i: usize = 0;
    while i < outcomes.len()
        invariant
            i <= outcomes.len(),
            issues@ == round_issues(outcomes@.subrange(0, i as int)),
            crossed@ == round_notifications(outcomes@.subrange(0, i as int)),
        decreases outcomes.len() - i,
    {
        let ghost p = outcomes@.subrange(0, i + 1);
        assert(p.drop_last() =~= outcomes@.subrange(0, i as int));
        match &outcomes[i] {
            WorkspaceOutcome::Synced(rep) => {
                append_copies(&mut issues, &rep.issues);
                append_copies(&mut crossed, &rep.notify);
            },
            _ => {
                assert(issues@ =~= round_issues(p));
                assert(crossed@ =~= round_notifications(p));
            },
        }
        i = i + 1;
    }
    assert(outcomes@.subrange(0, outcomes.len() as int) =~= outcomes@);
    let mut count: usize = 0;
    let mut j: usize = 0;
    while j < issues.len()
        invariant
            j <= issues.len(),
            count <= j,
            count == count_important(issues@.subrange(0, j as int)),
        decreases issues.len() - j,
    {
        assert(issues@.subrange(0, j + 1).drop_last() =~= issues@.subrange(0, j as int));
        if issues[j].relevance_score >= crate::notify::IMPORTANCE_THRESHOLD {
            count = count + 1;
        }
        j = j + 1;
    }
    assert(issues@.subrange(0, issues.len() as int) =~= issues@);
    let notification = if crossed.len() == 0 {
        None
    } else if crossed.len() == 1 {
        Some(
            NotificationRequest::Single {
                summary: crossed[0].summary.clone(),
                score: crossed[0].relevance_score,
            },
        )
    } else {
        Some(NotificationRequest::Several { count: crossed.len() })
    };
    RoundSummary { issues, important_count: count, notification }
}

} // verus!
