use vstd::prelude::*;
use crate::clock::{
    Instant, NANOS_PER_DAY, calendar_day_of, local_today, nanos_between, nanos_elapsed,
    parse_calendar_day, parse_rfc3339, rfc3339_instant_of, utc_now,
};
use crate::model::{Issue, User};
use crate::text::{contains_text, occurs_in};

verus! {

/// Points for being the assignee of an issue.
pub const ASSIGNED_POINTS: i32 = 50;

/// Points for an assigned issue whose due date has passed.
pub const OVERDUE_POINTS: i32 = 100;

/// Points for an assigned issue due within the next week.
pub const DUE_SOON_POINTS: i32 = 50;

/// Points for an assigned issue updated within the last days.
pub const RECENT_POINTS: i32 = 50;

/// Points for an issue whose description names the user.
pub const MENTION_POINTS: i32 = 30;

/// Days ahead within which a due date counts as near.
pub const DUE_SOON_DAYS: i64 = 7;

/// Time within which an update counts as recent: three days, in nanoseconds.
pub const RECENT_WINDOW_NANOS: i128 = 259_200_000_000_000;

/// The full-timestamp form of a due date.
pub const DUE_TIMESTAMP_FORMAT: &'static str = "%Y-%m-%dT%H:%M:%SZ";

/// The plain calendar form of a due date.
pub const DUE_DATE_FORMAT: &'static str = "%Y-%m-%d";

/// What the score of an issue is computed from.
#[derive(Debug, Clone, Copy)]
pub struct Signals {
    /// The issue is assigned to the user.
    pub assigned_to_me: bool,
    /// The day the issue is due, where its due date parses.
    pub due_day: Option<i32>,
    /// When the issue was last updated, where that parses.
    pub updated: Option<Instant>,
    /// The description names the user.
    pub mentioned: bool,
}

pub open spec fn assigned_to(issue: Issue, me: User) -> bool {
    match issue.assignee {
        Some(a) => a.id == me.id,
        None => false,
    }
}

pub open spec fn mentions(issue: Issue, me: User) -> bool {
    match issue.description {
        Some(d) => occurs_in(d@, me.name@),
        None => false,
    }
}

/// The due day of a text: read as a full timestamp, else as a plain date.
pub open spec fn due_day_of(text: Seq<char>) -> Option<int> {
    match calendar_day_of(text, DUE_TIMESTAMP_FORMAT@) {
        Some(d) => Some(d),
        None => calendar_day_of(text, DUE_DATE_FORMAT@),
    }
}

pub open spec fn signals_of(issue: Issue, me: User) -> Signals {
    Signals {
        assigned_to_me: assigned_to(issue, me),
        due_day: match issue.due_date {
            Some(t) => match due_day_of(t@) {
                Some(d) => Some(d as i32),
                None => None,
            },
            None => None,
        },
        updated: match issue.updated {
            Some(t) => match rfc3339_instant_of(t@) {
                Some(p) => Some(Instant { secs: p.0 as i64, nanos: p.1 as u32 }),
                None => None,
            },
            None => None,
        },
        mentioned: mentions(issue, me),
    }
}

/// Points from the due date: overdue and due soon exclude each other.
pub open spec fn due_points(due_day: Option<i32>, today: i32) -> int {
    match due_day {
        Some(d) => if d - today < 0 {
            OVERDUE_POINTS as int
        } else if d - today <= DUE_SOON_DAYS {
            DUE_SOON_POINTS as int
        } else {
            0
        },
        None => 0,
    }
}

/// Points from the last update.
pub open spec fn recency_points(updated: Option<Instant>, now: Instant) -> int {
    match updated {
        Some(u) => if nanos_between(now, u) <= RECENT_WINDOW_NANOS {
            RECENT_POINTS as int
        } else {
            0
        },
        None => 0,
    }
}

/// Points from a mention in the description, whoever the assignee is.
pub open spec fn mention_points(s: Signals) -> int {
    if s.mentioned {
        MENTION_POINTS as int
    } else {
        0
    }
}

/// The relevance score: assignment, due date and recency count only for the
/// user's own issues; a mention counts for every issue.
pub open spec fn score_of(s: Signals, today: i32, now: Instant) -> int {
    (if s.assigned_to_me {
        ASSIGNED_POINTS + due_points(s.due_day, today) + recency_points(s.updated, now)
    } else {
        0
    }) + mention_points(s)
}

/// Computes relevance scores of issues for the signed-in user.
pub struct ScoringService;

impl ScoringService {
    /// The score of an issue from its signals, on a given day and at a given
    /// instant.
    pub fn score_signals(s: &Signals, today: i32, now: Instant) -> (r: i32)
        ensures
            r as int == score_of(*s, today, now),
            0 <= r <= 230,
    {
        let mut score: i32 = 0;
        if s.assigned_to_me {
            score = score + ASSIGNED_POINTS;
            if let Some(d) = s.due_day {
                let diff: i64 = d as i64 - today as i64;
                if diff < 0 {
                    score = score + OVERDUE_POINTS;
                } else if diff <= DUE_SOON_DAYS {
                    score = score + DUE_SOON_POINTS;
                }
            }
            if let Some(u) = s.updated {
                if nanos_elapsed(now, u) <= RECENT_WINDOW_NANOS {
                    score = score + RECENT_POINTS;
                }
            }
        }
        if s.mentioned {
            score = score + MENTION_POINTS;
        }
        score
    }

    /// Reads the signals of an issue for the user. Dates that do not parse
    /// count as absent.
    pub fn signals(issue: &Issue, me: &User) -> (r: Signals)
        ensures
            r == signals_of(*issue, *me),
            r.updated matches Some(u) ==> u.wf(),
    {
        let assigned_to_me = match &issue.assignee {
            Some(a) => a.id == me.id,
            None => false,
        };
        let due_day = match &issue.due_date {
            Some(t) => match parse_calendar_day(t.as_str(), DUE_TIMESTAMP_FORMAT) {
                Some(d) => Some(d),
                None => parse_calendar_day(t.as_str(), DUE_DATE_FORMAT),
            },
            None => None,
        };
        let updated = match &issue.updated {
            Some(t) => parse_rfc3339(t.as_str()),
            None => None,
        };
        let mentioned = match &issue.description {
            Some(d) => contains_text(d.as_str(), me.name.as_str()),
            None => false,
        };
        Signals { assigned_to_me, due_day, updated, mentioned }
    }

    /// The score of an issue for the user on a given day and at a given instant.
    pub fn score_at(issue: &Issue, me: &User, today: i32, now: Instant) -> (r: i32)
        ensures
            r as int == score_of(signals_of(*issue, *me), today, now),
    {
        let s = Self::signals(issue, me);
        Self::score_signals(&s, today, now)
    }

    /// The score of an issue for the user now. An issue that is not assigned
    /// to the user scores only for a mention, whatever its dates.
    pub fn calculate_score(issue: &Issue, me: &User) -> (r: i32)
        ensures
            exists|today: i32, now: Instant|
                now.wf() && r as int == score_of(signals_of(*issue, *me), today, now),
            0 <= r,
            !assigned_to(*issue, *me) ==> r as int == mention_points(signals_of(*issue, *me)),
    {
        let today = local_today();
        let now = utc_now();
        Self::score_at(issue, me, today, now)
    }
}

/// An issue not assigned to the user scores the mention bonus alone: its due
/// date and its last update, and the day and instant of scoring, change nothing.
pub proof fn lemma_unassigned_ignores_dates(
    s: Signals,
    t: Signals,
    today1: i32,
    now1: Instant,
    today2: i32,
    now2: Instant,
)
    requires
        !s.assigned_to_me,
        !t.assigned_to_me,
        s.mentioned == t.mentioned,
    ensures
        score_of(s, today1, now1) == score_of(t, today2, now2),
        score_of(s, today1, now1) == mention_points(s),
{
}

/// For the user's own issue whose due day has passed, the due date adds
/// exactly the overdue points, never also the due-soon points.
pub proof fn lemma_overdue_adds_overdue_points(s: Signals, today: i32, now: Instant)
    requires
        s.assigned_to_me,
        s.due_day matches Some(d) && d < today,
    ensures
        due_points(s.due_day, today) == OVERDUE_POINTS,
        score_of(s, today, now) == ASSIGNED_POINTS + OVERDUE_POINTS + recency_points(s.updated, now)
            + mention_points(s),
{
}

/// A due day seven days ahead is near; eight days ahead is not.
pub proof fn lemma_due_soon_boundary(today: i32)
    requires
        today + 8 <= i32::MAX,
    ensures
        due_points(Some((today + 7) as i32), today) == DUE_SOON_POINTS,
        due_points(Some((today + 8) as i32), today) == 0,
{
}

/// An update at most three days before now counts as recent; one more than
/// three days before now does not.
pub proof fn lemma_recent_boundary(u: Instant, now: Instant)
    ensures
        nanos_between(now, u) <= 3 * NANOS_PER_DAY ==> recency_points(Some(u), now)
            == RECENT_POINTS,
        nanos_between(now, u) > 3 * NANOS_PER_DAY ==> recency_points(Some(u), now) == 0,
{
}

} // verus!
