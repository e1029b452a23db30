use chrono::{Datelike, Duration, Local, Utc};
use project_lens::clock::Instant;
use project_lens::model::{Issue, IssueType, Priority, Status, User};
use project_lens::scoring::{ScoringService, Signals};

fn create_test_user(id: i64, name: &str) -> User {
    User { id, name: name.to_string() }
}

fn create_test_issue() -> Issue {
    Issue {
        id: 1,
        issue_key: "TEST-1".to_string(),
        summary: "テスト課題".to_string(),
        description: None,
        priority: Some(Priority { id: 2, name: "中".to_string() }),
        status: Some(Status { id: 1, name: "未対応".to_string() }),
        issue_type: Some(IssueType { id: 1, name: "タスク".to_string() }),
        assignee: None,
        due_date: None,
        updated: None,
        relevance_score: 0,
        workspace_id: 1,
    }
}

#[test]
fn test_no_assignee_returns_zero_score() {
    let me = create_test_user(1, "テストユーザー");
    let issue = create_test_issue();
    let score = ScoringService::calculate_score(&issue, &me);
    assert_eq!(score, 0, "担当者がいない場合はスコア0");
}

#[test]
fn test_assigned_to_me_returns_base_score() {
    let me = create_test_user(1, "テストユーザー");
    let mut issue = create_test_issue();
    issue.assignee = Some(create_test_user(1, "テストユーザー"));
    let score = ScoringService::calculate_score(&issue, &me);
    assert_eq!(score, 50, "自分が担当者の場合は基本スコア50点");
}

#[test]
fn test_assigned_to_other_returns_zero_score() {
    let me = create_test_user(1, "テストユーザー");
    let mut issue = create_test_issue();
    issue.assignee = Some(create_test_user(2, "他のユーザー"));
    let score = ScoringService::calculate_score(&issue, &me);
    assert_eq!(score, 0, "他のユーザーが担当者の場合はスコア0");
}

#[test]
fn test_overdue_task_adds_100_points() {
    let me = create_test_user(1, "テストユーザー");
    let mut issue = create_test_issue();
    issue.assignee = Some(create_test_user(1, "テストユーザー"));
    let overdue_date = (Local::now() - Duration::days(10)).format("%Y-%m-%d").to_string();
    issue.due_date = Some(overdue_date);
    let score = ScoringService::calculate_score(&issue, &me);
    assert_eq!(score, 150, "期限切れの場合は50(基本) + 100(期限切れ) = 150点");
}

#[test]
fn test_due_within_7_days_adds_50_points() {
    let me = create_test_user(1, "テストユーザー");
    let mut issue = create_test_issue();
    issue.assignee = Some(create_test_user(1, "テストユーザー"));
    let due_date = (Local::now() + Duration::days(5)).format("%Y-%m-%d").to_string();
    issue.due_date = Some(due_date);
    let score = ScoringService::calculate_score(&issue, &me);
    assert_eq!(score, 100, "期限まで7日以内の場合は50(基本) + 50(期限近い) = 100点");
}

#[test]
fn test_due_date_exactly_7_days_adds_50_points() {
    let me = create_test_user(1, "テストユーザー");
    let mut issue = create_test_issue();
    issue.assignee = Some(create_test_user(1, "テストユーザー"));
    let due_date = (Local::now() + Duration::days(7)).format("%Y-%m-%d").to_string();
    issue.due_date = Some(due_date);
    let score = ScoringService::calculate_score(&issue, &me);
    assert_eq!(score, 100, "期限まで7日の場合は50(基本) + 50(期限近い) = 100点");
}

#[test]
fn test_due_date_beyond_7_days_no_bonus() {
    let me = create_test_user(1, "テストユーザー");
    let mut issue = create_test_issue();
    issue.assignee = Some(create_test_user(1, "テストユーザー"));
    let due_date = (Local::now() + Duration::days(10)).format("%Y-%m-%d").to_string();
    issue.due_date = Some(due_date);
    let score = ScoringService::calculate_score(&issue, &me);
    assert_eq!(score, 50, "期限まで8日以上ある場合は基本スコアのみ");
}

#[test]
fn test_recently_updated_adds_50_points() {
    let me = create_test_user(1, "テストユーザー");
    let mut issue = create_test_issue();
    issue.assignee = Some(create_test_user(1, "テストユーザー"));
    let updated_date = (Utc::now() - Duration::days(2)).to_rfc3339();
    issue.updated = Some(updated_date);
    let score = ScoringService::calculate_score(&issue, &me);
    assert_eq!(score, 100, "3日以内に更新された場合は50(基本) + 50(最近更新) = 100点");
}

#[test]
fn test_updated_exactly_3_days_ago_adds_50_points() {
    let me = create_test_user(1, "テストユーザー");
    let mut issue = create_test_issue();
    issue.assignee = Some(create_test_user(1, "テストユーザー"));
    // The clock is handed over, so that "now" is the instant the update is
    // measured from and not a moment later.
    let now = Utc::now();
    let updated_date = (now - Duration::days(3)).to_rfc3339();
    issue.updated = Some(updated_date);
    let today = Local::now().date_naive().num_days_from_ce();
    let at_now = Instant { secs: now.timestamp(), nanos: now.timestamp_subsec_nanos() };
    let score = ScoringService::score_at(&issue, &me, today, at_now);
    assert_eq!(score, 100, "ちょうど3日前に更新された場合も50点追加");
}

#[test]
fn updated_three_and_a_half_days_ago_no_bonus() {
    let me = create_test_user(1, "テストユーザー");
    let mut issue = create_test_issue();
    issue.assignee = Some(create_test_user(1, "テストユーザー"));
    issue.updated = Some((Utc::now() - Duration::days(3) - Duration::hours(12)).to_rfc3339());
    assert_eq!(ScoringService::calculate_score(&issue, &me), 50);
}

#[test]
fn test_updated_over_3_days_ago_no_bonus() {
    let me = create_test_user(1, "テストユーザー");
    let mut issue = create_test_issue();
    issue.assignee = Some(create_test_user(1, "テストユーザー"));
    let updated_date = (Utc::now() - Duration::days(4)).to_rfc3339();
    issue.updated = Some(updated_date);
    let score = ScoringService::calculate_score(&issue, &me);
    assert_eq!(score, 50, "4日以上前の更新は基本スコアのみ");
}

#[test]
fn test_mentioned_in_description_adds_30_points() {
    let me = create_test_user(1, "山田太郎");
    let mut issue = create_test_issue();
    issue.description = Some("@山田太郎 さん、この課題をお願いします".to_string());
    let score = ScoringService::calculate_score(&issue, &me);
    assert_eq!(score, 30, "説明文に名前が含まれる場合は30点");
}

#[test]
fn test_assigned_and_mentioned_combines_scores() {
    let me = create_test_user(1, "山田太郎");
    let mut issue = create_test_issue();
    issue.assignee = Some(create_test_user(1, "山田太郎"));
    issue.description = Some("@山田太郎 さん、至急お願いします".to_string());
    let score = ScoringService::calculate_score(&issue, &me);
    assert_eq!(score, 80, "担当者(50) + メンション(30) = 80点");
}

#[test]
fn test_all_conditions_max_score() {
    let me = create_test_user(1, "山田太郎");
    let mut issue = create_test_issue();
    issue.assignee = Some(create_test_user(1, "山田太郎"));
    issue.description = Some("@山田太郎 さん、確認をお願いします".to_string());
    let overdue_date = (Local::now() - Duration::days(1)).format("%Y-%m-%d").to_string();
    issue.due_date = Some(overdue_date);
    let updated_date = (Utc::now() - Duration::hours(12)).to_rfc3339();
    issue.updated = Some(updated_date);
    let score = ScoringService::calculate_score(&issue, &me);
    assert_eq!(score, 230, "すべての条件: 50(基本) + 100(期限切れ) + 50(最近更新) + 30(メンション) = 230点");
}

#[test]
fn test_invalid_due_date_format_no_crash() {
    let me = create_test_user(1, "テストユーザー");
    let mut issue = create_test_issue();
    issue.assignee = Some(create_test_user(1, "テストユーザー"));
    issue.due_date = Some("invalid-date".to_string());
    let score = ScoringService::calculate_score(&issue, &me);
    assert_eq!(score, 50, "無効な日付フォーマットでもクラッシュせず基本スコアを返す");
}

#[test]
fn test_invalid_updated_date_format_no_crash() {
    let me = create_test_user(1, "テストユーザー");
    let mut issue = create_test_issue();
    issue.assignee = Some(create_test_user(1, "テストユーザー"));
    issue.updated = Some("invalid-datetime".to_string());
    let score = ScoringService::calculate_score(&issue, &me);
    assert_eq!(score, 50, "無効な更新日時フォーマットでもクラッシュせず基本スコアを返す");
}

#[test]
fn test_none_description_no_crash() {
    let me = create_test_user(1, "テストユーザー");
    let mut issue = create_test_issue();
    issue.assignee = Some(create_test_user(1, "テストユーザー"));
    issue.description = None;
    let score = ScoringService::calculate_score(&issue, &me);
    assert_eq!(score, 50, "説明文がNoneでもクラッシュしない");
}

#[test]
fn test_alternative_due_date_format() {
    let me = create_test_user(1, "テストユーザー");
    let mut issue = create_test_issue();
    issue.assignee = Some(create_test_user(1, "テストユーザー"));
    let due_date = (Local::now() + Duration::days(3)).format("%Y-%m-%dT%H:%M:%SZ").to_string();
    issue.due_date = Some(due_date);
    let score = ScoringService::calculate_score(&issue, &me);
    assert_eq!(score, 100, "ISO8601形式の期限日もパース可能");
}

// Scores at a fixed day and instant.

const DAY: i64 = 86_400;

fn at(secs: i64) -> Instant {
    Instant { secs, nanos: 0 }
}

fn signals(assigned: bool, due_day: Option<i32>, updated: Option<Instant>, mentioned: bool) -> Signals {
    Signals { assigned_to_me: assigned, due_day, updated, mentioned }
}

#[test]
fn unassigned_issue_ignores_due_date_and_update() {
    let today = 739_000;
    let now = at(1_700_000_000);
    let plain = ScoringService::score_signals(&signals(false, None, None, false), today, now);
    let dated = ScoringService::score_signals(
        &signals(false, Some(today - 3), Some(at(1_700_000_000 - DAY)), false),
        today,
        now,
    );
    assert_eq!(plain, 0);
    assert_eq!(dated, 0);
    let mentioned = ScoringService::score_signals(
        &signals(false, Some(today - 3), Some(at(1_700_000_000 - DAY)), true),
        today,
        now,
    );
    assert_eq!(mentioned, 30);
}

#[test]
fn overdue_gives_100_and_not_50() {
    let today = 739_000;
    let now = at(1_700_000_000);
    for past in [1, 2, 30, 1000] {
        let s = ScoringService::score_signals(&signals(true, Some(today - past), None, false), today, now);
        assert_eq!(s, 150);
    }
}

#[test]
fn due_seven_days_out_is_near_eight_is_not() {
    let today = 739_000;
    let now = at(1_700_000_000);
    assert_eq!(ScoringService::score_signals(&signals(true, Some(today + 7), None, false), today, now), 100);
    assert_eq!(ScoringService::score_signals(&signals(true, Some(today + 8), None, false), today, now), 50);
    assert_eq!(ScoringService::score_signals(&signals(true, Some(today), None, false), today, now), 100);
}

#[test]
fn updated_three_days_ago_is_recent_four_is_not() {
    let today = 739_000;
    let now = at(1_700_000_000);
    let three = Some(at(1_700_000_000 - 3 * DAY));
    let four = Some(at(1_700_000_000 - 4 * DAY));
    let almost_four = Some(Instant { secs: 1_700_000_000 - 4 * DAY, nanos: 1 });
    let three_and_a_half = Some(at(1_700_000_000 - 3 * DAY - DAY / 2));
    let just_over_three = Some(Instant { secs: 1_700_000_000 - 3 * DAY - 1, nanos: 999_999_999 });
    assert_eq!(ScoringService::score_signals(&signals(true, None, three, false), today, now), 100);
    assert_eq!(ScoringService::score_signals(&signals(true, None, four, false), today, now), 50);
    assert_eq!(ScoringService::score_signals(&signals(true, None, almost_four, false), today, now), 50);
    assert_eq!(ScoringService::score_signals(&signals(true, None, three_and_a_half, false), today, now), 50);
    assert_eq!(ScoringService::score_signals(&signals(true, None, just_over_three, false), today, now), 50);
}

#[test]
fn all_signals_score_230() {
    let today = 739_000;
    let now = at(1_700_000_000);
    let s = signals(true, Some(today - 1), Some(at(1_700_000_000 - DAY / 2)), true);
    assert_eq!(ScoringService::score_signals(&s, today, now), 230);
}

#[test]
fn unassigned_mention_scores_30() {
    let me = create_test_user(7, "Hanako");
    let mut issue = create_test_issue();
    issue.description = Some("please ask Hanako".to_string());
    issue.due_date = Some("2000-01-01".to_string());
    assert_eq!(ScoringService::calculate_score(&issue, &me), 30);
}

#[test]
fn signals_read_both_due_date_forms() {
    let me = create_test_user(1, "A");
    let mut issue = create_test_issue();
    issue.assignee = Some(create_test_user(1, "A"));
    issue.due_date = Some("0001-01-02".to_string());
    assert_eq!(ScoringService::signals(&issue, &me).due_day, Some(2));
    issue.due_date = Some("0001-01-03T00:00:00Z".to_string());
    assert_eq!(ScoringService::signals(&issue, &me).due_day, Some(3));
    issue.due_date = Some("03/01/0001".to_string());
    assert_eq!(ScoringService::signals(&issue, &me).due_day, None);
    issue.updated = Some("1970-01-02T00:00:00+00:00".to_string());
    let u = ScoringService::signals(&issue, &me).updated.unwrap();
    assert_eq!((u.secs, u.nanos), (DAY, 0));
    assert!(ScoringService::signals(&issue, &me).assigned_to_me);
    assert!(!ScoringService::signals(&issue, &me).mentioned);
}

#[test]
fn score_at_fixed_clock() {
    let me = create_test_user(1, "A");
    let mut issue = create_test_issue();
    issue.assignee = Some(create_test_user(1, "A"));
    issue.due_date = Some("1970-01-05".to_string());
    issue.updated = Some("1970-01-02T00:00:00Z".to_string());
    // 1970-01-01 is day 719163.
    let today = 719_163 + 3;
    let now = at(2 * DAY);
    assert_eq!(ScoringService::score_at(&issue, &me, today, now), 150);
    assert_eq!(ScoringService::score_at(&issue, &me, today + 2, now), 200);
}
