use project_lens::model::{Issue, Priority, User};
use project_lens::store::{IssueStore, search_columns};

fn create_test_issue(id: i64, issue_key: &str, summary: &str) -> Issue {
    Issue {
        id,
        issue_key: issue_key.to_string(),
        summary: summary.to_string(),
        description: None,
        priority: None,
        status: None,
        issue_type: None,
        assignee: None,
        due_date: None,
        updated: None,
        relevance_score: 0,
        workspace_id: 0,
    }
}

fn keys(v: &[&str]) -> Vec<String> {
    v.iter().map(|s| s.to_string()).collect()
}

fn sorted_rows(store: &IssueStore) -> Vec<(i64, i64, String, String)> {
    let mut rows: Vec<(i64, i64, String, String)> = store
        .rows()
        .iter()
        .map(|i| (i.workspace_id, i.id, i.issue_key.clone(), i.summary.clone()))
        .collect();
    rows.sort();
    rows
}

#[test]
fn test_save_and_get_issues() {
    let mut store = IssueStore::new();
    let issues = vec![create_test_issue(1, "PROJ-1", "Issue 1"), create_test_issue(2, "PROJ-2", "Issue 2")];
    store.reconcile(1, &issues, &keys(&["PROJ"]), &keys(&["PROJ"]));
    let rows = sorted_rows(&store);
    assert_eq!(rows.len(), 2);
    assert_eq!(rows[0].2, "PROJ-1");
    assert_eq!(rows[1].2, "PROJ-2");
    assert!(store.rows().iter().all(|i| i.workspace_id == 1));
}

#[test]
fn test_update_existing_issues() {
    let mut store = IssueStore::new();
    store.reconcile(1, &vec![create_test_issue(1, "PROJ-1", "Old Summary")], &keys(&["PROJ"]), &keys(&["PROJ"]));
    store.reconcile(1, &vec![create_test_issue(1, "PROJ-1", "New Summary")], &keys(&["PROJ"]), &keys(&["PROJ"]));
    let rows = sorted_rows(&store);
    assert_eq!(rows.len(), 1);
    assert_eq!(rows[0].3, "New Summary");
}

#[test]
fn test_delete_old_issues_from_synced_projects() {
    let mut store = IssueStore::new();
    let v1 = vec![
        create_test_issue(1, "PROJ-1", "Issue 1"),
        create_test_issue(2, "PROJ-2", "Issue 2"),
        create_test_issue(3, "PROJ-3", "Issue 3"),
    ];
    store.reconcile(1, &v1, &keys(&["PROJ"]), &keys(&["PROJ"]));
    let v2 = vec![create_test_issue(1, "PROJ-1", "Issue 1"), create_test_issue(2, "PROJ-2", "Issue 2")];
    store.reconcile(1, &v2, &keys(&["PROJ"]), &keys(&["PROJ"]));
    assert_eq!(store.len(), 2);
    assert!(store.rows().iter().all(|i| i.id != 3));
}

#[test]
fn test_delete_workspace_issues() {
    let mut store = IssueStore::new();
    let issues = vec![create_test_issue(1, "PROJ-1", "Issue 1"), create_test_issue(2, "PROJ-2", "Issue 2")];
    store.reconcile(1, &issues, &keys(&["PROJ"]), &keys(&["PROJ"]));
    store.delete_workspace_issues(1);
    assert_eq!(store.len(), 0);
}

#[test]
fn test_save_empty_issues_deletes_all() {
    let mut store = IssueStore::new();
    store.reconcile(1, &vec![create_test_issue(1, "PROJ-1", "Issue 1")], &keys(&["PROJ"]), &keys(&["PROJ"]));
    store.reconcile(1, &vec![], &keys(&["PROJ"]), &keys(&["PROJ"]));
    assert_eq!(store.len(), 0);
}

#[test]
fn failed_project_keeps_its_issues() {
    let mut store = IssueStore::new();
    let first = vec![create_test_issue(1, "A-1", "a1"), create_test_issue(2, "B-1", "b1")];
    store.reconcile(1, &first, &keys(&["A", "B"]), &keys(&["A", "B"]));
    // B failed this round: only A synced, and returned nothing.
    store.reconcile(1, &vec![], &keys(&["A"]), &keys(&["A", "B"]));
    let rows = sorted_rows(&store);
    assert_eq!(rows, vec![(1, 2, "B-1".to_string(), "b1".to_string())]);
}

#[test]
fn deselected_project_loses_its_issues() {
    let mut store = IssueStore::new();
    let first = vec![create_test_issue(1, "A-1", "a1"), create_test_issue(2, "B-1", "b1")];
    store.reconcile(1, &first, &keys(&["A", "B"]), &keys(&["A", "B"]));
    store.reconcile(1, &vec![create_test_issue(1, "A-1", "a1")], &keys(&["A"]), &keys(&["A"]));
    assert_eq!(sorted_rows(&store), vec![(1, 1, "A-1".to_string(), "a1".to_string())]);
}

#[test]
fn no_configured_project_clears_workspace_only() {
    let mut store = IssueStore::new();
    store.reconcile(1, &vec![create_test_issue(1, "A-1", "a1")], &keys(&["A"]), &keys(&["A"]));
    store.reconcile(2, &vec![create_test_issue(1, "A-1", "other")], &keys(&["A"]), &keys(&["A"]));
    store.reconcile(1, &vec![create_test_issue(5, "A-5", "a5")], &keys(&[]), &keys(&[]));
    assert_eq!(sorted_rows(&store), vec![(2, 1, "A-1".to_string(), "other".to_string())]);
}

#[test]
fn prefix_needs_dash() {
    let mut store = IssueStore::new();
    let issues = vec![create_test_issue(1, "AB-1", "ab"), create_test_issue(2, "A-2", "a")];
    store.reconcile(1, &issues, &keys(&["A"]), &keys(&["A"]));
    assert_eq!(sorted_rows(&store), vec![(1, 2, "A-2".to_string(), "a".to_string())]);
}

#[test]
fn later_duplicate_wins() {
    let mut store = IssueStore::new();
    let issues = vec![create_test_issue(1, "A-1", "first"), create_test_issue(1, "A-1", "second")];
    store.reconcile(1, &issues, &keys(&["A"]), &keys(&["A"]));
    assert_eq!(sorted_rows(&store), vec![(1, 1, "A-1".to_string(), "second".to_string())]);
}

#[test]
fn reconcile_twice_is_stable() {
    let mut store = IssueStore::new();
    store.reconcile(1, &vec![create_test_issue(9, "B-9", "b9")], &keys(&["B"]), &keys(&["A", "B"]));
    let fresh = vec![create_test_issue(1, "A-1", "a1"), create_test_issue(2, "A-2", "a2")];
    store.reconcile(1, &fresh, &keys(&["A"]), &keys(&["A", "B"]));
    let once = sorted_rows(&store);
    store.reconcile(1, &fresh, &keys(&["A"]), &keys(&["A", "B"]));
    assert_eq!(sorted_rows(&store), once);
    assert_eq!(once.len(), 3);
}

#[test]
fn empty_fetch_clears_single_project_workspace() {
    let mut store = IssueStore::new();
    let fresh = vec![create_test_issue(1, "P-1", "p1"), create_test_issue(2, "P-2", "p2")];
    store.reconcile(4, &fresh, &keys(&["P"]), &keys(&["P"]));
    store.reconcile(5, &fresh, &keys(&["P"]), &keys(&["P"]));
    store.reconcile(4, &vec![], &keys(&["P"]), &keys(&["P"]));
    assert!(store.rows().iter().all(|i| i.workspace_id == 5));
    assert_eq!(store.len(), 2);
}

#[test]
fn previous_score_reads_the_stored_row() {
    let mut a = create_test_issue(1, "A-1", "a1");
    a.relevance_score = 85;
    let mut store = IssueStore::new();
    store.reconcile(3, &vec![a], &keys(&["A"]), &keys(&["A"]));
    assert_eq!(store.previous_score(3, 1), Some(85));
    assert_eq!(store.previous_score(3, 2), None);
    assert_eq!(store.previous_score(4, 1), None);
}

#[test]
fn from_rows_keeps_the_later_row() {
    let mut a = create_test_issue(1, "A-1", "old");
    a.workspace_id = 2;
    let mut b = create_test_issue(1, "A-1", "new");
    b.workspace_id = 2;
    let mut c = create_test_issue(1, "A-1", "other workspace");
    c.workspace_id = 3;
    let store = IssueStore::from_rows(vec![a, b, c]);
    assert_eq!(
        sorted_rows(&store),
        vec![
            (2, 1, "A-1".to_string(), "new".to_string()),
            (3, 1, "A-1".to_string(), "other workspace".to_string())
        ]
    );
}

#[test]
fn search_columns_hold_names() {
    let mut i = create_test_issue(1, "A-1", "a");
    i.priority = Some(Priority { id: 2, name: "High".to_string() });
    i.assignee = Some(User { id: 3, name: "Taro".to_string() });
    let c = search_columns(&i);
    assert_eq!(c.priority, Some("High".to_string()));
    assert_eq!(c.status, None);
    assert_eq!(c.assignee, Some("Taro".to_string()));
}

#[test]
fn test_get_issues_ordered_by_score() {
    let mut issue1 = create_test_issue(1, "PROJ-1", "Low Priority");
    issue1.relevance_score = 10;
    let mut issue2 = create_test_issue(2, "PROJ-2", "High Priority");
    issue2.relevance_score = 100;
    let mut issue3 = create_test_issue(3, "PROJ-3", "Medium Priority");
    issue3.relevance_score = 50;
    let mut store = IssueStore::new();
    store.reconcile(1, &vec![issue1, issue2, issue3], &keys(&["PROJ"]), &keys(&["PROJ"]));
    let saved_issues = store.issues_by_score();
    assert_eq!(saved_issues.len(), 3);
    assert_eq!(saved_issues[0].relevance_score, 100, "最高スコアが最初");
    assert_eq!(saved_issues[1].relevance_score, 50, "中間スコアが2番目");
    assert_eq!(saved_issues[2].relevance_score, 10, "最低スコアが最後");
}

#[test]
fn equal_scores_keep_their_order() {
    let mut a = create_test_issue(1, "P-1", "a");
    a.relevance_score = 50;
    let mut b = create_test_issue(2, "P-2", "b");
    b.relevance_score = 80;
    let mut c = create_test_issue(3, "P-3", "c");
    c.relevance_score = 50;
    let store = IssueStore::from_rows(vec![a, b, c]);
    let ids: Vec<i64> = store.issues_by_score().iter().map(|i| i.id).collect();
    assert_eq!(ids, vec![2, 1, 3]);
}
