use todos::config::JiraConfig;
use todos::jira::{
    status_columns, Issue, IssueFields, IssueProject, ProjectStatus, Status, StatusCategory,
};

fn issue(key: &str, status_id: &str, status_name: &str, category: &str) -> Issue {
    Issue {
        key: key.to_string(),
        fields: IssueFields {
            summary: "summary".to_string(),
            status: Status {
                id: status_id.to_string(),
                name: status_name.to_string(),
                status_category: StatusCategory {
                    key: category.to_string(),
                },
            },
            project: IssueProject {
                key: "PROJ".to_string(),
            },
        },
    }
}

fn project_status(id: &str, name: &str, category: &str) -> ProjectStatus {
    ProjectStatus {
        id: id.to_string(),
        name: name.to_string(),
        status_category: StatusCategory {
            key: category.to_string(),
        },
    }
}

fn prefs(excluded: &[&str], order: &[&str]) -> JiraConfig {
    JiraConfig {
        excluded_columns: excluded.iter().map(|s| s.to_string()).collect(),
        column_order: order.iter().map(|s| s.to_string()).collect(),
    }
}

#[test]
fn test_status_columns_falls_back_to_category_order_without_column_order() {
    let issues = vec![
        issue("A-1", "3", "Done", "done"),
        issue("A-2", "2", "In Progress", "indeterminate"),
        issue("A-3", "1", "To Do", "new"),
    ];
    let (names, indices) = status_columns(None, &issues, &prefs(&[], &[]));

    assert_eq!(names, vec!["To Do", "In Progress", "Done"]);
    // A-1 (Done) -> col 2, A-2 (In Progress) -> col 1, A-3 (To Do) -> col 0
    assert_eq!(indices, vec![2, 1, 0]);
}

#[test]
fn test_status_columns_explicit_order_overrides_category_order() {
    let issues = vec![
        issue("A-1", "3", "Done", "done"),
        issue("A-2", "2", "Code Review", "indeterminate"),
        issue("A-3", "1", "To Do", "new"),
    ];
    // Deliberately not the natural new -> in progress -> done order.
    let (names, indices) = status_columns(
        None,
        &issues,
        &prefs(&[], &["Done", "To Do", "Code Review"]),
    );

    assert_eq!(names, vec!["Done", "To Do", "Code Review"]);
    assert_eq!(indices, vec![0, 2, 1]);
}

#[test]
fn test_status_columns_order_matching_is_case_insensitive() {
    let issues = vec![issue("A-1", "1", "Done", "done")];
    let (names, _) = status_columns(None, &issues, &prefs(&[], &["done"]));
    assert_eq!(names, vec!["Done"]);
}

#[test]
fn test_status_columns_hides_excluded_columns_only_when_empty() {
    let all_statuses = vec![
        project_status("1", "Backlog", "new"),
        project_status("2", "To Do", "new"),
        project_status("3", "In Progress", "indeterminate"),
        project_status("4", "Done", "done"),
    ];
    let issues = vec![issue("A-1", "2", "To Do", "new")];
    // All three are "excluded", but only the ones with no ticket should
    // actually disappear.
    let (names, indices) = status_columns(
        Some(&all_statuses),
        &issues,
        &prefs(&["Backlog", "To Do", "Done"], &[]),
    );

    assert_eq!(names, vec!["To Do", "In Progress"]);
    assert_eq!(indices, vec![0]);
}

#[test]
fn test_status_columns_exclusion_is_case_insensitive() {
    let all_statuses = vec![
        project_status("1", "To Do", "new"),
        project_status("2", "Done", "done"),
    ];
    let issues = vec![issue("A-1", "2", "Done", "done")];
    let (names, _) = status_columns(Some(&all_statuses), &issues, &prefs(&["TO DO"], &[]));

    assert_eq!(names, vec!["Done"]);
}

#[test]
fn test_status_columns_keeps_issue_status_missing_from_workflow_snapshot() {
    // The project's cached workflow only knows about "To Do", but an
    // issue comes back with a status that isn't in that snapshot
    // (e.g. a status added to the workflow after it was fetched).
    let all_statuses = vec![project_status("1", "To Do", "new")];
    let issues = vec![issue("A-1", "999", "Mystery", "indeterminate")];
    let (names, indices) = status_columns(Some(&all_statuses), &issues, &prefs(&[], &[]));

    assert_eq!(names, vec!["To Do", "Mystery"]);
    assert_eq!(indices, vec![1]);
}

#[test]
fn status_columns_ties_keep_candidate_order_and_issue_statuses_follow_workflow() {
    // Two statuses of the same category keep the workflow's order; an
    // issue whose status is already in the workflow adds no column.
    let all_statuses = vec![
        project_status("10", "Review", "indeterminate"),
        project_status("11", "Doing", "indeterminate"),
        project_status("12", "Open", "new"),
    ];
    let issues = vec![issue("A-1", "11", "Doing", "indeterminate")];
    let (names, indices) = status_columns(Some(&all_statuses), &issues, &prefs(&[], &[]));
    assert_eq!(names, vec!["Open", "Review", "Doing"]);
    assert_eq!(indices, vec![2]);
}

#[test]
fn status_columns_listed_columns_come_before_unlisted_ones() {
    let all_statuses = vec![
        project_status("1", "To Do", "new"),
        project_status("2", "Doing", "indeterminate"),
        project_status("3", "Done", "done"),
    ];
    let (names, indices) = status_columns(Some(&all_statuses), &[], &prefs(&[], &["DONE"]));
    assert_eq!(names, vec!["Done", "To Do", "Doing"]);
    assert!(indices.is_empty());
}
