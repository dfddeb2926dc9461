use todos::config::JiraConfig;
use todos::jira::{
    arrange_columns, assemble_jira_section, build_project_board, category_rank, eq_ignore_ascii_case, find_transition, group_by_project,
    pick_board_name, search_finished, workflow_statuses, AgileBoard, Issue,
    IssueFields, IssueProject, ProjectStatus, Status, StatusCategory, Transition,
    TransitionTarget, DEFAULT_JQL, ProjectFetch, ProjectIssues,
};

fn issue(key: &str, project: &str, status: (&str, &str, &str)) -> Issue {
    Issue {
        key: key.to_string(),
        fields: IssueFields {
            summary: format!("summary of {key}"),
            status: Status {
                id: status.0.to_string(),
                name: status.1.to_string(),
                status_category: StatusCategory {
                    key: status.2.to_string(),
                },
            },
            project: IssueProject {
                key: project.to_string(),
            },
        },
    }
}

fn status(id: &str, name: &str, category: &str) -> ProjectStatus {
    ProjectStatus {
        id: id.to_string(),
        name: name.to_string(),
        status_category: StatusCategory {
            key: category.to_string(),
        },
    }
}

fn no_prefs() -> JiraConfig {
    JiraConfig {
        excluded_columns: vec![],
        column_order: vec![],
    }
}

#[test]
fn issues_are_grouped_by_project_in_order_of_appearance() {
    let todo = ("1", "To Do", "new");
    let groups = group_by_project(vec![
        issue("B-1", "B", todo),
        issue("A-1", "A", todo),
        issue("B-2", "B", todo),
        issue("C-1", "C", todo),
        issue("A-2", "A", todo),
    ]);
    let keys: Vec<&str> = groups.iter().map(|g| g.project_key.as_str()).collect();
    assert_eq!(keys, vec!["B", "A", "C"]);
    let b: Vec<&str> = groups[0].issues.iter().map(|i| i.key.as_str()).collect();
    assert_eq!(b, vec!["B-1", "B-2"]);
    let a: Vec<&str> = groups[1].issues.iter().map(|i| i.key.as_str()).collect();
    assert_eq!(a, vec!["A-1", "A-2"]);
    assert!(group_by_project(vec![]).is_empty());
}

#[test]
fn project_board_cards_show_key_summary_and_done_state() {
    let issues = vec![
        issue("A-1", "A", ("1", "To Do", "new")),
        issue("A-2", "A", ("3", "Done", "done")),
    ];
    let (board, cards) = build_project_board("A", Some("Team board".to_string()), None, issues, &no_prefs(), 2);
    assert_eq!(board.name, "Team board");
    assert_eq!(board.columns, vec!["To Do", "Done"]);
    assert_eq!(cards.len(), 2);
    assert_eq!(cards[0].text, "A-1 — summary of A-1");
    assert!(!cards[0].is_done);
    assert!(cards[1].is_done);
    assert_eq!(cards[1].column, 1);
    assert_eq!(cards[1].board_index, 2);
    assert_eq!(cards[1].external_id.as_deref(), Some("A-2"));
}

#[test]
fn project_board_title_falls_back_to_project_key() {
    let (board, _) = build_project_board("PRJ", None, None, vec![], &no_prefs(), 0);
    assert_eq!(board.name, "Jira: PRJ");
    let (board, _) = build_project_board("PRJ", Some(String::new()), None, vec![], &no_prefs(), 0);
    assert_eq!(board.name, "Jira: PRJ");
}

#[test]
fn workflow_statuses_keep_each_status_once() {
    let r = workflow_statuses(vec![
        vec![status("1", "To Do", "new"), status("2", "Doing", "indeterminate")],
        vec![status("2", "Doing", "indeterminate"), status("3", "Done", "done")],
    ]);
    let ids: Vec<&str> = r.iter().map(|s| s.id.as_str()).collect();
    assert_eq!(ids, vec!["1", "2", "3"]);
}

#[test]
fn kanban_board_is_preferred_for_the_title() {
    let boards = vec![
        AgileBoard {
            name: "Sprint".to_string(),
            board_type: "scrum".to_string(),
        },
        AgileBoard {
            name: "Flow".to_string(),
            board_type: "kanban".to_string(),
        },
    ];
    assert_eq!(pick_board_name(&boards).as_deref(), Some("Flow"));
    assert_eq!(pick_board_name(&boards[..1].iter().map(|b| AgileBoard { name: b.name.clone(), board_type: b.board_type.clone() }).collect()).as_deref(), Some("Sprint"));
    assert_eq!(pick_board_name(&vec![]), None);
}

#[test]
fn jira_section_is_named_after_its_query() {
    let s = assemble_jira_section(DEFAULT_JQL, vec![], &no_prefs());
    assert_eq!(s.name, "Jira");
    assert!(s.boards.as_ref().unwrap().is_empty());
    let s = assemble_jira_section("project = A", vec![], &no_prefs());
    assert_eq!(s.name, "Jira: project = A");
    assert!(s.columns.is_none());
}

#[test]
fn jira_section_stamps_each_card_with_its_board() {
    let groups = group_by_project(vec![
        issue("B-1", "B", ("1", "To Do", "new")),
        issue("A-1", "A", ("1", "To Do", "new")),
        issue("B-2", "B", ("3", "Done", "done")),
    ]);
    let fetched: Vec<ProjectFetch> = groups
        .into_iter()
        .map(|project: ProjectIssues| ProjectFetch {
            board_name: None,
            statuses: Some(vec![status("1", "To Do", "new"), status("2", "Doing", "indeterminate")]),
            project,
        })
        .collect();
    let s = assemble_jira_section("q", fetched, &no_prefs());
    let boards = s.boards.as_ref().unwrap();
    assert_eq!(boards.len(), 2);
    assert_eq!(boards[0].name, "Jira: B");
    assert_eq!(boards[0].columns, vec!["To Do", "Doing", "Done"]);
    assert_eq!(boards[1].columns, vec!["To Do", "Doing"]);
    let stamped: Vec<(&str, usize, usize)> = s
        .todos
        .iter()
        .map(|t| (t.external_id.as_deref().unwrap(), t.board_index, t.column))
        .collect();
    assert_eq!(stamped, vec![("B-1", 0, 0), ("B-2", 0, 2), ("A-1", 1, 0)]);
}

#[test]
fn search_stops_without_next_page_or_at_cap() {
    assert!(search_finished(&None, 10));
    assert!(!search_finished(&Some("t".to_string()), 499));
    assert!(search_finished(&Some("t".to_string()), 500));
}

#[test]
fn transition_is_matched_by_name_ignoring_case() {
    let transitions = vec![
        Transition {
            id: "11".to_string(),
            to: TransitionTarget {
                name: "In Progress".to_string(),
            },
        },
        Transition {
            id: "31".to_string(),
            to: TransitionTarget {
                name: "Done".to_string(),
            },
        },
    ];
    assert_eq!(find_transition(&transitions, "A-1", "done"), Ok("31".to_string()));
    assert_eq!(
        find_transition(&transitions, "A-1", "Review"),
        Err("A-1 has no direct transition available to \"Review\" from its current status".to_string())
    );
}

#[test]
fn ascii_case_is_ignored_but_nothing_else() {
    assert!(eq_ignore_ascii_case("In Progress", "in progress"));
    assert!(!eq_ignore_ascii_case("Done", "Done "));
    assert!(!eq_ignore_ascii_case("É", "é"));
}

#[test]
fn category_ranks_order_new_progress_done() {
    assert_eq!(category_rank("new"), 0);
    assert_eq!(category_rank("indeterminate"), 1);
    assert_eq!(category_rank("whatever"), 1);
    assert_eq!(category_rank("done"), 2);
}

#[test]
fn arranged_columns_follow_the_lowered_names() {
    let cands = vec![
        status("1", "Backlog", "new"),
        status("2", "Review", "indeterminate"),
        status("3", "Done", "done"),
    ];
    let lower = vec!["backlog".to_string(), "review".to_string(), "done".to_string()];
    let issues = vec![issue("A-1", "A", ("3", "Done", "done"))];
    let (names, indices) = arrange_columns(
        &cands,
        &lower,
        &vec!["done".to_string(), "review".to_string()],
        &vec!["backlog".to_string(), "done".to_string()],
        &issues,
    );
    // Done is excluded but holds a ticket; Backlog is excluded and empty.
    assert_eq!(names, vec!["Done", "Review"]);
    assert_eq!(indices, vec![0]);
}

#[test]
fn excluding_an_occupied_column_changes_nothing() {
    let all = vec![status("1", "To Do", "new"), status("2", "Doing", "indeterminate")];
    let issues = vec![issue("A-1", "A", ("2", "Doing", "indeterminate"))];
    let plain = no_prefs();
    let excluding = JiraConfig {
        excluded_columns: vec!["DOING".to_string()],
        column_order: vec![],
    };
    assert_eq!(
        todos::jira::status_columns(Some(&all), &issues, &plain),
        todos::jira::status_columns(Some(&all), &issues, &excluding)
    );
}
