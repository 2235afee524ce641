use jira::api_error_message;
use jira::assignee_path;
use jira::browse_url;
use jira::graphql::Branch;
use jira::graphql::DevInfoInstanceType;
use jira::graphql::issue_pull_requests;
use jira::graphql::PullRequest;
use jira::graphql::PullRequestStatus;
use jira::graphql::Repository;
use jira::issue_path;
use jira::model::can_belong_to_epic;
use jira::model::IssueStatus;
use jira::model::IssueTransition;
use jira::rest_url;
use jira::transitions_path;
use jira::ApiConfig;
use jira::ApiError;

fn config() -> ApiConfig {
    ApiConfig {
        email: "".to_owned(),
        token: "".to_owned(),
        subdomain: "abcd".to_owned(),
        project: "ABCD".to_owned(),
    }
}

#[test]
fn test_issue_key_full() {
    assert_eq!(
        jira::util::issue_lossy_to_issue_key("ABCD-12345", &config()).unwrap(),
        "ABCD-12345"
    )
}

#[test]
fn test_issue_key_partial() {
    assert_eq!(
        jira::util::issue_lossy_to_issue_key("12345", &config()).unwrap(),
        "ABCD-12345"
    )
}

#[test]
fn test_issue_key_nonsense() {
    assert_eq!(
        jira::util::issue_lossy_to_issue_key("alsdkflksaj", &config()),
        None
    )
}

#[test]
fn issue_key_rejects_near_misses() {
    let c = config();
    assert_eq!(jira::util::issue_lossy_to_issue_key("-12345", &c), None);
    assert_eq!(jira::util::issue_lossy_to_issue_key("ABCD-", &c), None);
    assert_eq!(jira::util::issue_lossy_to_issue_key("ABCD-12x", &c), None);
    assert_eq!(jira::util::issue_lossy_to_issue_key("abcd-12", &c), None);
    assert_eq!(jira::util::issue_lossy_to_issue_key("", &c), None);
}

#[test]
fn transition_ids_match_the_workflow() {
    assert_eq!(
        IssueTransition::from_status("todo"),
        Some(IssueTransition { id: 11 })
    );
    assert_eq!(
        IssueTransition::from_status("in-progress"),
        Some(IssueTransition { id: 21 })
    );
    assert_eq!(
        IssueTransition::from_status("review"),
        Some(IssueTransition { id: 51 })
    );
    assert_eq!(
        IssueTransition::from_status("closed"),
        Some(IssueTransition { id: 41 })
    );
    assert_eq!(
        IssueTransition::from_status("done"),
        Some(IssueTransition { id: 31 })
    );
    assert_eq!(IssueTransition::from_status("unknown"), None);
}

#[test]
fn status_display_names_are_title_cased() {
    assert_eq!(IssueStatus::ToDo.display_name(), "To Do");
    assert_eq!(IssueStatus::InProgress.display_name(), "In Progress");
    assert_eq!(IssueStatus::SupportTriaged.display_name(), "Support Triaged");
    assert_eq!(IssueStatus::Done.display_name(), "Done");
    assert_eq!(IssueStatus::default(), IssueStatus::ToDo);
}

#[test]
fn pr_status_display_names() {
    assert_eq!(PullRequestStatus::Open.display_name(), "Open");
    assert_eq!(PullRequestStatus::Closed.display_name(), "Closed");
    assert_eq!(PullRequestStatus::Merged.display_name(), "Merged");
}

#[test]
fn epic_membership_is_limited_to_simple_types() {
    assert!(can_belong_to_epic("Task"));
    assert!(can_belong_to_epic("Bug"));
    assert!(can_belong_to_epic("Story"));
    assert!(!can_belong_to_epic("Epic"));
    assert!(!can_belong_to_epic("Sub-task"));
}

#[test]
fn urls_and_paths_are_built_exactly() {
    assert_eq!(
        rest_url("abcd", "/issue/ABCD-1"),
        "https://abcd.atlassian.net/rest/api/3//issue/ABCD-1"
    );
    assert_eq!(
        browse_url("abcd", "ABCD-1"),
        "https://abcd.atlassian.net/browse/ABCD-1"
    );
    assert_eq!(
        jira::graphql_url("abcd"),
        "https://abcd.atlassian.net/jsw/graphql"
    );
    assert_eq!(issue_path("ABCD-1"), "/issue/ABCD-1");
    assert_eq!(transitions_path("ABCD-1"), "/issue/ABCD-1/transitions");
    assert_eq!(assignee_path("ABCD-1"), "/issue/ABCD-1/assignee");
}

#[test]
fn api_error_carries_its_message() {
    let m = api_error_message("404", "fetch issue", "no such issue");
    assert_eq!(m, "Got a 404 when attempting to fetch issue, no such issue");
    let e = ApiError::new(&m);
    assert_eq!(e.message(), m);
}

fn pr(name: &str) -> PullRequest {
    PullRequest {
        name: name.to_owned(),
        url: "u".to_owned(),
        status: PullRequestStatus::Open,
        last_update: "".to_owned(),
    }
}

#[test]
fn pull_requests_come_from_the_first_repository() {
    assert_eq!(issue_pull_requests(vec![]), None);

    let instances = vec![DevInfoInstanceType {
        repository: vec![
            Repository {
                name: "r1".to_owned(),
                branches: vec![
                    Branch {
                        name: "b1".to_owned(),
                        url: "".to_owned(),
                        pull_requests: vec![pr("one"), pr("two")],
                    },
                    Branch {
                        name: "b2".to_owned(),
                        url: "".to_owned(),
                        pull_requests: vec![pr("three")],
                    },
                ],
            },
            Repository {
                name: "r2".to_owned(),
                branches: vec![Branch {
                    name: "b3".to_owned(),
                    url: "".to_owned(),
                    pull_requests: vec![pr("ignored")],
                }],
            },
        ],
    }];
    let got = issue_pull_requests(instances).unwrap();
    let names: Vec<String> = got.into_iter().map(|p| p.name).collect();
    assert_eq!(names, vec!["one", "two", "three"]);
}

#[test]
fn search_queries_are_exact() {
    assert_eq!(
        jira::search::issue_subtasks_jql("ABCD-1"),
        "parent = ABCD-1"
    );
    assert_eq!(
        jira::search::epic_issues_jql("ABCD-2"),
        "'Epic Link' = ABCD-2"
    );
    assert_eq!(
        jira::search::issues_assigned_to_me_jql(),
        "assignee = currentUser() AND (status != Closed AND status != Done)"
    );
    assert_eq!(
        jira::search::epics_jql(),
        "issuetype = Epic AND status not in (Closed, Done) AND component in (Capture,iOS,Android,Mobile) order by updated ASC"
    );
    assert_eq!(
        jira::search::backlog_issues_jql(),
        "sprint is empty AND component in (Capture,iOS,Android,Mobile) AND (status != Closed AND status != Done)"
    );
    assert_eq!(
        jira::search::sprint_issues_jql(),
        "sprint in openSprints () AND component in (Capture,iOS,Android,Mobile)"
    );
}
