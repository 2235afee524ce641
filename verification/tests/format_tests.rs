use jira::format::editor_title_body;
use jira::format::issue_sort_key;
use jira::format::pr_number;
use jira::format::pr_title;
use jira::format::remove_commented_lines;
use jira::format::trim;
use jira::model::Issue;
use jira::model::IssueParent;
use jira::model::IssueSearchResult;
use jira::model::IssueStatus;
use jira::model::IssueType;
use jira::search::absorb_page;

fn lines(v: &[&str]) -> Vec<String> {
    v.iter().map(|s| s.to_string()).collect()
}

#[test]
fn commented_and_empty_lines_are_dropped() {
    let got = remove_commented_lines(lines(&["# a comment", "", "keep me", "# another", " also"]));
    assert_eq!(got, lines(&["keep me", " also"]));
}

#[test]
fn trim_strips_both_ends() {
    assert_eq!(trim("  hello  world \n"), "hello  world");
    assert_eq!(trim("\t\n  \u{00A0}"), "");
    assert_eq!(trim("x"), "x");
    assert_eq!(trim(""), "");
}

#[test]
fn splitting_keeps_empty_pieces() {
    assert_eq!(
        jira::format::split_lines("a\n\nb"),
        lines(&["a", "", "b"])
    );
    assert_eq!(jira::format::split_lines(""), lines(&[""]));
    assert_eq!(jira::format::split_lines("a\n"), lines(&["a", ""]));
}

#[test]
fn editor_text_splits_into_title_and_body() {
    let got = editor_title_body(lines(&[
        "# Lines starting with # are ignored",
        "  My issue title ",
        "first body line",
        "second body line",
    ]));
    assert_eq!(
        got,
        Some((
            "My issue title".to_owned(),
            "first body line\nsecond body line".to_owned()
        ))
    );
}

#[test]
fn editor_text_without_content_is_rejected() {
    assert_eq!(editor_title_body(lines(&[])), None);
    assert_eq!(editor_title_body(lines(&["# only a comment", ""])), None);
}

#[test]
fn editor_text_title_only_gives_empty_body() {
    let got = editor_title_body(lines(&["Just a title"]));
    assert_eq!(got, Some(("Just a title".to_owned(), "".to_owned())));
}

#[test]
fn pr_title_strips_the_issue_key_prefix() {
    assert_eq!(pr_title("[ABCD-123] Fix the frobnicator"), "Fix the frobnicator");
    assert_eq!(pr_title("No prefix here"), "No prefix here");
    assert_eq!(pr_title("[not-a-key] kept"), "[not-a-key] kept");
    assert_eq!(pr_title("[ABCD-123]no space kept"), "[ABCD-123]no space kept");
    assert_eq!(pr_title("[AB-1] first\nsecond"), "first");
}

#[test]
fn pr_number_finds_the_pull_number() {
    assert_eq!(
        pr_number("https://github.com/someorg/somerepo/pull/42"),
        Some("42".to_owned())
    );
    assert_eq!(
        pr_number("see github.com/a/b/pull/7#discussion"),
        Some("7".to_owned())
    );
    assert_eq!(pr_number("https://github.com/someorg/somerepo/issues/42"), None);
    assert_eq!(pr_number("https://example.net/pull/42"), None);
    assert_eq!(pr_number("github.com/a/b/pull/"), None);
}

fn bare_issue(key: &str, status: Option<IssueStatus>, parent: Option<IssueParent>) -> IssueSearchResult {
    IssueSearchResult {
        id: "1".to_owned(),
        key: key.to_owned(),
        fields: Issue {
            summary: "s".to_owned(),
            project: None,
            description: None,
            labels: None,
            issuetype: IssueType {
                name: "Task".to_owned(),
            },
            components: None,
            status,
            parent,
            assignee: None,
            epic: None,
        },
        pull_requests: None,
        subtasks: None,
        epic_issues: None,
    }
}

#[test]
fn sort_key_orders_by_parent_then_status_then_key() {
    let no_parent = bare_issue("ABCD-2", Some(IssueStatus::InProgress), None);
    assert_eq!(issue_sort_key(&no_parent), "Some(InProgress)ABCD-2");

    let parent = IssueParent {
        key: "ABCD-1".to_owned(),
        fields: Some(Box::new(bare_issue("ABCD-1", Some(IssueStatus::Done), None).fields)),
    };
    let with_parent = bare_issue("ABCD-3", None, Some(parent));
    assert_eq!(issue_sort_key(&with_parent), "Some(Done)ABCD-1NoneABCD-3");
}

#[test]
fn absorbing_a_page_extends_results_and_decides_continuation() {
    let mut results = vec![bare_issue("ABCD-1", None, None)];
    let page = vec![
        bare_issue("ABCD-2", None, None),
        bare_issue("ABCD-3", None, None),
    ];
    let (next, more) = absorb_page(&mut results, 1, page, 5);
    assert_eq!(next, 3);
    assert!(more);
    assert_eq!(results.len(), 3);
    assert_eq!(results[2].key, "ABCD-3");

    let (next2, more2) = absorb_page(&mut results, 3, vec![bare_issue("ABCD-4", None, None)], 4);
    assert_eq!(next2, 4);
    assert!(!more2);
}
