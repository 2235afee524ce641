//! Issue searches: the query strings each kind of search sends, and the
//! decision step of the paged search loop.  Fetching a page is the
//! surrounding tool's job; the library decides what to ask for and how
//! to fold the pages together.

use vstd::prelude::*;

use crate::model::IssueSearchResult;

verus! {

/// The query for all open epics.
pub fn epics_jql() -> (r: String)
    ensures
        r@ == "issuetype = Epic AND status not in (Closed, Done) AND component in (Capture,iOS,Android,Mobile) order by updated ASC"@,
{
    String::from_str(
        "issuetype = Epic AND status not in (Closed, Done) AND component in (Capture,iOS,Android,Mobile) order by updated ASC",
    )
}

/// The query for the subtasks of an issue.
pub fn issue_subtasks_jql(issue_key: &str) -> (r: String)
    ensures
        r@ == "parent = "@ + issue_key@,
{
    let mut q = String::from_str("parent = ");
    q.append(issue_key);
    q
}

/// The query for the issues of an epic.
pub fn epic_issues_jql(epic_key: &str) -> (r: String)
    ensures
        r@ == "'Epic Link' = "@ + epic_key@,
{
    let mut q = String::from_str("'Epic Link' = ");
    q.append(epic_key);
    q
}

/// The query for the backlog.
pub fn backlog_issues_jql() -> (r: String)
    ensures
        r@ == "sprint is empty AND component in (Capture,iOS,Android,Mobile) AND (status != Closed AND status != Done)"@,
{
    String::from_str(
        "sprint is empty AND component in (Capture,iOS,Android,Mobile) AND (status != Closed AND status != Done)",
    )
}

/// The query for the issues of the open sprints.
pub fn sprint_issues_jql() -> (r: String)
    ensures
        r@ == "sprint in openSprints () AND component in (Capture,iOS,Android,Mobile)"@,
{
    String::from_str("sprint in openSprints () AND component in (Capture,iOS,Android,Mobile)")
}

/// The query for the open issues assigned to the caller.
pub fn issues_assigned_to_me_jql() -> (r: String)
    ensures
        r@ == "assignee = currentUser() AND (status != Closed AND status != Done)"@,
{
    String::from_str("assignee = currentUser() AND (status != Closed AND status != Done)")
}

/// Folds one fetched page into the results gathered so far and decides
/// whether another page has to be fetched: the page's issues are
/// appended, the next page starts after every issue seen so far, and
/// the search goes on exactly while the reported total exceeds that.
pub fn absorb_page(
    results: &mut Vec<IssueSearchResult>,
    start_at: usize,
    page_issues: Vec<IssueSearchResult>,
    page_total: usize,
) -> (r: (usize, bool))
    requires
        start_at + page_issues@.len() <= usize::MAX,
    ensures
        final(results)@ == old(results)@ + page_issues@,
        r.0 == start_at + page_issues@.len(),
        r.1 == (page_total > r.0),
{
    let n = page_issues.len();
    let mut page = page_issues;
    results.append(&mut page);
    let next = start_at + n;
    (next, page_total > next)
}

} // verus!
