//! The issue tracker's data model: issues, their types, statuses,
//! assignees, parents and epics, together with the small pieces of pure
//! logic attached to them (display names, transition identifiers, the
//! enrichment steps applied to a fetched issue).

use vstd::prelude::*;

use crate::doc::Node;
use crate::graphql::PullRequest;
use crate::util::str_eq;

verus! {

#[derive(Debug)]
pub struct IssueType {
    pub name: String,
}

#[derive(Debug)]
pub struct Component {
    pub name: String,
}

#[derive(Debug)]
pub struct Project {
    pub key: String,
}

/// The workflow status of an issue.
#[derive(Clone, Copy, Debug, PartialEq, Eq, Structural)]
pub enum IssueStatus {
    ToDo,
    Logged,
    InProgress,
    SupportTriaged,
    InReview,
    Closed,
    Done,
}

/// The human-readable name of a status, as shown in terminal output.
pub open spec fn status_display_name(s: IssueStatus) -> Seq<char> {
    match s {
        IssueStatus::ToDo => "To Do"@,
        IssueStatus::Logged => "Logged"@,
        IssueStatus::InProgress => "In Progress"@,
        IssueStatus::SupportTriaged => "Support Triaged"@,
        IssueStatus::InReview => "In Review"@,
        IssueStatus::Closed => "Closed"@,
        IssueStatus::Done => "Done"@,
    }
}

impl IssueStatus {
    /// The status name with words split and title-cased.
    pub fn display_name(&self) -> (r: String)
        ensures
            r@ == status_display_name(*self),
    {
        match self {
            IssueStatus::ToDo => String::from_str("To Do"),
            IssueStatus::Logged => String::from_str("Logged"),
            IssueStatus::InProgress => String::from_str("In Progress"),
            IssueStatus::SupportTriaged => String::from_str("Support Triaged"),
            IssueStatus::InReview => String::from_str("In Review"),
            IssueStatus::Closed => String::from_str("Closed"),
            IssueStatus::Done => String::from_str("Done"),
        }
    }
}

impl Default for IssueStatus {
    /// A fresh issue starts in the to-do column.
    fn default() -> (r: Self)
        ensures
            r == IssueStatus::ToDo,
    {
        IssueStatus::ToDo
    }
}

#[derive(Debug)]
pub struct IssueParent {
    pub key: String,
    pub fields: Option<Box<Issue>>,
}

#[derive(Debug)]
pub struct IssueAssignee {
    pub display_name: String,
}

/// An issue's epic: either just its key, or the fully fetched epic.
#[derive(Debug)]
pub enum IssueEpic {
    Key(String),
    Full(Box<IssueSearchResult>),
}

/// The fields of an issue as the tracker's API reads and writes them.
#[derive(Debug)]
pub struct Issue {
    pub summary: String,
    pub project: Option<Project>,
    pub description: Option<Node>,
    pub labels: Option<Vec<String>>,
    pub issuetype: IssueType,
    pub components: Option<Vec<Component>>,
    pub status: Option<IssueStatus>,
    pub parent: Option<IssueParent>,
    pub assignee: Option<IssueAssignee>,
    pub epic: Option<IssueEpic>,
}

/// One issue as returned by the tracker's search and fetch endpoints,
/// possibly enriched with pull requests, subtasks and epic children.
#[derive(Debug)]
pub struct IssueSearchResult {
    pub id: String,
    pub key: String,
    pub fields: Issue,
    pub pull_requests: Option<Vec<PullRequest>>,
    pub subtasks: Option<Vec<IssueSearchResult>>,
    pub epic_issues: Option<Vec<IssueSearchResult>>,
}

#[derive(Debug)]
pub struct User {
    pub account_id: String,
}

/// A workflow transition, identified by the tracker's transition id.
#[derive(Debug, PartialEq, Eq, Structural)]
pub struct IssueTransition {
    pub id: usize,
}

impl IssueTransition {
    /// The transition for a status name given on the command line, or
    /// nothing for an unknown name.
    pub fn from_status(s: &str) -> (r: Option<IssueTransition>)
        ensures
            r == (if s@ == "todo"@ {
                Some(IssueTransition { id: 11 })
            } else if s@ == "in-progress"@ {
                Some(IssueTransition { id: 21 })
            } else if s@ == "review"@ {
                Some(IssueTransition { id: 51 })
            } else if s@ == "closed"@ {
                Some(IssueTransition { id: 41 })
            } else if s@ == "done"@ {
                Some(IssueTransition { id: 31 })
            } else {
                None
            }),
    {
        if str_eq(s, "todo") {
            Some(IssueTransition { id: 11 })
        } else if str_eq(s, "in-progress") {
            Some(IssueTransition { id: 21 })
        } else if str_eq(s, "review") {
            Some(IssueTransition { id: 51 })
        } else if str_eq(s, "closed") {
            Some(IssueTransition { id: 41 })
        } else if str_eq(s, "done") {
            Some(IssueTransition { id: 31 })
        } else {
            None
        }
    }
}

/// Whether an issue of this type may be created under an epic.
pub fn can_belong_to_epic(issue_type: &str) -> (r: bool)
    ensures
        r == (issue_type@ == "Task"@ || issue_type@ == "Bug"@ || issue_type@ == "Story"@),
{
    str_eq(issue_type, "Task") || str_eq(issue_type, "Bug") || str_eq(issue_type, "Story")
}

/// Whether the issue is an epic, which decides whether its child issues
/// are fetched.
pub fn is_epic(issue: &Issue) -> (r: bool)
    ensures
        r == (issue.issuetype.name@ == "Epic"@),
{
    str_eq(issue.issuetype.name.as_str(), "Epic")
}

/// The epic key that still has to be resolved into a full epic, if the
/// issue names its epic by key alone.
pub fn epic_key_to_fetch(issue: &Issue) -> (r: Option<&String>)
    ensures
        (match issue.epic {
            Some(IssueEpic::Key(ref k)) => r matches Some(s) && s@ == k@,
            _ => r is None,
        }),
{
    match &issue.epic {
        Some(IssueEpic::Key(k)) => Some(k),
        _ => None,
    }
}

/// The result, enriched with the pull requests fetched for it; all
/// other fields are kept.
pub fn with_pull_requests(
    result: IssueSearchResult,
    pull_requests: Option<Vec<PullRequest>>,
) -> (r: IssueSearchResult)
    ensures
        r.id == result.id,
        r.key == result.key,
        r.fields == result.fields,
        r.pull_requests == pull_requests,
        r.subtasks == result.subtasks,
        r.epic_issues == result.epic_issues,
{
    IssueSearchResult { pull_requests, ..result }
}

/// The result, enriched with its subtasks; all other fields are kept.
pub fn with_subtasks(result: IssueSearchResult, subtasks: Vec<IssueSearchResult>) -> (r:
    IssueSearchResult)
    ensures
        r.id == result.id,
        r.key == result.key,
        r.fields == result.fields,
        r.pull_requests == result.pull_requests,
        r.subtasks matches Some(s) && s == subtasks,
        r.epic_issues == result.epic_issues,
{
    IssueSearchResult { subtasks: Some(subtasks), ..result }
}

/// The result, enriched with the issues of the epic; all other fields
/// are kept.
pub fn with_epic_issues(result: IssueSearchResult, epic_issues: Vec<IssueSearchResult>) -> (r:
    IssueSearchResult)
    ensures
        r.id == result.id,
        r.key == result.key,
        r.fields == result.fields,
        r.pull_requests == result.pull_requests,
        r.subtasks == result.subtasks,
        r.epic_issues matches Some(s) && s == epic_issues,
{
    IssueSearchResult { epic_issues: Some(epic_issues), ..result }
}

/// The result, with its epic key replaced by the fully fetched epic;
/// every other field of the result and of its issue is kept.
pub fn with_full_epic(result: IssueSearchResult, epic: IssueSearchResult) -> (r: IssueSearchResult)
    ensures
        r.id == result.id,
        r.key == result.key,
        r.pull_requests == result.pull_requests,
        r.subtasks == result.subtasks,
        r.epic_issues == result.epic_issues,
        r.fields.summary == result.fields.summary,
        r.fields.project == result.fields.project,
        r.fields.description == result.fields.description,
        r.fields.labels == result.fields.labels,
        r.fields.issuetype == result.fields.issuetype,
        r.fields.components == result.fields.components,
        r.fields.status == result.fields.status,
        r.fields.parent == result.fields.parent,
        r.fields.assignee == result.fields.assignee,
        r.fields.epic matches Some(IssueEpic::Full(b)) && *b == epic,
{
    IssueSearchResult {
        fields: Issue { epic: Some(IssueEpic::Full(Box::new(epic))), ..result.fields },
        ..result
    }
}

} // verus!
