//! The data handed back by the tracker's development-information
//! endpoint, and the extraction of an issue's pull requests from it.

use vstd::prelude::*;

verus! {

/// The state of a pull request linked to an issue.
#[derive(Clone, Copy, Debug, PartialEq, Eq, Structural)]
pub enum PullRequestStatus {
    Open,
    Closed,
    Merged,
}

/// The human-readable name of a pull request status.
pub open spec fn pr_status_display_name(s: PullRequestStatus) -> Seq<char> {
    match s {
        PullRequestStatus::Open => "Open"@,
        PullRequestStatus::Closed => "Closed"@,
        PullRequestStatus::Merged => "Merged"@,
    }
}

impl PullRequestStatus {
    pub fn display_name(&self) -> (r: String)
        ensures
            r@ == pr_status_display_name(*self),
    {
        match self {
            PullRequestStatus::Open => String::from_str("Open"),
            PullRequestStatus::Closed => String::from_str("Closed"),
            PullRequestStatus::Merged => String::from_str("Merged"),
        }
    }
}

/// A pull request linked to an issue.
#[derive(Debug, PartialEq, Eq)]
pub struct PullRequest {
    pub name: String,
    pub url: String,
    pub status: PullRequestStatus,
    pub last_update: String,
}

/// A branch of a repository, with the pull requests opened from it.
#[derive(Debug)]
pub struct Branch {
    pub name: String,
    pub url: String,
    pub pull_requests: Vec<PullRequest>,
}

/// A repository that the development-information endpoint reports.
#[derive(Debug)]
pub struct Repository {
    pub name: String,
    pub branches: Vec<Branch>,
}

/// One instance type of the development information: a set of
/// repositories.
#[derive(Debug)]
pub struct DevInfoInstanceType {
    pub repository: Vec<Repository>,
}

/// All pull requests of a sequence of branches, in branch order.
pub open spec fn branches_pull_requests(bs: Seq<Branch>) -> Seq<PullRequest>
    decreases bs,
{
    if bs.len() == 0 {
        Seq::empty()
    } else {
        bs[0].pull_requests@ + branches_pull_requests(bs.drop_first())
    }
}

/// Collects the pull requests of an issue from the development
/// information: nothing when no instance was reported, otherwise every
/// pull request of every branch of the first repository of the first
/// instance.
pub fn issue_pull_requests(instances: Vec<DevInfoInstanceType>) -> (r: Option<Vec<PullRequest>>)
    requires
        instances@.len() > 0 ==> instances@[0].repository@.len() > 0,
    ensures
        instances@.len() == 0 ==> r is None,
        instances@.len() > 0 ==> (r matches Some(prs) && prs@ == branches_pull_requests(
            instances@[0].repository@[0].branches@,
        )),
{
    let mut instances = instances;
    if instances.len() == 0 {
        return None;
    }
    let inst = instances.remove(0);
    let mut repos = inst.repository;
    let repo = repos.remove(0);
    let mut branches = repo.branches;
    let ghost orig = branches@;
    let mut prs: Vec<PullRequest> = Vec::new();
    while branches.len() > 0
        invariant
            prs@ + branches_pull_requests(branches@) == branches_pull_requests(orig),
        decreases branches@.len(),
    {
        let ghost before = branches@;
        let mut b = branches.remove(0);
        let ghost b0 = b;
        prs.append(&mut b.pull_requests);
        proof {
            assert(before[0] == b0);
            assert(before.drop_first() =~= branches@);
            assert(prs@ + branches_pull_requests(branches@) =~= branches_pull_requests(orig));
        }
    }
    proof {
        assert(prs@ + branches_pull_requests(branches@) =~= prs@);
    }
    Some(prs)
}

} // verus!
