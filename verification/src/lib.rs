//! A library for working with a hosted issue tracker: the data model of
//! issues, the conversion of markdown into the tracker's rich-document
//! tree, the serialization of that tree into its wire JSON schema, and
//! the small pieces of pure logic (key canonicalization, request paths,
//! pagination decisions) that the surrounding command-line tool uses.

pub mod convert;
pub mod doc;
pub mod format;
pub mod graphql;
pub mod md;
pub mod model;
pub mod search;
pub mod serialize;
pub mod util;

use vstd::prelude::*;

verus! {

/// How the tracker's API is reached: the caller's credentials, the
/// installation's subdomain, and the project every command works in.
pub struct ApiConfig {
    pub email: String,
    pub token: String,
    pub subdomain: String,
    pub project: String,
}

/// An error reported by the issue tracker's HTTP API.
#[derive(Debug)]
pub struct ApiError {
    pub message: String,
}

impl ApiError {
    pub fn new(msg: &str) -> (e: ApiError)
        ensures
            e.message@ == msg@,
    {
        ApiError { message: msg.to_owned() }
    }

    /// The error's message.
    pub fn message(&self) -> (r: String)
        ensures
            r@ == self.message@,
    {
        self.message.clone()
    }
}

/// The message of the error reported when a request came back with an
/// unexpected status code.
pub fn api_error_message(code: &str, action: &str, body: &str) -> (r: String)
    ensures
        r@ == "Got a "@ + code@ + " when attempting to "@ + action@ + ", "@ + body@,
{
    let mut m = String::from_str("Got a ");
    m.append(code);
    m.append(" when attempting to ");
    m.append(action);
    m.append(", ");
    m.append(body);
    m
}

/// The URL of a REST endpoint of the configured installation.
pub fn rest_url(subdomain: &str, path: &str) -> (r: String)
    ensures
        r@ == "https://"@ + subdomain@ + ".atlassian.net/rest/api/3/"@ + path@,
{
    let mut u = String::from_str("https://");
    u.append(subdomain);
    u.append(".atlassian.net/rest/api/3/");
    u.append(path);
    u
}

/// The URL of the internal query endpoint of the configured
/// installation.
pub fn graphql_url(subdomain: &str) -> (r: String)
    ensures
        r@ == "https://"@ + subdomain@ + ".atlassian.net/jsw/graphql"@,
{
    let mut u = String::from_str("https://");
    u.append(subdomain);
    u.append(".atlassian.net/jsw/graphql");
    u
}

/// The URL under which an issue is shown in a browser.
pub fn browse_url(subdomain: &str, issue_key: &str) -> (r: String)
    ensures
        r@ == "https://"@ + subdomain@ + ".atlassian.net/browse/"@ + issue_key@,
{
    let mut u = String::from_str("https://");
    u.append(subdomain);
    u.append(".atlassian.net/browse/");
    u.append(issue_key);
    u
}

/// The endpoint path that fetches one issue.
pub fn issue_path(issue_key: &str) -> (r: String)
    ensures
        r@ == "/issue/"@ + issue_key@,
{
    let mut p = String::from_str("/issue/");
    p.append(issue_key);
    p
}

/// The endpoint path that transitions one issue.
pub fn transitions_path(issue_key: &str) -> (r: String)
    ensures
        r@ == "/issue/"@ + issue_key@ + "/transitions"@,
{
    let mut p = String::from_str("/issue/");
    p.append(issue_key);
    p.append("/transitions");
    p
}

/// The endpoint path that assigns one issue.
pub fn assignee_path(issue_key: &str) -> (r: String)
    ensures
        r@ == "/issue/"@ + issue_key@ + "/assignee"@,
{
    let mut p = String::from_str("/issue/");
    p.append(issue_key);
    p.append("/assignee");
    p
}

} // verus!
