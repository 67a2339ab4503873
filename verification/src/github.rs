//! The decisions the GitHub client makes about what the API returned:
//! which merge methods to try and what a failed merge reports, whether a
//! linked item's URL belongs to the current repository, and what the
//! repository permissions allow.
use vstd::prelude::*;

use crate::text;
use crate::text::{append_chars, chars_of, eq_ignore_case_chars, i64_text, string_of, trim_chars};

verus! {

/// A GitHub account as the API reports it.
#[derive(Debug, Clone, PartialEq, Eq)]
pub struct ApiUser {
    pub login: String,
    pub user_type: Option<String>,
}

/// A label with its colour (hex, without `#`; empty when the API gave none).
#[derive(Debug, Clone, PartialEq, Eq)]
pub struct ApiLabel {
    pub name: String,
    pub color: String,
}

/// A comment on an issue.
#[derive(Debug, Clone, PartialEq, Eq)]
pub struct ApiComment {
    pub id: i64,
    pub body: Option<String>,
    pub created_at: Option<String>,
    pub user: ApiUser,
}

/// A repository and, when the API sent them, the caller's permissions on it.
#[derive(Debug, Clone, PartialEq, Eq)]
pub struct ApiRepo {
    pub id: i64,
    pub name: String,
    pub owner: ApiUser,
    pub permissions: Option<ApiRepoPermissions>,
}

/// A file changed by a pull request, with its unified diff when the API sent one.
#[derive(Debug, Clone, PartialEq, Eq)]
pub struct ApiPullRequestFile {
    pub filename: String,
    pub status: String,
    pub additions: i64,
    pub deletions: i64,
    pub patch: Option<String>,
}

/// The head commit of a pull request.
#[derive(Debug, Clone, PartialEq, Eq)]
pub struct ApiPullRequestHead {
    pub sha: String,
}

/// The part of a pull request that names its head commit.
#[derive(Debug, Clone, PartialEq, Eq)]
pub struct ApiPullRequestSummary {
    pub head: ApiPullRequestHead,
}

/// The body of a reply from the merge endpoint.
#[derive(Debug, Clone, PartialEq, Eq)]
pub struct ApiPullRequestMergeResponse {
    pub merged: bool,
    pub message: String,
}

/// A review comment on a line of a pull request's diff.
#[derive(Debug, Clone, PartialEq, Eq)]
pub struct ApiPullRequestReviewComment {
    pub id: i64,
    pub thread_id: Option<String>,
    pub is_resolved: bool,
    pub path: String,
    pub line: Option<i64>,
    pub original_line: Option<i64>,
    pub side: Option<String>,
    pub in_reply_to_id: Option<i64>,
    pub body: Option<String>,
    pub created_at: Option<String>,
    pub user: ApiUser,
}

/// The merge methods a repository allows.
#[derive(Debug, Clone, Copy, PartialEq, Eq, Structural)]
pub struct ApiPullRequestDetails {
    pub merge_commit_allowed: bool,
    pub squash_merge_allowed: bool,
    pub rebase_merge_allowed: bool,
}

/// What the caller may do in a repository.
#[derive(Debug, Clone, Copy, PartialEq, Eq, Structural)]
pub struct ApiRepoPermissions {
    pub pull: bool,
    pub triage: bool,
    pub push: bool,
    pub maintain: bool,
    pub admin: bool,
}

impl ApiRepoPermissions {
    /// Labels and assignees may be edited with triage, push, maintain or admin rights.
    pub fn can_edit_issue_metadata(&self) -> (r: bool)
        ensures
            r == (self.push || self.triage || self.maintain || self.admin),
    {
        self.push || self.triage || self.maintain || self.admin
    }

    /// Pull requests may be merged with push, maintain or admin rights.
    pub fn can_merge_pull_requests(&self) -> (r: bool)
        ensures
            r == (self.push || self.maintain || self.admin),
    {
        self.push || self.maintain || self.admin
    }
}

/// The merge methods to try, in order: merge commit, squash, rebase, each
/// when the repository allows it.
pub open spec fn merge_methods_spec(d: ApiPullRequestDetails) -> Seq<Seq<char>> {
    let a = if d.merge_commit_allowed { seq!["merge"@] } else { Seq::<Seq<char>>::empty() };
    let b = if d.squash_merge_allowed { a.push("squash"@) } else { a };
    if d.rebase_merge_allowed { b.push("rebase"@) } else { b }
}

/// The views of static strings.
pub open spec fn str_views(v: Seq<&'static str>) -> Seq<Seq<char>> {
    v.map_values(|s: &'static str| s@)
}

/// The merge methods the repository allows, in the order they are tried.
pub fn preferred_merge_methods(details: &ApiPullRequestDetails) -> (r: Vec<&'static str>)
    ensures
        str_views(r@) == merge_methods_spec(*details),
{
    let mut methods: Vec<&'static str> = Vec::new();
    if details.merge_commit_allowed {
        methods.push("merge");
    }
    if details.squash_merge_allowed {
        methods.push("squash");
    }
    if details.rebase_merge_allowed {
        methods.push("rebase");
    }
    assert(str_views(methods@) =~= merge_methods_spec(*details));
    methods
}

/// `s` with every trailing `c` removed.
pub open spec fn trim_end_char(s: Seq<char>, c: char) -> Seq<char>
    decreases s.len(),
{
    if s.len() > 0 && s.last() == c {
        trim_end_char(s.drop_last(), c)
    } else {
        s
    }
}

/// The web URL of an item of a repository.
pub open spec fn item_url(owner: Seq<char>, repo: Seq<char>, route: Seq<char>, number: i64) -> Seq<char> {
    "https://github.com/"@ + owner + "/"@ + repo + "/"@ + route + "/"@ + text::int_text(number as int)
}

/// The URL, without trailing slashes and ignoring ASCII case, is the web URL
/// of item `number` under `route` (`issues` or `pull`) of `owner/repo`.
pub fn item_url_matches_repo(html_url: &str, owner: &str, repo: &str, route: &str, number: i64) -> (r: bool)
    ensures
        r == text::eq_ignore_case(trim_end_char(html_url@, '/'), item_url(owner@, repo@, route@, number)),
{
    let mut expected = chars_of("https://github.com/");
    let o = chars_of(owner);
    append_chars(&mut expected, o.as_slice());
    let slash = chars_of("/");
    append_chars(&mut expected, slash.as_slice());
    let rp = chars_of(repo);
    append_chars(&mut expected, rp.as_slice());
    append_chars(&mut expected, slash.as_slice());
    let rt = chars_of(route);
    append_chars(&mut expected, rt.as_slice());
    append_chars(&mut expected, slash.as_slice());
    let n = i64_text(number);
    append_chars(&mut expected, n.as_slice());
    let url = chars_of(html_url);
    let mut end = url.len();
    assert(url@.subrange(0, end as int) =~= url@);
    while end > 0 && url[end - 1] == '/'
        invariant
            end <= url.len(),
            url@ == html_url@,
            trim_end_char(html_url@, '/') == trim_end_char(url@.subrange(0, end as int), '/'),
        decreases end,
    {
        assert(url@.subrange(0, end as int).drop_last() =~= url@.subrange(0, end - 1));
        end = end - 1;
    }
    let ghost kept = url@.subrange(0, end as int);
    assert(trim_end_char(kept, '/') == kept) by {
        if end > 0 {
            assert(kept.last() == url@[end - 1]);
        }
    }
    let trimmed = text::sub_vec(url.as_slice(), 0, end);
    eq_ignore_case_chars(trimmed.as_slice(), expected.as_slice())
}

/// How one merge request ended.
#[derive(Debug, Clone, PartialEq, Eq)]
pub struct MergeAttempt {
    /// The HTTP status was a success.
    pub success: bool,
    /// The status as text, such as `405 Method Not Allowed`.
    pub status: String,
    /// The body reported the pull request as merged.
    pub merged: bool,
    /// The body's `message` on success.
    pub message: String,
    /// The error `message` of a failed request's JSON body, when it has one.
    pub api_error: Option<String>,
    /// The raw body of the response.
    pub body: String,
}

/// After one merge attempt: done, or the error so far and whether to go on.
#[derive(Debug, Clone, PartialEq, Eq)]
pub enum MergeStep {
    Merged,
    Failed(String),
}

/// What the last error is after an attempt that did not merge.
pub open spec fn attempt_error(a: MergeAttempt) -> Seq<char> {
    if a.success {
        if a.message@.len() > 0 {
            a.message@
        } else {
            "GitHub merge endpoint returned "@ + a.status@
        }
    } else {
        let e = match a.api_error {
            Some(m) => m@,
            None => text::trim(a.body@),
        };
        if e.len() > 0 {
            e
        } else {
            "GitHub merge endpoint returned "@ + a.status@
        }
    }
}

/// Reads one merge attempt: a successful request whose body says merged
/// ends the merge; otherwise the attempt's error (the body's message, the
/// API error, the trimmed body, or the status) is what the next method
/// tries against.
pub fn merge_step(attempt: &MergeAttempt) -> (r: MergeStep)
    ensures
        attempt.success && attempt.merged ==> r == MergeStep::Merged,
        !(attempt.success && attempt.merged) ==> (r matches MergeStep::Failed(e) && e@ == attempt_error(*attempt)
            && e@.len() > 0),
{
    if attempt.success {
        if attempt.merged {
            return MergeStep::Merged;
        }
        let m = chars_of(attempt.message.as_str());
        if m.len() > 0 {
            return MergeStep::Failed(attempt.message.clone());
        }
        return MergeStep::Failed(status_error(attempt.status.as_str()));
    }
    let api = match &attempt.api_error {
        Some(m) => chars_of(m.as_str()),
        None => {
            let b = chars_of(attempt.body.as_str());
            trim_chars(b.as_slice())
        },
    };
    if api.len() > 0 {
        return MergeStep::Failed(string_of(api.as_slice()));
    }
    MergeStep::Failed(status_error(attempt.status.as_str()))
}

/// The error that names the HTTP status of the merge endpoint's reply.
fn status_error(status: &str) -> (r: String)
    ensures
        r@ == "GitHub merge endpoint returned "@ + status@,
        r@.len() > 0,
{
    proof {
        reveal_strlit("GitHub merge endpoint returned ");
    }
    let mut e = chars_of("GitHub merge endpoint returned ");
    let s = chars_of(status);
    append_chars(&mut e, s.as_slice());
    string_of(e.as_slice())
}

/// What a merge that tried every method without success reports: the last
/// error, or `merge failed` when there was none.
pub fn merge_failure_message(last_error: &str) -> (r: String)
    ensures
        last_error@.len() == 0 ==> r@ == "merge failed"@,
        last_error@.len() > 0 ==> r@ == last_error@,
{
    let l = chars_of(last_error);
    if l.len() == 0 {
        return "merge failed".to_owned();
    }
    last_error.to_owned()
}

} // verus!
