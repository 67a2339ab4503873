//! What the actions on an issue or pull request act on: the item they are
//! for, its web address, and the label and assignee choices a repository's
//! cached items offer.
use vstd::prelude::*;

use crate::app::View;
use crate::issues::{self, issue_state_is_closed, IssueRow};
use crate::metadata::{self, parse_csv_values};
use crate::picker::{self, first_of_each, sort_by_key};
use crate::text;
use crate::text::{append_chars, chars_of, i64_text, string_of};
use vstd::view::View as _;

verus! {

broadcast use vstd::string::group_string_axioms;

/// The comma-separated values of one field of each cached item, item by
/// item: each trimmed (without leading `@` when `strip_at`), blank ones
/// skipped, and within an item only the first of values equal ignoring case.
pub open spec fn field_values(issues: Seq<IssueRow>, labels: bool) -> Seq<Seq<char>>
    decreases issues.len(),
{
    if issues.len() == 0 {
        Seq::empty()
    } else {
        let row = issues.last();
        let field = if labels { row.labels@ } else { row.assignees@ };
        field_values(issues.drop_last(), labels) + metadata::parse_csv_spec(field, !labels)
    }
}

/// The values of one field over all items, in order.
fn all_field_values(issues: &[IssueRow], labels: bool) -> (r: Vec<String>)
    ensures
        text::string_views(r@) == field_values(issues@, labels),
{
    let mut out: Vec<String> = Vec::new();
    let mut i: usize = 0;
    while i < issues.len()
        invariant
            i <= issues.len(),
            text::string_views(out@) == field_values(issues@.take(i as int), labels),
        decreases issues.len() - i,
    {
        assert(issues@.take(i + 1).drop_last() =~= issues@.take(i as int));
        let row = &issues[i];
        let values = if labels {
            parse_csv_values(row.labels.as_str(), false)
        } else {
            parse_csv_values(row.assignees.as_str(), true)
        };
        let ghost before = text::string_views(out@);
        let mut j: usize = 0;
        while j < values.len()
            invariant
                j <= values.len(),
                text::string_views(out@) == before + text::string_views(values@).take(j as int),
            decreases values.len() - j,
        {
            let v = values[j].clone();
            let ghost prev = out@;
            out.push(v);
            assert(text::string_views(out@) =~= text::string_views(prev).push(v@));
            assert(text::string_views(values@).take(j + 1) =~= text::string_views(values@).take(j as int).push(
                values@[j as int]@,
            ));
            j = j + 1;
            assert(text::string_views(out@) =~= before + text::string_views(values@).take(j as int));
        }
        assert(text::string_views(values@).take(values.len() as int) =~= text::string_views(values@));
        i = i + 1;
    }
    assert(issues@.take(issues.len() as int) =~= issues@);
    out
}

/// The labels the repository's cached items use, each once (the first
/// spelling of labels equal ignoring ASCII case), in case-insensitive order.
pub fn label_options_for_repo(issues: &[IssueRow]) -> (r: Vec<String>)
    ensures
        picker::key_sorted_arrangement(
            text::string_views(r@),
            picker::first_of_each_key(field_values(issues@, true)),
        ),
{
    let values = all_field_values(issues, true);
    sort_by_key(first_of_each(values))
}

/// The users the repository's cached items are assigned to (without a
/// leading `@`), each once (the first spelling of names equal ignoring
/// ASCII case), in case-insensitive order.
pub fn assignee_options_for_repo(issues: &[IssueRow]) -> (r: Vec<String>)
    ensures
        picker::key_sorted_arrangement(
            text::string_views(r@),
            picker::first_of_each_key(field_values(issues@, false)),
        ),
{
    let values = all_field_values(issues, false);
    sort_by_key(first_of_each(values))
}

/// The item an action is for: the highlighted row in the list view, the
/// opened item elsewhere.
pub fn current_or_selected_issue<'a>(
    view: View,
    selected: Option<&'a IssueRow>,
    current: Option<&'a IssueRow>,
) -> (r: Option<&'a IssueRow>)
    ensures
        r == if view == View::Issues { selected } else { current },
{
    if view == View::Issues {
        selected
    } else {
        current
    }
}

/// The item the view is about is closed (or merged).
pub fn current_view_issue_is_closed(view: View, selected: Option<&IssueRow>, current: Option<&IssueRow>) -> (r: bool)
    ensures
        r == match (if view == View::Issues { selected } else { current }) {
            Some(row) => issues::state_closed(row.state@),
            None => false,
        },
{
    match current_or_selected_issue(view, selected, current) {
        Some(row) => issue_state_is_closed(row.state.as_str()),
        None => false,
    }
}

/// The item the view is about is a pull request.
pub fn current_view_issue_is_pull_request(view: View, selected: Option<&IssueRow>, current: Option<&IssueRow>) -> (r:
    bool)
    ensures
        r == match (if view == View::Issues { selected } else { current }) {
            Some(row) => row.is_pr,
            None => false,
        },
{
    match current_or_selected_issue(view, selected, current) {
        Some(row) => row.is_pr,
        None => false,
    }
}

/// The web address of an item.
pub open spec fn issue_url_spec(owner: Seq<char>, repo: Seq<char>, number: i64, is_pr: bool) -> Seq<char> {
    "https://github.com/"@ + owner + "/"@ + repo + "/"@ + (if is_pr { "pull"@ } else { "issues"@ }) + "/"@
        + text::int_text(number as int)
}

/// The web address of `issue` in repository `owner`/`repo`, when all three are known.
pub fn issue_url(owner: Option<&str>, repo: Option<&str>, issue: Option<&IssueRow>) -> (r: Option<String>)
    ensures
        match (owner, repo, issue) {
            (Some(o), Some(p), Some(i)) => r matches Some(u) && u@ == issue_url_spec(o@, p@, i.number, i.is_pr),
            _ => r is None,
        },
{
    let (o, p, i) = match (owner, repo, issue) {
        (Some(o), Some(p), Some(i)) => (o, p, i),
        _ => return None,
    };
    let mut out = chars_of("https://github.com/");
    let oc = chars_of(o);
    append_chars(&mut out, oc.as_slice());
    let slash = chars_of("/");
    append_chars(&mut out, slash.as_slice());
    let pc = chars_of(p);
    append_chars(&mut out, pc.as_slice());
    append_chars(&mut out, slash.as_slice());
    let route = if i.is_pr { chars_of("pull") } else { chars_of("issues") };
    append_chars(&mut out, route.as_slice());
    append_chars(&mut out, slash.as_slice());
    let n = i64_text(i.number);
    append_chars(&mut out, n.as_slice());
    Some(string_of(out.as_slice()))
}

/// The views that act on the opened item rather than on a highlighted row.
pub open spec fn opened_item_view(view: View) -> bool {
    view == View::IssueDetail || view == View::IssueComments || view == View::PullRequestFiles
}

/// `r` names the cached item `row`: its id, number and state.
pub open spec fn acts_on_row(r: Option<(i64, i64, Option<String>)>, row: IssueRow) -> bool {
    match r {
        Some(t) => t.0 == row.id && t.1 == row.number && match t.2 {
            Some(s) => s@ == row.state@,
            None => false,
        },
        None => false,
    }
}

/// The item an issue action is for, as its id, number and state (the state
/// when the item is cached): the highlighted row in the list view; in the
/// views of an opened item, that item (by the cached row, else by the id
/// and number it was opened with); nothing elsewhere.
pub fn selected_issue_for_action(
    view: View,
    selected: Option<&IssueRow>,
    current: Option<&IssueRow>,
    current_id: Option<i64>,
    current_number: Option<i64>,
) -> (r: Option<(i64, i64, Option<String>)>)
    ensures
        view == View::Issues ==> match selected {
            Some(row) => acts_on_row(r, *row),
            None => r is None,
        },
        opened_item_view(view) ==> match current {
            Some(row) => acts_on_row(r, *row),
            None => match (current_id, current_number) {
                (Some(id), Some(n)) => r == Some((id, n, None::<String>)),
                _ => r is None,
            },
        },
        view != View::Issues && !opened_item_view(view) ==> r is None,
{
    if view == View::Issues {
        return match selected {
            Some(row) => Some((row.id, row.number, Some(row.state.clone()))),
            None => None,
        };
    }
    if view == View::IssueDetail || view == View::IssueComments || view == View::PullRequestFiles {
        if let Some(row) = current {
            return Some((row.id, row.number, Some(row.state.clone())));
        }
        if let (Some(id), Some(n)) = (current_id, current_number) {
            return Some((id, n, None));
        }
    }
    None
}

/// The views whose actions act on the opened item's labels and assignees.
pub open spec fn metadata_view(view: View) -> bool {
    opened_item_view(view) || view == View::CommentEditor
}

/// The labels (or, with `labels` false, the assignees) of the item a
/// metadata action is for: the highlighted row in the list view, the
/// opened item in its views and in the comment editor, nothing elsewhere.
pub fn selected_issue_field(view: View, selected: Option<&IssueRow>, current: Option<&IssueRow>, labels: bool) -> (r:
    Option<String>)
    ensures
        ({
            let source = if view == View::Issues {
                selected
            } else if metadata_view(view) {
                current
            } else {
                None
            };
            match source {
                Some(row) => r matches Some(s) && s@ == if labels { row.labels@ } else { row.assignees@ },
                None => r is None,
            }
        }),
{
    let source = if view == View::Issues {
        selected
    } else if view == View::IssueDetail || view == View::IssueComments || view == View::PullRequestFiles
        || view == View::CommentEditor {
        current
    } else {
        None
    };
    match source {
        Some(row) => if labels {
            Some(row.labels.clone())
        } else {
            Some(row.assignees.clone())
        },
        None => None,
    }
}

/// The number of the item an action is for: the opened item in its views,
/// the pickers and the editor; the highlighted row in the list view.
pub fn issue_number(view: View, current_number: Option<i64>, selected: Option<&IssueRow>) -> (r: Option<i64>)
    ensures
        r == if view == View::Issues {
            match selected {
                Some(row) => Some(row.number),
                None => None,
            }
        } else if view == View::RepoPicker || view == View::RemoteChooser || view == View::LinkedPicker {
            None
        } else {
            current_number
        },
{
    match view {
        View::Issues => match selected {
            Some(row) => Some(row.number),
            None => None,
        },
        View::RepoPicker | View::RemoteChooser | View::LinkedPicker => None,
        _ => current_number,
    }
}

/// What a permission check asks for.
#[derive(Debug, Clone, Copy, PartialEq, Eq, Structural)]
pub enum PermissionStep {
    /// The action may go ahead.
    Allowed,
    /// The repository's permissions forbid it.
    Denied,
    /// The permissions are not known yet: ask for them.
    Sync,
}

/// The first step of a permission check, from what is known of the permission.
pub fn permission_step(known: Option<bool>) -> (r: PermissionStep)
    ensures
        r == match known {
            Some(true) => PermissionStep::Allowed,
            Some(false) => PermissionStep::Denied,
            None => PermissionStep::Sync,
        },
{
    match known {
        Some(true) => PermissionStep::Allowed,
        Some(false) => PermissionStep::Denied,
        None => PermissionStep::Sync,
    }
}

/// The status line while the permissions are asked for: whether the sync
/// is under way decides if the user is asked to try again.
pub fn permission_sync_status(syncing: bool) -> (r: &'static str)
    ensures
        r@ == if syncing { "Checking repo permissions"@ } else { "Checking repo permissions, try again in a moment"@ },
{
    if syncing {
        "Checking repo permissions"
    } else {
        "Checking repo permissions, try again in a moment"
    }
}

/// The status line when editing labels or assignees is forbidden.
pub fn metadata_denied_status() -> (r: &'static str)
    ensures
        r@ == "No permission to edit labels/assignees in this repo"@,
{
    "No permission to edit labels/assignees in this repo"
}

/// The status line when merging is forbidden.
pub fn merge_denied_status() -> (r: &'static str)
    ensures
        r@ == "No permission to merge pull requests in this repo"@,
{
    "No permission to merge pull requests in this repo"
}

/// What reopening does with the item it is for.
#[derive(Debug, Clone, Copy, PartialEq, Eq, Structural)]
pub enum ReopenStep {
    /// No item is selected.
    NoItem,
    /// The item is open already.
    AlreadyOpen,
    /// The item is a merged pull request, which cannot be reopened.
    Merged,
    /// Reopen the item with this id and number.
    Reopen(i64, i64),
}

/// The step for reopening the item an action is for (as
/// `selected_issue_for_action` gives it: id, number and cached state): an
/// open item stays, a merged pull request is refused, anything else is
/// reopened.
pub fn reopen_step(target: &Option<(i64, i64, Option<String>)>) -> (r: ReopenStep)
    ensures
        r == match target {
            None => ReopenStep::NoItem,
            Some(t) => match &t.2 {
                Some(s) => if text::eq_ignore_case(s@, "open"@) {
                    ReopenStep::AlreadyOpen
                } else if issues::state_merged(s@) {
                    ReopenStep::Merged
                } else {
                    ReopenStep::Reopen(t.0, t.1)
                },
                None => ReopenStep::Reopen(t.0, t.1),
            },
        },
{
    match target {
        None => ReopenStep::NoItem,
        Some(t) => match &t.2 {
            Some(s) => {
                let st = chars_of(s.as_str());
                let open = chars_of("open");
                if text::eq_ignore_case_chars(st.as_slice(), open.as_slice()) {
                    ReopenStep::AlreadyOpen
                } else if issues::issue_state_is_merged(s.as_str()) {
                    ReopenStep::Merged
                } else {
                    ReopenStep::Reopen(t.0, t.1)
                }
            },
            None => ReopenStep::Reopen(t.0, t.1),
        },
    }
}

/// The status line for a reopening step.
pub fn reopen_status(step: ReopenStep) -> (r: &'static str)
    ensures
        r@ == match step {
            ReopenStep::NoItem => "No issue selected"@,
            ReopenStep::AlreadyOpen => "Issue is already open"@,
            ReopenStep::Merged => "Merged pull requests cannot be reopened"@,
            ReopenStep::Reopen(_, _) => "Reopening issue"@,
        },
{
    match step {
        ReopenStep::NoItem => "No issue selected",
        ReopenStep::AlreadyOpen => "Issue is already open",
        ReopenStep::Merged => "Merged pull requests cannot be reopened",
        ReopenStep::Reopen(_, _) => "Reopening issue",
    }
}

/// Whether a pull-request action (merging, checking out) can act on an item.
#[derive(Debug, Clone, Copy, PartialEq, Eq, Structural)]
pub enum PullRequestStep {
    /// No item is selected.
    NoItem,
    /// The item is an issue, not a pull request.
    NotPullRequest,
    /// Act on the pull request with this number.
    Go(i64),
}

/// The step for a pull-request action on the item it is for (as
/// `current_or_selected_issue` gives it).
pub fn pull_request_step(item: Option<&IssueRow>) -> (r: PullRequestStep)
    ensures
        r == match item {
            None => PullRequestStep::NoItem,
            Some(row) => if row.is_pr {
                PullRequestStep::Go(row.number)
            } else {
                PullRequestStep::NotPullRequest
            },
        },
{
    match item {
        None => PullRequestStep::NoItem,
        Some(row) => if row.is_pr {
            PullRequestStep::Go(row.number)
        } else {
            PullRequestStep::NotPullRequest
        },
    }
}

/// The status line when a pull-request action cannot go ahead; none when it can.
pub fn pull_request_step_status(step: PullRequestStep) -> (r: Option<&'static str>)
    ensures
        match step {
            PullRequestStep::NoItem => r matches Some(m) && m@ == "No pull request selected"@,
            PullRequestStep::NotPullRequest => r matches Some(m) && m@ == "Selected item is not a pull request"@,
            PullRequestStep::Go(_) => r is None,
        },
{
    match step {
        PullRequestStep::NoItem => Some("No pull request selected"),
        PullRequestStep::NotPullRequest => Some("Selected item is not a pull request"),
        PullRequestStep::Go(_) => None,
    }
}

} // verus!
