//! What the interface does when background work reports back: which
//! progress flags clear, which status line shows, and which caches and
//! screens the event loop then reloads or updates. The loop performs the
//! reloads and hands the payloads to the screens that the effects name.
use vstd::prelude::*;

use crate::app::{PullRequestFile, PullRequestReviewComment, View};
use crate::linked::LinkedPickerTarget;
use crate::text;
use crate::text::{append_chars, chars_eq, chars_of, i64_text, starts_with_chars, string_of, u64_text};
use vstd::view::View as _;

verus! {

/// Where a linked-item lookup was asked to lead: into the interface, to
/// the browser, or nowhere (a probe that only fills the cache).
#[derive(Debug, Clone, Copy, PartialEq, Eq, Structural)]
pub enum LinkedLookupTarget {
    Tui,
    Browser,
    Probe,
}

/// What background work reports.
#[derive(Debug, Clone, PartialEq, Eq)]
pub enum AppEvent {
    ReposUpdated,
    ScanFinished,
    SyncFinished { owner: String, repo: String, issues: u64, not_modified: bool },
    SyncProgress { owner: String, repo: String, page: u64, issues: u64 },
    SyncFailed { owner: String, repo: String, message: String },
    CommentsUpdated { issue_id: i64, count: u64 },
    CommentsFailed { issue_id: i64, message: String },
    IssueUpdated { issue_number: i64, message: String },
    IssueCreated { issue_number: i64 },
    IssueCreateFailed { message: String },
    IssueLabelsUpdated { issue_number: i64, labels: String },
    IssueAssigneesUpdated { issue_number: i64, assignees: String },
    PullRequestFilesUpdated {
        issue_id: i64,
        files: Vec<PullRequestFile>,
        pull_request_id: Option<String>,
        viewed_files: Vec<String>,
    },
    PullRequestFilesFailed { issue_id: i64, message: String },
    PullRequestReviewCommentsUpdated { issue_id: i64, comments: Vec<PullRequestReviewComment> },
    PullRequestReviewCommentsFailed { issue_id: i64, message: String },
    PullRequestReviewCommentCreated { issue_id: i64 },
    PullRequestReviewCommentCreateFailed { issue_id: i64, message: String },
    PullRequestReviewCommentUpdated { issue_id: i64, comment_id: i64, body: String },
    PullRequestReviewCommentUpdateFailed { issue_id: i64, message: String },
    PullRequestReviewCommentDeleted { issue_id: i64, comment_id: i64 },
    PullRequestReviewCommentDeleteFailed { issue_id: i64, message: String },
    PullRequestReviewThreadResolutionUpdated { issue_id: i64, resolved: bool },
    PullRequestReviewThreadResolutionFailed { issue_id: i64, message: String },
    PullRequestFileViewedUpdated { issue_id: i64, path: String, viewed: bool },
    PullRequestFileViewedUpdateFailed { issue_id: i64, path: String, viewed: bool, message: String },
    LinkedPullRequestResolved { issue_number: i64, pull_requests: Vec<(i64, String)>, target: LinkedLookupTarget },
    LinkedPullRequestLookupFailed { issue_number: i64, message: String, target: LinkedLookupTarget },
    LinkedIssueResolved { pull_number: i64, issues: Vec<(i64, String)>, target: LinkedLookupTarget },
    LinkedIssueLookupFailed { pull_number: i64, message: String, target: LinkedLookupTarget },
    IssueCommentUpdated { issue_number: i64, comment_id: i64, body: String },
    IssueCommentDeleted { issue_number: i64, comment_id: i64, count: u64 },
    RepoLabelsSuggested { owner: String, repo: String, labels: Vec<(String, String)> },
    RepoAssigneesSuggested { owner: String, repo: String, assignees: Vec<String> },
    RepoPermissionsResolved { owner: String, repo: String, can_edit_issue_metadata: bool, can_merge_pull_request: bool },
    RepoPermissionsFailed { owner: String, repo: String, message: String },
}

/// The progress flags and the known repository permissions.
#[derive(Debug, Clone, Copy, PartialEq, Eq, Structural)]
pub struct EventFlags {
    pub scanning: bool,
    pub syncing: bool,
    pub comment_syncing: bool,
    pub files_syncing: bool,
    pub review_comments_syncing: bool,
    pub labels_syncing: bool,
    pub permissions_syncing: bool,
    pub metadata_editable: Option<bool>,
    pub mergeable: Option<bool>,
}

/// What events are read against and change: the view, the repository and
/// item in view, the flags and the status line.
#[derive(Debug, Clone, PartialEq, Eq)]
pub struct AppState {
    pub view: View,
    pub current_owner: Option<String>,
    pub current_repo: Option<String>,
    pub current_issue_id: Option<i64>,
    pub current_issue_number: Option<i64>,
    pub flags: EventFlags,
    pub status: String,
}

/// The state an item is marked with after an update.
#[derive(Debug, Clone, Copy, PartialEq, Eq, Structural)]
pub enum ItemStateMark {
    Open,
    Closed,
    Merged,
}

/// An item to mark with a state.
#[derive(Debug, Clone, Copy, PartialEq, Eq, Structural)]
pub struct StateMark {
    pub issue_number: i64,
    pub state: ItemStateMark,
}

/// What the event loop does once the status is known only after a reload.
#[derive(Debug, Clone, Copy, PartialEq, Eq, Structural)]
pub enum FollowUp {
    Nothing,
    /// Show the sync result with the item counts after the reload.
    SyncCounts { issues: u64, not_modified: bool },
    /// Show the sync progress with the item counts after the reload.
    ProgressCounts { page: u64, issues: u64 },
    /// Show the open issues and open the created one when it is listed.
    OpenCreatedIssue(i64),
    /// Offer the linked items in the picker (for this target).
    LinkedPicker(LinkedPickerTarget),
    /// Open the linked pull request (`true`) or issue in the interface.
    LinkedInTui(bool, i64),
    /// Open the linked pull request (`true`) or issue in the browser.
    LinkedInBrowser(bool, i64),
}

/// The reloads, requests and updates an event asks of the event loop.
#[derive(Debug, Clone, Copy, PartialEq, Eq, Structural)]
pub struct EventEffects {
    pub reload_repos: bool,
    pub refresh_issues: bool,
    pub load_comments: Option<i64>,
    pub request_sync: bool,
    pub request_comment_sync: bool,
    pub request_labels_sync: bool,
    pub request_review_comments_sync: bool,
    pub clear_pending: Option<i64>,
    pub mark_state: Option<StateMark>,
    /// Hand the event's data to the screen it is for (files, comments,
    /// labels, assignees, links, viewed state, suggestions).
    pub apply_payload: bool,
    /// Also offer the suggested labels in the open label picker.
    pub offer_to_picker: bool,
    pub follow_up: FollowUp,
}

/// Nothing asked.
pub open spec fn no_effects() -> EventEffects {
    EventEffects {
        reload_repos: false,
        refresh_issues: false,
        load_comments: None,
        request_sync: false,
        request_comment_sync: false,
        request_labels_sync: false,
        request_review_comments_sync: false,
        clear_pending: None,
        mark_state: None,
        apply_payload: false,
        offer_to_picker: false,
        follow_up: FollowUp::Nothing,
    }
}

/// The repository in view is `owner/repo`.
pub open spec fn same_repo(s: AppState, owner: String, repo: String) -> bool {
    &&& s.current_owner matches Some(o) && o@ == owner@
    &&& s.current_repo matches Some(r) && r@ == repo@
}

/// The item in view is the one with this id.
pub open spec fn is_current(s: AppState, issue_id: i64) -> bool {
    s.current_issue_id == Some(issue_id)
}

/// An update message that ends the pending change on an item.
pub open spec fn ends_pending(m: Seq<char>) -> bool {
    ||| text::has_prefix(m, "closed"@)
    ||| text::has_prefix(m, "close failed"@)
    ||| text::has_prefix(m, "reopened"@)
    ||| text::has_prefix(m, "reopen failed"@)
    ||| text::has_prefix(m, "merged"@)
    ||| text::has_prefix(m, "merge failed"@)
    ||| text::has_prefix(m, "label update failed"@)
    ||| text::has_prefix(m, "assignee update failed"@)
}

/// The state an update message marks its item with.
pub open spec fn state_mark(m: Seq<char>) -> Option<ItemStateMark> {
    if text::has_prefix(m, "merged"@) {
        Some(ItemStateMark::Merged)
    } else if text::has_prefix(m, "reopened"@) {
        Some(ItemStateMark::Open)
    } else if text::has_prefix(m, "closed"@) {
        Some(ItemStateMark::Closed)
    } else {
        None
    }
}

/// How a lookup target reads in a status line.
pub open spec fn target_label(t: LinkedLookupTarget) -> Seq<char> {
    match t {
        LinkedLookupTarget::Tui => "TUI"@,
        LinkedLookupTarget::Browser => "browser"@,
        LinkedLookupTarget::Probe => "probe"@,
    }
}

/// The picker a lookup with several answers opens.
pub open spec fn picker_target(pull_requests: bool, t: LinkedLookupTarget) -> LinkedPickerTarget {
    if pull_requests {
        if t == LinkedLookupTarget::Browser { LinkedPickerTarget::PullRequestBrowser } else { LinkedPickerTarget::PullRequestTui }
    } else if t == LinkedLookupTarget::Browser {
        LinkedPickerTarget::IssueBrowser
    } else {
        LinkedPickerTarget::IssueTui
    }
}

/// The next step after a linked lookup found `count` items, the first
/// being `first`: nothing for a probe or no answer, the picker for several,
/// else open the one found where the lookup was meant to lead.
pub open spec fn linked_follow_up(pull_requests: bool, count: nat, first: i64, t: LinkedLookupTarget) -> FollowUp {
    if count == 0 || t == LinkedLookupTarget::Probe {
        FollowUp::Nothing
    } else if count > 1 {
        FollowUp::LinkedPicker(picker_target(pull_requests, t))
    } else if t == LinkedLookupTarget::Tui {
        FollowUp::LinkedInTui(pull_requests, first)
    } else {
        FollowUp::LinkedInBrowser(pull_requests, first)
    }
}

/// The first number of a lookup's answer (0 when there is none).
pub open spec fn first_number(v: Seq<(i64, String)>) -> i64 {
    if v.len() > 0 { v[0].0 } else { 0 }
}

/// The flags after an event.
pub open spec fn flags_after(s: AppState, e: AppEvent) -> EventFlags {
    let f = s.flags;
    match e {
        AppEvent::ScanFinished => EventFlags { scanning: false, ..f },
        AppEvent::SyncFinished { .. } | AppEvent::SyncFailed { .. } => EventFlags { syncing: false, ..f },
        AppEvent::CommentsUpdated { .. } | AppEvent::CommentsFailed { .. } => EventFlags { comment_syncing: false, ..f },
        AppEvent::PullRequestFilesUpdated { .. } | AppEvent::PullRequestFilesFailed { .. } => EventFlags {
            files_syncing: false,
            ..f
        },
        AppEvent::PullRequestReviewCommentsUpdated { .. } | AppEvent::PullRequestReviewCommentsFailed { .. } => EventFlags {
            review_comments_syncing: false,
            ..f
        },
        AppEvent::RepoLabelsSuggested { .. } => EventFlags { labels_syncing: false, ..f },
        AppEvent::RepoPermissionsResolved { owner, repo, can_edit_issue_metadata, can_merge_pull_request } => if same_repo(
            s,
            owner,
            repo,
        ) {
            EventFlags {
                permissions_syncing: false,
                metadata_editable: Some(can_edit_issue_metadata),
                mergeable: Some(can_merge_pull_request),
                ..f
            }
        } else {
            f
        },
        AppEvent::RepoPermissionsFailed { owner, repo, .. } => if same_repo(s, owner, repo) {
            EventFlags { permissions_syncing: false, metadata_editable: None, mergeable: None, ..f }
        } else {
            f
        },
        _ => f,
    }
}

/// The status line after an event (`st` is the one before).
pub open spec fn status_after(s: AppState, st: Seq<char>, e: AppEvent) -> Seq<char> {
    match e {
        AppEvent::ReposUpdated | AppEvent::ScanFinished => if s.view == View::RepoPicker { Seq::empty() } else { st },
        AppEvent::SyncFailed { owner, repo, message } => if same_repo(s, owner, repo) {
            "Sync failed: "@ + message@
        } else {
            st
        },
        AppEvent::CommentsUpdated { issue_id, count } => if is_current(s, issue_id) {
            "Updated "@ + text::nat_text(count as nat) + " comments"@
        } else {
            st
        },
        AppEvent::CommentsFailed { issue_id, message } => if is_current(s, issue_id) {
            "Comments unavailable: "@ + message@
        } else {
            st
        },
        AppEvent::IssueUpdated { issue_number, message } => "#"@ + text::int_text(issue_number as int) + " "@
            + message@,
        AppEvent::IssueCreated { issue_number } => "Created issue #"@ + text::int_text(issue_number as int),
        AppEvent::IssueCreateFailed { message } => "Issue creation failed: "@ + message@,
        AppEvent::IssueLabelsUpdated { issue_number, .. } => "#"@ + text::int_text(issue_number as int)
            + " labels updated"@,
        AppEvent::IssueAssigneesUpdated { issue_number, .. } => "#"@ + text::int_text(issue_number as int)
            + " assignees updated"@,
        AppEvent::PullRequestFilesUpdated { issue_id, files, .. } => if is_current(s, issue_id) {
            "Loaded "@ + text::nat_text(files@.len()) + " changed files"@
        } else {
            st
        },
        AppEvent::PullRequestFilesFailed { issue_id, message } => if is_current(s, issue_id) {
            "PR files unavailable: "@ + message@
        } else {
            st
        },
        AppEvent::PullRequestReviewCommentsUpdated { issue_id, comments } => if is_current(s, issue_id) {
            "Loaded "@ + text::nat_text(comments@.len()) + " review comments"@
        } else {
            st
        },
        AppEvent::PullRequestReviewCommentsFailed { issue_id, message } => if is_current(s, issue_id) {
            "PR review comments unavailable: "@ + message@
        } else {
            st
        },
        AppEvent::PullRequestReviewCommentCreated { issue_id } => if is_current(s, issue_id) {
            "Review comment submitted"@
        } else {
            st
        },
        AppEvent::PullRequestReviewCommentCreateFailed { issue_id, message } => if is_current(s, issue_id) {
            "Review comment failed: "@ + message@
        } else {
            st
        },
        AppEvent::PullRequestReviewCommentUpdated { issue_id, .. } => if is_current(s, issue_id) {
            "Review comment updated"@
        } else {
            st
        },
        AppEvent::PullRequestReviewCommentUpdateFailed { issue_id, message } => if is_current(s, issue_id) {
            "Review comment update failed: "@ + message@
        } else {
            st
        },
        AppEvent::PullRequestReviewCommentDeleted { issue_id, .. } => if is_current(s, issue_id) {
            "Review comment deleted"@
        } else {
            st
        },
        AppEvent::PullRequestReviewCommentDeleteFailed { issue_id, message } => if is_current(s, issue_id) {
            "Review comment delete failed: "@ + message@
        } else {
            st
        },
        AppEvent::PullRequestReviewThreadResolutionUpdated { issue_id, resolved } => if is_current(s, issue_id) {
            if resolved { "Review thread resolved"@ } else { "Review thread reopened"@ }
        } else {
            st
        },
        AppEvent::PullRequestReviewThreadResolutionFailed { issue_id, message } => if is_current(s, issue_id) {
            "Review thread resolution failed: "@ + message@
        } else {
            st
        },
        AppEvent::PullRequestFileViewedUpdated { issue_id, path, viewed } => if is_current(s, issue_id) {
            "Marked "@ + path@ + if viewed { " viewed on GitHub"@ } else { " unviewed on GitHub"@ }
        } else {
            st
        },
        AppEvent::PullRequestFileViewedUpdateFailed { issue_id, path, message, .. } => if is_current(s, issue_id) {
            "GitHub view state failed for "@ + path@ + ": "@ + message@
        } else {
            st
        },
        AppEvent::LinkedPullRequestResolved { issue_number, pull_requests, target } => if pull_requests@.len() == 0
            && target != LinkedLookupTarget::Probe {
            "No linked pull request found for #"@ + text::int_text(issue_number as int)
        } else {
            st
        },
        AppEvent::LinkedPullRequestLookupFailed { issue_number, message, target } => if target
            != LinkedLookupTarget::Probe {
            "Linked pull request lookup failed for #"@ + text::int_text(issue_number as int) + " ("@ + target_label(
                target,
            ) + "): "@ + message@
        } else {
            st
        },
        AppEvent::LinkedIssueResolved { pull_number, issues, target } => if issues@.len() == 0 && target
            != LinkedLookupTarget::Probe {
            "No linked issue found for PR #"@ + text::int_text(pull_number as int)
        } else {
            st
        },
        AppEvent::LinkedIssueLookupFailed { pull_number, message, target } => if target != LinkedLookupTarget::Probe {
            "Linked issue lookup failed for PR #"@ + text::int_text(pull_number as int) + " ("@ + target_label(target)
                + "): "@ + message@
        } else {
            st
        },
        AppEvent::IssueCommentUpdated { issue_number, .. } => "#"@ + text::int_text(issue_number as int)
            + " comment updated"@,
        AppEvent::IssueCommentDeleted { issue_number, .. } => "#"@ + text::int_text(issue_number as int)
            + " comment deleted"@,
        AppEvent::RepoPermissionsResolved { owner, repo, can_edit_issue_metadata, .. } => if same_repo(s, owner, repo)
            && !can_edit_issue_metadata {
            "No permission to edit labels/assignees in this repo"@
        } else {
            st
        },
        AppEvent::RepoPermissionsFailed { owner, repo, message } => if same_repo(s, owner, repo) {
            "Repo permission check failed: "@ + message@
        } else {
            st
        },
        _ => st,
    }
}

/// What the event loop is asked to do after an event.
pub open spec fn effects_of(s: AppState, e: AppEvent) -> EventEffects {
    let n = no_effects();
    match e {
        AppEvent::ReposUpdated => EventEffects { reload_repos: s.view == View::RepoPicker, ..n },
        AppEvent::SyncFinished { owner, repo, issues, not_modified } => if same_repo(s, owner, repo) {
            EventEffects {
                refresh_issues: true,
                request_labels_sync: true,
                follow_up: FollowUp::SyncCounts { issues, not_modified },
                ..n
            }
        } else {
            n
        },
        AppEvent::SyncProgress { owner, repo, page, issues } => if same_repo(s, owner, repo) {
            EventEffects { refresh_issues: true, follow_up: FollowUp::ProgressCounts { page, issues }, ..n }
        } else {
            n
        },
        AppEvent::CommentsUpdated { issue_id, .. } => if is_current(s, issue_id) {
            EventEffects { load_comments: Some(issue_id), ..n }
        } else {
            n
        },
        AppEvent::IssueUpdated { issue_number, message } => EventEffects {
            clear_pending: if ends_pending(message@) { Some(issue_number) } else { None },
            mark_state: match state_mark(message@) {
                Some(m) => Some(StateMark { issue_number, state: m }),
                None => None,
            },
            request_sync: true,
            request_comment_sync: s.current_issue_number == Some(issue_number),
            ..n
        },
        AppEvent::IssueCreated { issue_number } => EventEffects {
            refresh_issues: true,
            request_sync: true,
            follow_up: FollowUp::OpenCreatedIssue(issue_number),
            ..n
        },
        AppEvent::IssueLabelsUpdated { issue_number, .. } | AppEvent::IssueAssigneesUpdated { issue_number, .. } => EventEffects {
            clear_pending: Some(issue_number),
            apply_payload: true,
            request_sync: true,
            ..n
        },
        AppEvent::PullRequestFilesUpdated { issue_id, .. } | AppEvent::PullRequestReviewCommentsUpdated { issue_id, .. }
        | AppEvent::PullRequestReviewCommentUpdated { issue_id, .. } | AppEvent::PullRequestReviewCommentDeleted {
            issue_id,
            ..
        } | AppEvent::PullRequestFileViewedUpdated { issue_id, .. } | AppEvent::PullRequestFileViewedUpdateFailed {
            issue_id,
            ..
        } => EventEffects { apply_payload: is_current(s, issue_id), ..n },
        AppEvent::PullRequestReviewCommentCreated { issue_id } | AppEvent::PullRequestReviewThreadResolutionUpdated {
            issue_id,
            ..
        } => EventEffects { request_review_comments_sync: is_current(s, issue_id), ..n },
        AppEvent::LinkedPullRequestResolved { pull_requests, target, .. } => EventEffects {
            apply_payload: true,
            follow_up: linked_follow_up(true, pull_requests@.len(), first_number(pull_requests@), target),
            ..n
        },
        AppEvent::LinkedIssueResolved { issues, target, .. } => EventEffects {
            apply_payload: true,
            follow_up: linked_follow_up(false, issues@.len(), first_number(issues@), target),
            ..n
        },
        AppEvent::LinkedPullRequestLookupFailed { .. } | AppEvent::LinkedIssueLookupFailed { .. } => EventEffects {
            apply_payload: true,
            ..n
        },
        AppEvent::IssueCommentUpdated { .. } | AppEvent::IssueCommentDeleted { .. } => EventEffects {
            apply_payload: true,
            request_comment_sync: true,
            request_sync: true,
            ..n
        },
        AppEvent::RepoLabelsSuggested { owner, repo, .. } => EventEffects {
            apply_payload: same_repo(s, owner, repo),
            offer_to_picker: same_repo(s, owner, repo) && s.view == View::LabelPicker,
            ..n
        },
        AppEvent::RepoAssigneesSuggested { owner, repo, .. } => EventEffects {
            apply_payload: same_repo(s, owner, repo) && s.view == View::AssigneePicker,
            ..n
        },
        _ => n,
    }
}


/// No effects.
fn none() -> (r: EventEffects)
    ensures
        r == no_effects(),
{
    EventEffects {
        reload_repos: false,
        refresh_issues: false,
        load_comments: None,
        request_sync: false,
        request_comment_sync: false,
        request_labels_sync: false,
        request_review_comments_sync: false,
        clear_pending: None,
        mark_state: None,
        apply_payload: false,
        offer_to_picker: false,
        follow_up: FollowUp::Nothing,
    }
}

/// Whether an optional text is `t`.
fn opt_is(o: &Option<String>, t: &String) -> (r: bool)
    ensures
        r == (o matches Some(x) && x@ == t@),
{
    match o {
        Some(x) => {
            let a = chars_of(x.as_str());
            let b = chars_of(t.as_str());
            chars_eq(a.as_slice(), b.as_slice())
        },
        None => false,
    }
}

impl AppState {
    /// Whether `owner/repo` is the repository in view.
    fn is_repo(&self, owner: &String, repo: &String) -> (r: bool)
        ensures
            r == same_repo(*self, *owner, *repo),
    {
        opt_is(&self.current_owner, owner) && opt_is(&self.current_repo, repo)
    }

    /// Whether the item in view has this id.
    fn is_item(&self, issue_id: i64) -> (r: bool)
        ensures
            r == is_current(*self, issue_id),
    {
        match self.current_issue_id {
            Some(i) => i == issue_id,
            None => false,
        }
    }
}

/// `a` followed by `b`.
fn cat2(a: &str, b: &[char]) -> (r: Vec<char>)
    ensures
        r@ == a@ + b@,
{
    let mut t = chars_of(a);
    append_chars(&mut t, b);
    t
}

/// `a`, `b` and `c` in a row.
fn cat3(a: &str, b: &[char], c: &str) -> (r: Vec<char>)
    ensures
        r@ == a@ + b@ + c@,
{
    let mut t = cat2(a, b);
    let cs = chars_of(c);
    append_chars(&mut t, cs.as_slice());
    t
}

/// The text of a string.
fn chars_of_string(s: &String) -> (r: Vec<char>)
    ensures
        r@ == s@,
{
    chars_of(s.as_str())
}

/// The status line after an event, or none when it stays.
fn new_status(s: &AppState, e: &AppEvent) -> (r: Option<Vec<char>>)
    ensures
        match r {
            Some(t) => t@ == status_after(*s, s.status@, *e),
            None => status_after(*s, s.status@, *e) == s.status@,
        },
{
    match e {
        AppEvent::ReposUpdated | AppEvent::ScanFinished => if s.view == View::RepoPicker {
            Some(Vec::new())
        } else {
            None
        },
        AppEvent::SyncFailed { owner, repo, message } => if s.is_repo(owner, repo) {
            Some(cat2("Sync failed: ", chars_of_string(message).as_slice()))
        } else {
            None
        },
        AppEvent::CommentsUpdated { issue_id, count } => if s.is_item(*issue_id) {
            Some(cat3("Updated ", u64_text(*count).as_slice(), " comments"))
        } else {
            None
        },
        AppEvent::CommentsFailed { issue_id, message } => if s.is_item(*issue_id) {
            Some(cat2("Comments unavailable: ", chars_of_string(message).as_slice()))
        } else {
            None
        },
        AppEvent::IssueUpdated { issue_number, message } => {
            let mut t = cat3("#", i64_text(*issue_number).as_slice(), " ");
            append_chars(&mut t, chars_of_string(message).as_slice());
            Some(t)
        },
        AppEvent::IssueCreated { issue_number } => Some(cat2("Created issue #", i64_text(*issue_number).as_slice())),
        AppEvent::IssueCreateFailed { message } => Some(cat2("Issue creation failed: ", chars_of_string(message).as_slice())),
        AppEvent::IssueLabelsUpdated { issue_number, .. } => Some(
            cat3("#", i64_text(*issue_number).as_slice(), " labels updated"),
        ),
        AppEvent::IssueAssigneesUpdated { issue_number, .. } => Some(
            cat3("#", i64_text(*issue_number).as_slice(), " assignees updated"),
        ),
        AppEvent::PullRequestFilesUpdated { issue_id, files, .. } => if s.is_item(*issue_id) {
            Some(cat3("Loaded ", u64_text(files.len() as u64).as_slice(), " changed files"))
        } else {
            None
        },
        AppEvent::PullRequestFilesFailed { issue_id, message } => if s.is_item(*issue_id) {
            Some(cat2("PR files unavailable: ", chars_of_string(message).as_slice()))
        } else {
            None
        },
        AppEvent::PullRequestReviewCommentsUpdated { issue_id, comments } => if s.is_item(*issue_id) {
            Some(cat3("Loaded ", u64_text(comments.len() as u64).as_slice(), " review comments"))
        } else {
            None
        },
        AppEvent::PullRequestReviewCommentsFailed { issue_id, message } => if s.is_item(*issue_id) {
            Some(cat2("PR review comments unavailable: ", chars_of_string(message).as_slice()))
        } else {
            None
        },
        AppEvent::PullRequestReviewCommentCreated { issue_id } => if s.is_item(*issue_id) {
            Some(chars_of("Review comment submitted"))
        } else {
            None
        },
        AppEvent::PullRequestReviewCommentCreateFailed { issue_id, message } => if s.is_item(*issue_id) {
            Some(cat2("Review comment failed: ", chars_of_string(message).as_slice()))
        } else {
            None
        },
        AppEvent::PullRequestReviewCommentUpdated { issue_id, .. } => if s.is_item(*issue_id) {
            Some(chars_of("Review comment updated"))
        } else {
            None
        },
        AppEvent::PullRequestReviewCommentUpdateFailed { issue_id, message } => if s.is_item(*issue_id) {
            Some(cat2("Review comment update failed: ", chars_of_string(message).as_slice()))
        } else {
            None
        },
        AppEvent::PullRequestReviewCommentDeleted { issue_id, .. } => if s.is_item(*issue_id) {
            Some(chars_of("Review comment deleted"))
        } else {
            None
        },
        AppEvent::PullRequestReviewCommentDeleteFailed { issue_id, message } => if s.is_item(*issue_id) {
            Some(cat2("Review comment delete failed: ", chars_of_string(message).as_slice()))
        } else {
            None
        },
        AppEvent::PullRequestReviewThreadResolutionUpdated { issue_id, resolved } => if s.is_item(*issue_id) {
            if *resolved {
                Some(chars_of("Review thread resolved"))
            } else {
                Some(chars_of("Review thread reopened"))
            }
        } else {
            None
        },
        AppEvent::PullRequestReviewThreadResolutionFailed { issue_id, message } => if s.is_item(*issue_id) {
            Some(cat2("Review thread resolution failed: ", chars_of_string(message).as_slice()))
        } else {
            None
        },
        AppEvent::PullRequestFileViewedUpdated { issue_id, path, viewed } => if s.is_item(*issue_id) {
            let tail = if *viewed { " viewed on GitHub" } else { " unviewed on GitHub" };
            Some(cat3("Marked ", chars_of_string(path).as_slice(), tail))
        } else {
            None
        },
        AppEvent::PullRequestFileViewedUpdateFailed { issue_id, path, message, .. } => if s.is_item(*issue_id) {
            let mut t = cat3("GitHub view state failed for ", chars_of_string(path).as_slice(), ": ");
            append_chars(&mut t, chars_of_string(message).as_slice());
            Some(t)
        } else {
            None
        },
        AppEvent::LinkedPullRequestResolved { issue_number, pull_requests, target } => if pull_requests.len() == 0
            && *target != LinkedLookupTarget::Probe {
            Some(cat2("No linked pull request found for #", i64_text(*issue_number).as_slice()))
        } else {
            None
        },
        AppEvent::LinkedPullRequestLookupFailed { issue_number, message, target } => if *target
            != LinkedLookupTarget::Probe {
            let mut t = cat3("Linked pull request lookup failed for #", i64_text(*issue_number).as_slice(), " (");
            append_chars(&mut t, chars_of(label_of(*target)).as_slice());
            append_chars(&mut t, chars_of("): ").as_slice());
            append_chars(&mut t, chars_of_string(message).as_slice());
            Some(t)
        } else {
            None
        },
        AppEvent::LinkedIssueResolved { pull_number, issues, target } => if issues.len() == 0 && *target
            != LinkedLookupTarget::Probe {
            Some(cat2("No linked issue found for PR #", i64_text(*pull_number).as_slice()))
        } else {
            None
        },
        AppEvent::LinkedIssueLookupFailed { pull_number, message, target } => if *target != LinkedLookupTarget::Probe {
            let mut t = cat3("Linked issue lookup failed for PR #", i64_text(*pull_number).as_slice(), " (");
            append_chars(&mut t, chars_of(label_of(*target)).as_slice());
            append_chars(&mut t, chars_of("): ").as_slice());
            append_chars(&mut t, chars_of_string(message).as_slice());
            Some(t)
        } else {
            None
        },
        AppEvent::IssueCommentUpdated { issue_number, .. } => Some(
            cat3("#", i64_text(*issue_number).as_slice(), " comment updated"),
        ),
        AppEvent::IssueCommentDeleted { issue_number, .. } => Some(
            cat3("#", i64_text(*issue_number).as_slice(), " comment deleted"),
        ),
        AppEvent::RepoPermissionsResolved { owner, repo, can_edit_issue_metadata, .. } => if s.is_repo(owner, repo)
            && !*can_edit_issue_metadata {
            Some(chars_of("No permission to edit labels/assignees in this repo"))
        } else {
            None
        },
        AppEvent::RepoPermissionsFailed { owner, repo, message } => if s.is_repo(owner, repo) {
            Some(cat2("Repo permission check failed: ", chars_of_string(message).as_slice()))
        } else {
            None
        },
        _ => None,
    }
}

/// How a lookup target reads in a status line.
fn label_of(t: LinkedLookupTarget) -> (r: &'static str)
    ensures
        r@ == target_label(t),
{
    match t {
        LinkedLookupTarget::Tui => "TUI",
        LinkedLookupTarget::Browser => "browser",
        LinkedLookupTarget::Probe => "probe",
    }
}

/// Whether an update message ends the pending change on its item.
fn message_ends_pending(m: &[char]) -> (r: bool)
    ensures
        r == ends_pending(m@),
{
    starts_with_chars(m, chars_of("closed").as_slice()) || starts_with_chars(m, chars_of("close failed").as_slice())
        || starts_with_chars(m, chars_of("reopened").as_slice()) || starts_with_chars(
        m,
        chars_of("reopen failed").as_slice(),
    ) || starts_with_chars(m, chars_of("merged").as_slice()) || starts_with_chars(
        m,
        chars_of("merge failed").as_slice(),
    ) || starts_with_chars(m, chars_of("label update failed").as_slice()) || starts_with_chars(
        m,
        chars_of("assignee update failed").as_slice(),
    )
}

/// The state an update message marks its item with.
fn message_state_mark(m: &[char]) -> (r: Option<ItemStateMark>)
    ensures
        r == state_mark(m@),
{
    if starts_with_chars(m, chars_of("merged").as_slice()) {
        Some(ItemStateMark::Merged)
    } else if starts_with_chars(m, chars_of("reopened").as_slice()) {
        Some(ItemStateMark::Open)
    } else if starts_with_chars(m, chars_of("closed").as_slice()) {
        Some(ItemStateMark::Closed)
    } else {
        None
    }
}

/// The step after a linked lookup found `count` items, the first `first`.
fn linked_step(pull_requests: bool, count: usize, first: i64, t: LinkedLookupTarget) -> (r: FollowUp)
    ensures
        r == linked_follow_up(pull_requests, count as nat, first, t),
{
    if count == 0 || t == LinkedLookupTarget::Probe {
        FollowUp::Nothing
    } else if count > 1 {
        let target = if pull_requests {
            if t == LinkedLookupTarget::Browser {
                LinkedPickerTarget::PullRequestBrowser
            } else {
                LinkedPickerTarget::PullRequestTui
            }
        } else if t == LinkedLookupTarget::Browser {
            LinkedPickerTarget::IssueBrowser
        } else {
            LinkedPickerTarget::IssueTui
        };
        FollowUp::LinkedPicker(target)
    } else if t == LinkedLookupTarget::Tui {
        FollowUp::LinkedInTui(pull_requests, first)
    } else {
        FollowUp::LinkedInBrowser(pull_requests, first)
    }
}

/// The first number of a lookup's answer (0 when there is none).
fn first_of(v: &Vec<(i64, String)>) -> (r: i64)
    ensures
        r == first_number(v@),
{
    if v.len() > 0 {
        v[0].0
    } else {
        0
    }
}

/// What the event loop is asked to do after an event.
pub fn event_effects(s: &AppState, e: &AppEvent) -> (r: EventEffects)
    ensures
        r == effects_of(*s, *e),
{
    let n = none();
    match e {
        AppEvent::ReposUpdated => EventEffects { reload_repos: s.view == View::RepoPicker, ..n },
        AppEvent::SyncFinished { owner, repo, issues, not_modified } => if s.is_repo(owner, repo) {
            EventEffects {
                refresh_issues: true,
                request_labels_sync: true,
                follow_up: FollowUp::SyncCounts { issues: *issues, not_modified: *not_modified },
                ..n
            }
        } else {
            n
        },
        AppEvent::SyncProgress { owner, repo, page, issues } => if s.is_repo(owner, repo) {
            EventEffects { refresh_issues: true, follow_up: FollowUp::ProgressCounts { page: *page, issues: *issues }, ..n }
        } else {
            n
        },
        AppEvent::CommentsUpdated { issue_id, .. } => if s.is_item(*issue_id) {
            EventEffects { load_comments: Some(*issue_id), ..n }
        } else {
            n
        },
        AppEvent::IssueUpdated { issue_number, message } => {
            let m = chars_of_string(message);
            let ends = message_ends_pending(m.as_slice());
            let mark = match message_state_mark(m.as_slice()) {
                Some(k) => Some(StateMark { issue_number: *issue_number, state: k }),
                None => None,
            };
            EventEffects {
                clear_pending: if ends { Some(*issue_number) } else { None },
                mark_state: mark,
                request_sync: true,
                request_comment_sync: s.current_issue_number == Some(*issue_number),
                ..n
            }
        },
        AppEvent::IssueCreated { issue_number } => EventEffects {
            refresh_issues: true,
            request_sync: true,
            follow_up: FollowUp::OpenCreatedIssue(*issue_number),
            ..n
        },
        AppEvent::IssueLabelsUpdated { issue_number, .. } | AppEvent::IssueAssigneesUpdated { issue_number, .. } => EventEffects {
            clear_pending: Some(*issue_number),
            apply_payload: true,
            request_sync: true,
            ..n
        },
        AppEvent::PullRequestFilesUpdated { issue_id, .. } | AppEvent::PullRequestReviewCommentsUpdated { issue_id, .. }
        | AppEvent::PullRequestReviewCommentUpdated { issue_id, .. } | AppEvent::PullRequestReviewCommentDeleted {
            issue_id,
            ..
        } | AppEvent::PullRequestFileViewedUpdated { issue_id, .. } | AppEvent::PullRequestFileViewedUpdateFailed {
            issue_id,
            ..
        } => EventEffects { apply_payload: s.is_item(*issue_id), ..n },
        AppEvent::PullRequestReviewCommentCreated { issue_id } | AppEvent::PullRequestReviewThreadResolutionUpdated {
            issue_id,
            ..
        } => EventEffects { request_review_comments_sync: s.is_item(*issue_id), ..n },
        AppEvent::LinkedPullRequestResolved { pull_requests, target, .. } => EventEffects {
            apply_payload: true,
            follow_up: linked_step(true, pull_requests.len(), first_of(pull_requests), *target),
            ..n
        },
        AppEvent::LinkedIssueResolved { issues, target, .. } => EventEffects {
            apply_payload: true,
            follow_up: linked_step(false, issues.len(), first_of(issues), *target),
            ..n
        },
        AppEvent::LinkedPullRequestLookupFailed { .. } | AppEvent::LinkedIssueLookupFailed { .. } => EventEffects {
            apply_payload: true,
            ..n
        },
        AppEvent::IssueCommentUpdated { .. } | AppEvent::IssueCommentDeleted { .. } => EventEffects {
            apply_payload: true,
            request_comment_sync: true,
            request_sync: true,
            ..n
        },
        AppEvent::RepoLabelsSuggested { owner, repo, .. } => {
            let same = s.is_repo(owner, repo);
            EventEffects { apply_payload: same, offer_to_picker: same && s.view == View::LabelPicker, ..n }
        },
        AppEvent::RepoAssigneesSuggested { owner, repo, .. } => EventEffects {
            apply_payload: s.is_repo(owner, repo) && s.view == View::AssigneePicker,
            ..n
        },
        _ => n,
    }
}

/// The flags after an event.
fn new_flags(s: &AppState, e: &AppEvent) -> (r: EventFlags)
    ensures
        r == flags_after(*s, *e),
{
    let f = s.flags;
    match e {
        AppEvent::ScanFinished => EventFlags { scanning: false, ..f },
        AppEvent::SyncFinished { .. } | AppEvent::SyncFailed { .. } => EventFlags { syncing: false, ..f },
        AppEvent::CommentsUpdated { .. } | AppEvent::CommentsFailed { .. } => EventFlags { comment_syncing: false, ..f },
        AppEvent::PullRequestFilesUpdated { .. } | AppEvent::PullRequestFilesFailed { .. } => EventFlags {
            files_syncing: false,
            ..f
        },
        AppEvent::PullRequestReviewCommentsUpdated { .. } | AppEvent::PullRequestReviewCommentsFailed { .. } => EventFlags {
            review_comments_syncing: false,
            ..f
        },
        AppEvent::RepoLabelsSuggested { .. } => EventFlags { labels_syncing: false, ..f },
        AppEvent::RepoPermissionsResolved { owner, repo, can_edit_issue_metadata, can_merge_pull_request } => if s.is_repo(
            owner,
            repo,
        ) {
            EventFlags {
                permissions_syncing: false,
                metadata_editable: Some(*can_edit_issue_metadata),
                mergeable: Some(*can_merge_pull_request),
                ..f
            }
        } else {
            f
        },
        AppEvent::RepoPermissionsFailed { owner, repo, .. } => if s.is_repo(owner, repo) {
            EventFlags { permissions_syncing: false, metadata_editable: None, mergeable: None, ..f }
        } else {
            f
        },
        _ => f,
    }
}

/// Reads an event that background work reported: clears the flags of the
/// work that ended (`flags_after`), shows the status it calls for
/// (`status_after`), and says which reloads, requests and screen updates
/// the event loop performs next (`effects_of`). Nothing else of the state
/// changes.
pub fn apply_app_event(state: &mut AppState, event: &AppEvent) -> (r: EventEffects)
    ensures
        final(state).flags == flags_after(*old(state), *event),
        final(state).status@ == status_after(*old(state), old(state).status@, *event),
        *final(state) == (AppState { flags: final(state).flags, status: final(state).status, ..*old(state) }),
        r == effects_of(*old(state), *event),
{
    let r = event_effects(state, event);
    let flags = new_flags(state, event);
    let status = new_status(state, event);
    state.flags = flags;
    match status {
        Some(t) => {
            state.status = string_of(t.as_slice());
        },
        None => {},
    }
    r
}

/// " (open: o, closed: c)".
pub open spec fn counts_text(open: u64, closed: u64) -> Seq<char> {
    " (open: "@ + text::nat_text(open as nat) + ", closed: "@ + text::nat_text(closed as nat) + ")"@
}

/// The status a sync follow-up shows with the item counts after the
/// reload; none for other follow-ups.
pub open spec fn sync_status_spec(f: FollowUp, open: u64, closed: u64) -> Option<Seq<char>> {
    match f {
        FollowUp::SyncCounts { issues, not_modified } => Some(
            if not_modified {
                "No issue changes"@ + counts_text(open, closed)
            } else {
                "Synced "@ + text::nat_text(issues as nat) + " issues"@ + counts_text(open, closed)
            },
        ),
        FollowUp::ProgressCounts { page, issues } => Some(
            "Syncing page "@ + text::nat_text(page as nat) + ": "@ + text::nat_text(issues as nat) + " issues cached"@
                + counts_text(open, closed),
        ),
        _ => None,
    }
}

/// " (open: o, closed: c)".
fn counts_chars(open: u64, closed: u64) -> (r: Vec<char>)
    ensures
        r@ == counts_text(open, closed),
{
    let mut t = cat3(" (open: ", u64_text(open).as_slice(), ", closed: ");
    append_chars(&mut t, u64_text(closed).as_slice());
    append_chars(&mut t, chars_of(")").as_slice());
    t
}

/// The status of a sync follow-up, given the open and closed counts after
/// the reload.
pub fn sync_status(f: FollowUp, open: u64, closed: u64) -> (r: Option<String>)
    ensures
        match r {
            Some(t) => sync_status_spec(f, open, closed) == Some(t@),
            None => sync_status_spec(f, open, closed) is None,
        },
{
    match f {
        FollowUp::SyncCounts { issues, not_modified } => {
            let mut t = if not_modified {
                chars_of("No issue changes")
            } else {
                cat3("Synced ", u64_text(issues).as_slice(), " issues")
            };
            append_chars(&mut t, counts_chars(open, closed).as_slice());
            Some(string_of(t.as_slice()))
        },
        FollowUp::ProgressCounts { page, issues } => {
            let mut t = cat3("Syncing page ", u64_text(page).as_slice(), ": ");
            append_chars(&mut t, u64_text(issues).as_slice());
            append_chars(&mut t, chars_of(" issues cached").as_slice());
            append_chars(&mut t, counts_chars(open, closed).as_slice());
            Some(string_of(t.as_slice()))
        },
        _ => None,
    }
}

/// The status after the picker opened with `count` linked items for item
/// `number` (a pull request lookup for an issue when `pull_requests`).
pub open spec fn linked_picker_status_spec(pull_requests: bool, count: u64, number: i64) -> Seq<char> {
    if pull_requests {
        "Found "@ + text::nat_text(count as nat) + " linked pull requests for #"@ + text::int_text(number as int)
    } else {
        "Found "@ + text::nat_text(count as nat) + " linked issues for PR #"@ + text::int_text(number as int)
    }
}

/// The status after the picker of linked items opened.
pub fn linked_picker_status(pull_requests: bool, count: u64, number: i64) -> (r: String)
    ensures
        r@ == linked_picker_status_spec(pull_requests, count, number),
{
    let tail = if pull_requests { " linked pull requests for #" } else { " linked issues for PR #" };
    let mut t = cat3("Found ", u64_text(count).as_slice(), tail);
    append_chars(&mut t, i64_text(number).as_slice());
    string_of(t.as_slice())
}

/// The status after trying to open linked item `number` in the interface.
pub open spec fn linked_tui_status_spec(pull_request: bool, number: i64, opened: bool) -> Seq<char> {
    let n = text::int_text(number as int);
    if pull_request {
        if opened {
            "Opened linked pull request #"@ + n + " in TUI"@
        } else {
            "Linked PR #"@ + n + " not cached in TUI yet; press r then Shift+P"@
        }
    } else if opened {
        "Opened linked issue #"@ + n + " in TUI"@
    } else {
        "Linked issue #"@ + n + " not cached in TUI yet; press r then Shift+P"@
    }
}

/// The status after trying to open a linked item in the interface.
pub fn linked_tui_status(pull_request: bool, number: i64, opened: bool) -> (r: String)
    ensures
        r@ == linked_tui_status_spec(pull_request, number, opened),
{
    let head = if pull_request {
        if opened { "Opened linked pull request #" } else { "Linked PR #" }
    } else if opened {
        "Opened linked issue #"
    } else {
        "Linked issue #"
    };
    let tail = if opened { " in TUI" } else { " not cached in TUI yet; press r then Shift+P" };
    string_of(cat3(head, i64_text(number).as_slice(), tail).as_slice())
}

/// The address of the first answer with this number, if any.
pub open spec fn answer_url(answers: Seq<(i64, String)>, number: i64) -> Option<Seq<char>>
    decreases answers.len(),
{
    if answers.len() == 0 {
        None
    } else if answers[0].0 == number {
        Some(answers[0].1@)
    } else {
        answer_url(answers.drop_first(), number)
    }
}

/// The address a linked item opens at: the lookup's own address for it,
/// else its page in the repository in view, else none.
pub open spec fn linked_url_spec(s: AppState, pull_request: bool, answers: Seq<(i64, String)>, number: i64) -> Option<
    Seq<char>,
> {
    match answer_url(answers, number) {
        Some(u) => Some(u),
        None => match (s.current_owner, s.current_repo) {
            (Some(o), Some(r)) => Some(
                "https://github.com/"@ + o@ + "/"@ + r@ + if pull_request { "/pull/"@ } else { "/issues/"@ }
                    + text::int_text(number as int),
            ),
            _ => None,
        },
    }
}

/// The address a linked item opens at in the browser.
pub fn linked_url(s: &AppState, pull_request: bool, answers: &Vec<(i64, String)>, number: i64) -> (r: Option<String>)
    ensures
        match r {
            Some(u) => linked_url_spec(*s, pull_request, answers@, number) == Some(u@),
            None => linked_url_spec(*s, pull_request, answers@, number) is None,
        },
{
    let mut i: usize = 0;
    assert(answers@.skip(0) =~= answers@);
    while i < answers.len()
        invariant
            i <= answers.len(),
            answer_url(answers@, number) == answer_url(answers@.skip(i as int), number),
        decreases answers.len() - i,
    {
        assert(answers@.skip(i as int)[0] == answers@[i as int]);
        assert(answers@.skip(i as int).drop_first() =~= answers@.skip(i + 1));
        if answers[i].0 == number {
            return Some(answers[i].1.clone());
        }
        i = i + 1;
    }
    assert(answers@.skip(i as int) =~= Seq::<(i64, String)>::empty());
    match (&s.current_owner, &s.current_repo) {
        (Some(o), Some(r)) => {
            let mut t = cat3("https://github.com/", chars_of_string(o).as_slice(), "/");
            append_chars(&mut t, chars_of_string(r).as_slice());
            append_chars(&mut t, chars_of(if pull_request { "/pull/" } else { "/issues/" }).as_slice());
            append_chars(&mut t, i64_text(number).as_slice());
            Some(string_of(t.as_slice()))
        },
        _ => None,
    }
}

/// The status after trying to open linked item `number` in the browser:
/// no address, a failure to open it (with the error), or success.
pub open spec fn linked_browser_status_spec(pull_request: bool, number: i64, outcome: Option<Result<(), String>>) -> Seq<
    char,
> {
    let n = text::int_text(number as int);
    match outcome {
        None => if pull_request {
            "Linked PR #"@ + n + " found but URL unavailable"@
        } else {
            "Linked issue #"@ + n + " found but URL unavailable"@
        },
        Some(Err(e)) => if pull_request {
            "Open linked PR failed: "@ + e@
        } else {
            "Open linked issue failed: "@ + e@
        },
        Some(Ok(())) => if pull_request {
            "Opened linked pull request #"@ + n + " in browser"@
        } else {
            "Opened linked issue #"@ + n + " in browser"@
        },
    }
}

/// The status after trying to open a linked item in the browser.
pub fn linked_browser_status(pull_request: bool, number: i64, outcome: &Option<Result<(), String>>) -> (r: String)
    ensures
        r@ == linked_browser_status_spec(pull_request, number, *outcome),
{
    let t = match outcome {
        None => {
            let head = if pull_request { "Linked PR #" } else { "Linked issue #" };
            cat3(head, i64_text(number).as_slice(), " found but URL unavailable")
        },
        Some(Err(e)) => {
            let head = if pull_request { "Open linked PR failed: " } else { "Open linked issue failed: " };
            cat2(head, chars_of_string(e).as_slice())
        },
        Some(Ok(())) => {
            let head = if pull_request { "Opened linked pull request #" } else { "Opened linked issue #" };
            cat3(head, i64_text(number).as_slice(), " in browser")
        },
    };
    string_of(t.as_slice())
}
} // verus!
