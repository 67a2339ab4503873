use blippy::app::{PendingIssueAction, View, WorkItemMode};
use blippy::issue_list::IssueList;
use blippy::issues::IssueRow;
use blippy::pending::PendingIssueActions;
use blippy::events::{
    apply_app_event, linked_browser_status, linked_picker_status, linked_tui_status, linked_url, sync_status, AppEvent,
    AppState, EventFlags, FollowUp, ItemStateMark, LinkedLookupTarget, StateMark,
};
use blippy::linked::LinkedPickerTarget;

fn flags() -> EventFlags {
    EventFlags {
        scanning: true,
        syncing: true,
        comment_syncing: true,
        files_syncing: true,
        review_comments_syncing: true,
        labels_syncing: true,
        permissions_syncing: true,
        metadata_editable: None,
        mergeable: None,
    }
}

fn state(view: View) -> AppState {
    AppState {
        view,
        current_owner: Some("acme".to_string()),
        current_repo: Some("blippy".to_string()),
        current_issue_id: Some(7),
        current_issue_number: Some(42),
        flags: flags(),
        status: "before".to_string(),
    }
}

#[test]
fn sync_finished_clears_syncing_and_reloads_the_repo_in_view() {
    let mut s = state(View::Issues);
    let fx = apply_app_event(
        &mut s,
        &AppEvent::SyncFinished { owner: "acme".to_string(), repo: "blippy".to_string(), issues: 12, not_modified: false },
    );
    assert!(!s.flags.syncing);
    assert!(fx.refresh_issues && fx.request_labels_sync);
    assert_eq!(fx.follow_up, FollowUp::SyncCounts { issues: 12, not_modified: false });
    assert_eq!(sync_status(fx.follow_up, 3, 9).as_deref(), Some("Synced 12 issues (open: 3, closed: 9)"));
    assert_eq!(
        sync_status(FollowUp::SyncCounts { issues: 0, not_modified: true }, 3, 9).as_deref(),
        Some("No issue changes (open: 3, closed: 9)")
    );
    assert_eq!(
        sync_status(FollowUp::ProgressCounts { page: 2, issues: 150 }, 100, 50).as_deref(),
        Some("Syncing page 2: 150 issues cached (open: 100, closed: 50)")
    );
    assert_eq!(s.status, "before");

    let mut other = state(View::Issues);
    let fx = apply_app_event(
        &mut other,
        &AppEvent::SyncFinished { owner: "acme".to_string(), repo: "other".to_string(), issues: 1, not_modified: false },
    );
    assert!(!other.flags.syncing);
    assert!(!fx.refresh_issues);
    assert_eq!(fx.follow_up, FollowUp::Nothing);
}

#[test]
fn issue_updates_clear_the_badge_and_mark_merged_items() {
    let mut s = state(View::Issues);
    let fx = apply_app_event(&mut s, &AppEvent::IssueUpdated { issue_number: 42, message: "merged via squash".to_string() });
    assert_eq!(fx.clear_pending, Some(42));
    assert_eq!(fx.mark_state, Some(StateMark { issue_number: 42, state: ItemStateMark::Merged }));
    assert!(fx.request_sync && fx.request_comment_sync);
    assert_eq!(s.status, "#42 merged via squash");

    let fx = apply_app_event(&mut s, &AppEvent::IssueUpdated { issue_number: 5, message: "comment posted".to_string() });
    assert_eq!(fx.clear_pending, None);
    assert_eq!(fx.mark_state, None);
    assert!(!fx.request_comment_sync);
    assert_eq!(s.status, "#5 comment posted");
}

#[test]
fn events_for_other_items_leave_the_status() {
    let mut s = state(View::PullRequestFiles);
    let fx = apply_app_event(&mut s, &AppEvent::PullRequestFilesFailed { issue_id: 8, message: "boom".to_string() });
    assert!(!s.flags.files_syncing);
    assert_eq!(s.status, "before");
    assert!(!fx.apply_payload);
    apply_app_event(&mut s, &AppEvent::PullRequestFilesFailed { issue_id: 7, message: "boom".to_string() });
    assert_eq!(s.status, "PR files unavailable: boom");
    let fx = apply_app_event(
        &mut s,
        &AppEvent::PullRequestFileViewedUpdated { issue_id: 7, path: "src/a.rs".to_string(), viewed: true },
    );
    assert!(fx.apply_payload);
    assert_eq!(s.status, "Marked src/a.rs viewed on GitHub");
}

#[test]
fn linked_lookups_pick_the_next_step() {
    let mut s = state(View::Issues);
    let fx = apply_app_event(
        &mut s,
        &AppEvent::LinkedPullRequestResolved { issue_number: 42, pull_requests: vec![], target: LinkedLookupTarget::Tui },
    );
    assert_eq!(fx.follow_up, FollowUp::Nothing);
    assert_eq!(s.status, "No linked pull request found for #42");
    let answers = vec![(9, "https://x/9".to_string()), (10, String::new())];
    let fx = apply_app_event(
        &mut s,
        &AppEvent::LinkedPullRequestResolved { issue_number: 42, pull_requests: answers.clone(), target: LinkedLookupTarget::Browser },
    );
    assert_eq!(fx.follow_up, FollowUp::LinkedPicker(LinkedPickerTarget::PullRequestBrowser));
    assert_eq!(linked_picker_status(true, 2, 42), "Found 2 linked pull requests for #42");
    let fx = apply_app_event(
        &mut s,
        &AppEvent::LinkedIssueResolved { pull_number: 9, issues: vec![(3, String::new())], target: LinkedLookupTarget::Tui },
    );
    assert_eq!(fx.follow_up, FollowUp::LinkedInTui(false, 3));
    assert_eq!(linked_tui_status(false, 3, true), "Opened linked issue #3 in TUI");
    assert_eq!(linked_tui_status(true, 9, false), "Linked PR #9 not cached in TUI yet; press r then Shift+P");
    assert_eq!(linked_url(&s, true, &answers, 9).as_deref(), Some("https://x/9"));
    assert_eq!(linked_url(&s, true, &answers, 11).as_deref(), Some("https://github.com/acme/blippy/pull/11"));
    assert_eq!(linked_browser_status(true, 9, &Some(Ok(()))), "Opened linked pull request #9 in browser");
    assert_eq!(linked_browser_status(false, 3, &None), "Linked issue #3 found but URL unavailable");
    apply_app_event(
        &mut s,
        &AppEvent::LinkedIssueLookupFailed { pull_number: 9, message: "timeout".to_string(), target: LinkedLookupTarget::Browser },
    );
    assert_eq!(s.status, "Linked issue lookup failed for PR #9 (browser): timeout");
}

#[test]
fn permissions_are_recorded_for_the_repo_in_view() {
    let mut s = state(View::Issues);
    apply_app_event(
        &mut s,
        &AppEvent::RepoPermissionsResolved {
            owner: "acme".to_string(),
            repo: "blippy".to_string(),
            can_edit_issue_metadata: false,
            can_merge_pull_request: true,
        },
    );
    assert_eq!(s.flags.metadata_editable, Some(false));
    assert_eq!(s.flags.mergeable, Some(true));
    assert!(!s.flags.permissions_syncing);
    assert_eq!(s.status, "No permission to edit labels/assignees in this repo");
    let mut r = state(View::RepoPicker);
    apply_app_event(&mut r, &AppEvent::ScanFinished);
    assert!(!r.flags.scanning);
    assert_eq!(r.status, "");
}

#[test]
fn issue_updated_marks_pull_request_merged() {
    let mut list = IssueList::new();
    list.set_work_item_mode(WorkItemMode::PullRequests);
    list.set_issues(vec![IssueRow {
        id: 33,
        repo_id: 1,
        number: 92,
        state: "open".to_string(),
        title: "PR".to_string(),
        body: String::new(),
        labels: String::new(),
        assignees: String::new(),
        comments_count: 0,
        updated_at: None,
        is_pr: true,
    }]);
    let mut pending = PendingIssueActions::new();
    pending.set_pending_issue_action(92, PendingIssueAction::Merging);
    let mut s = state(View::Issues);

    let fx = apply_app_event(&mut s, &AppEvent::IssueUpdated { issue_number: 92, message: "merged".to_string() });
    if let Some(n) = fx.clear_pending {
        pending.clear_pending_issue_action(n);
    }
    if let Some(mark) = fx.mark_state {
        let state = match mark.state {
            ItemStateMark::Open => "open",
            ItemStateMark::Closed => "closed",
            ItemStateMark::Merged => "merged",
        };
        list.update_issue_state_by_number(mark.issue_number, state);
    }

    assert_eq!(pending.pending_issue_badge(92), None);
    let merged_state = list.issues().iter().find(|issue| issue.number == 92).map(|issue| issue.state.as_str());
    assert_eq!(merged_state, Some("merged"));
}
