use blippy::app::PendingIssueAction;
use blippy::pending::PendingIssueActions;

#[test]
fn badges_show_the_change_under_way() {
    let mut pending = PendingIssueActions::new();
    assert_eq!(pending.pending_issue_badge(88), None);
    pending.set_pending_issue_action(88, PendingIssueAction::Closing);
    pending.set_pending_issue_action(90, PendingIssueAction::UpdatingLabels);
    assert_eq!(pending.pending_issue_badge(88), Some("closing"));
    pending.set_pending_issue_action(88, PendingIssueAction::Reopening);
    assert_eq!(pending.pending_issue_badge(88), Some("reopening"));
    pending.clear_pending_issue_action(88);
    assert_eq!(pending.pending_issue_badge(88), None);
    assert_eq!(pending.pending_issue_badge(90), Some("updating labels"));
    pending.set_pending_issue_action(91, PendingIssueAction::UpdatingAssignees);
    assert_eq!(pending.pending_issue_badge(91), Some("updating assignees"));
}
