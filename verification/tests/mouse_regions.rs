use blippy::app::{AppAction, IssueFilter, ReviewSide, View};
use blippy::issue_list::IssueList;
use blippy::issues::IssueRow;
use blippy::mouse::{
    click_command, horizontal_scroll_delta, scroll_plan, ClickCommand, MouseRegions, MouseTarget, ScrollFocus,
    ScrollPlan,
};
use blippy::picker::OptionPicker;

#[test]
fn mouse_click_repo_picker_region_opens_repo_picker() {
    let mut regions = MouseRegions::new();
    regions.register_mouse_region(MouseTarget::RepoPicker, 0, 0, 8, 1);
    let target = regions.mouse_target_at(1, 0);
    assert_eq!(target, Some(MouseTarget::RepoPicker));
    assert_eq!(click_command(View::Issues, target, false), ClickCommand::OpenRepoPicker);
}

#[test]
fn mouse_back_click_navigates_to_previous_view() {
    let mut regions = MouseRegions::new();
    regions.register_mouse_region(MouseTarget::Back, 0, 0, 12, 3);
    let target = regions.mouse_target_at(2, 1);
    assert_eq!(target, Some(MouseTarget::Back));
    assert_eq!(click_command(View::PullRequestFiles, target, false), ClickCommand::BackFromPullRequestFiles);
    assert_eq!(click_command(View::IssueComments, target, false), ClickCommand::ShowView(View::IssueDetail));
}

#[test]
fn mouse_click_issue_row_selects_and_opens_issue() {
    let mut list = IssueList::new();
    list.set_issues(vec![IssueRow {
        id: 1,
        repo_id: 1,
        number: 12,
        state: "open".to_string(),
        title: "Issue".to_string(),
        body: String::new(),
        labels: String::new(),
        assignees: String::new(),
        comments_count: 0,
        updated_at: None,
        is_pr: false,
    }]);
    let mut regions = MouseRegions::new();
    regions.register_mouse_region(MouseTarget::IssueRow(0), 0, 0, 50, 2);
    match regions.mouse_target_at(1, 1) {
        Some(MouseTarget::IssueRow(index)) => list.select_issue_row(index),
        other => panic!("unexpected target {:?}", other),
    }
    assert_eq!(list.selected_issue_row().map(|issue| issue.number), Some(12));
}

#[test]
fn later_regions_cover_earlier_ones_and_edges_are_exclusive() {
    let mut regions = MouseRegions::new();
    regions.register_mouse_region(MouseTarget::PullRequestDiffPane, 0, 0, 100, 40);
    regions.register_mouse_region(MouseTarget::PullRequestDiffRow(3, ReviewSide::Left), 0, 3, 100, 1);
    regions.register_mouse_region(MouseTarget::Back, 5, 5, 0, 4);
    assert_eq!(regions.mouse_target_at(10, 3), Some(MouseTarget::PullRequestDiffRow(3, ReviewSide::Left)));
    assert_eq!(regions.mouse_target_at(10, 4), Some(MouseTarget::PullRequestDiffPane));
    assert_eq!(regions.mouse_target_at(6, 6), Some(MouseTarget::PullRequestDiffPane));
    assert_eq!(regions.mouse_target_at(100, 0), None);
    assert_eq!(regions.mouse_target_at(0, 40), None);

    regions.register_mouse_region(MouseTarget::LabelApply, 65530, 65530, 100, 100);
    assert_eq!(regions.mouse_target_at(65534, 65534), Some(MouseTarget::LabelApply));
    assert_eq!(regions.mouse_target_at(65535, 65534), None);

    regions.clear_mouse_regions();
    assert_eq!(regions.mouse_target_at(10, 3), None);
}

#[test]
fn clicking_a_listed_option_toggles_it() {
    let mut picker = OptionPicker::new();
    picker.open(vec!["bug".to_string(), "docs".to_string()], "bug");
    assert!(picker.click_option(1));
    assert_eq!(picker.cursor(), 1);
    assert_eq!(picker.selected_values(), vec!["bug".to_string(), "docs".to_string()]);
    assert!(picker.click_option(0));
    assert_eq!(picker.selected_values(), vec!["docs".to_string()]);
    assert!(!picker.click_option(2));
    assert_eq!(picker.cursor(), 0);
}

#[test]
fn mouse_click_linked_pr_buttons_trigger_actions() {
    let mut regions = MouseRegions::new();
    regions.register_mouse_region(MouseTarget::LinkedPullRequestTuiButton, 0, 0, 16, 1);
    regions.register_mouse_region(MouseTarget::LinkedPullRequestWebButton, 0, 1, 10, 1);
    regions.register_mouse_region(MouseTarget::LinkedIssueTuiButton, 0, 2, 16, 1);
    regions.register_mouse_region(MouseTarget::LinkedIssueWebButton, 0, 3, 10, 1);
    let expected = [
        AppAction::OpenLinkedPullRequestInTui,
        AppAction::OpenLinkedPullRequestInBrowser,
        AppAction::OpenLinkedIssueInTui,
        AppAction::OpenLinkedIssueInBrowser,
    ];
    for (row, action) in expected.iter().enumerate() {
        let target = regions.mouse_target_at(1, row as u16);
        assert_eq!(click_command(View::Issues, target, false), ClickCommand::PreviewAction(*action));
    }
}

#[test]
fn clicks_and_scrolls_follow_the_region() {
    assert_eq!(click_command(View::Issues, None, false), ClickCommand::Nothing);
    assert_eq!(
        click_command(View::Issues, Some(MouseTarget::IssueTabClosed), false),
        ClickCommand::SetIssueFilter(IssueFilter::Closed)
    );
    assert_eq!(click_command(View::IssueDetail, Some(MouseTarget::IssueSidePane), true), ClickCommand::ShowChanges);
    assert_eq!(click_command(View::IssueDetail, Some(MouseTarget::IssueSidePane), false), ClickCommand::OpenFullComments);
    assert_eq!(
        click_command(View::PullRequestFiles, Some(MouseTarget::PullRequestDiffRow(2, ReviewSide::Left)), false),
        ClickCommand::SelectDiffRow(2, ReviewSide::Left)
    );
    assert_eq!(click_command(View::LabelPicker, Some(MouseTarget::LabelApply), false), ClickCommand::Action(AppAction::SubmitLabels));
    assert_eq!(click_command(View::Issues, Some(MouseTarget::Back), false), ClickCommand::Nothing);

    assert_eq!(scroll_plan(View::Issues, Some(MouseTarget::RepoRow(1))), ScrollPlan { focus: None, moves: false });
    assert_eq!(scroll_plan(View::RepoPicker, Some(MouseTarget::RepoRow(1))), ScrollPlan { focus: None, moves: true });
    assert_eq!(
        scroll_plan(View::Issues, Some(MouseTarget::IssuesPreviewPane)),
        ScrollPlan { focus: Some(ScrollFocus::IssuesPreview), moves: true }
    );
    assert_eq!(scroll_plan(View::Issues, None), ScrollPlan { focus: None, moves: false });
    assert_eq!(horizontal_scroll_delta(Some(MouseTarget::PullRequestDiffPane), true), Some(4));
    assert_eq!(horizontal_scroll_delta(Some(MouseTarget::PullRequestDiffRow(0, ReviewSide::Right)), false), Some(-4));
    assert_eq!(horizontal_scroll_delta(Some(MouseTarget::PullRequestFilesPane), true), None);
}
