use blippy::github::{
    item_url_matches_repo, merge_failure_message, merge_step, preferred_merge_methods,
    ApiPullRequestDetails, ApiRepoPermissions, MergeAttempt, MergeStep,
};

#[test]
fn linked_item_url_must_match_the_current_repo() {
    assert!(item_url_matches_repo(
        "https://github.com/acme/blippy/pull/20",
        "Acme",
        "Blippy",
        "pull",
        20,
    ));
    assert!(!item_url_matches_repo(
        "https://github.com/other/blippy/pull/20",
        "acme",
        "blippy",
        "pull",
        20,
    ));
}

#[test]
fn item_url_ignores_trailing_slashes_but_not_the_number() {
    assert!(item_url_matches_repo("https://github.com/acme/blippy/issues/7//", "acme", "blippy", "issues", 7));
    assert!(!item_url_matches_repo("https://github.com/acme/blippy/issues/70", "acme", "blippy", "issues", 7));
    assert!(!item_url_matches_repo("https://github.com/acme/blippy/pull/7", "acme", "blippy", "issues", 7));
}

#[test]
fn merge_methods_follow_repository_settings_in_order() {
    let all = ApiPullRequestDetails {
        merge_commit_allowed: true,
        squash_merge_allowed: true,
        rebase_merge_allowed: true,
    };
    assert_eq!(preferred_merge_methods(&all), vec!["merge", "squash", "rebase"]);
    let squash_only = ApiPullRequestDetails {
        merge_commit_allowed: false,
        squash_merge_allowed: true,
        rebase_merge_allowed: false,
    };
    assert_eq!(preferred_merge_methods(&squash_only), vec!["squash"]);
    let none = ApiPullRequestDetails {
        merge_commit_allowed: false,
        squash_merge_allowed: false,
        rebase_merge_allowed: false,
    };
    assert!(preferred_merge_methods(&none).is_empty());
}

#[test]
fn permissions_decide_metadata_edits_and_merges() {
    let triage = ApiRepoPermissions { pull: true, triage: true, push: false, maintain: false, admin: false };
    assert!(triage.can_edit_issue_metadata());
    assert!(!triage.can_merge_pull_requests());
    let read_only = ApiRepoPermissions { pull: true, triage: false, push: false, maintain: false, admin: false };
    assert!(!read_only.can_edit_issue_metadata());
    assert!(!read_only.can_merge_pull_requests());
    let push = ApiRepoPermissions { pull: true, triage: false, push: true, maintain: false, admin: false };
    assert!(push.can_merge_pull_requests());
}

fn attempt(success: bool, merged: bool, message: &str, api_error: Option<&str>, body: &str) -> MergeAttempt {
    MergeAttempt {
        success,
        status: "405 Method Not Allowed".to_string(),
        merged,
        message: message.to_string(),
        api_error: api_error.map(|s| s.to_string()),
        body: body.to_string(),
    }
}

#[test]
fn merge_step_reads_each_kind_of_reply() {
    assert_eq!(merge_step(&attempt(true, true, "", None, "")), MergeStep::Merged);
    assert_eq!(
        merge_step(&attempt(true, false, "Base branch was modified", None, "")),
        MergeStep::Failed("Base branch was modified".to_string())
    );
    assert_eq!(
        merge_step(&attempt(true, false, "", None, "")),
        MergeStep::Failed("GitHub merge endpoint returned 405 Method Not Allowed".to_string())
    );
    assert_eq!(
        merge_step(&attempt(false, false, "", Some("Merge method not allowed"), "{}")),
        MergeStep::Failed("Merge method not allowed".to_string())
    );
    assert_eq!(
        merge_step(&attempt(false, false, "", None, "  plain failure \n")),
        MergeStep::Failed("plain failure".to_string())
    );
    assert_eq!(
        merge_step(&attempt(false, false, "", None, "   ")),
        MergeStep::Failed("GitHub merge endpoint returned 405 Method Not Allowed".to_string())
    );
}

#[test]
fn merge_failure_message_falls_back_to_merge_failed() {
    assert_eq!(merge_failure_message(""), "merge failed");
    assert_eq!(merge_failure_message("conflict"), "conflict");
}
