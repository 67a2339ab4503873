//! What the data an event carries does to the screens and the link cache:
//! loaded files and review comments, edited and deleted comments, viewed
//! marks, found links and suggested labels and assignees.
use vstd::prelude::*;

use crate::events::{effects_of, AppEvent, AppState};
use crate::issue_detail::{first_with_id, selected_after_removal, IssueDetailView};
use crate::issue_list::{with_assignees, with_labels};
use crate::issues::IssueRow;
use crate::linked::{with_issues, with_pull_requests, LinkedState, LinkedView};
use crate::picker::{key_sorted_arrangement, merged_options};
use crate::review::{
    has_file, loaded, opt_view, patches_fit, patches_fit_check, sort_comments, synced, with_body, without_id, ReviewView,
};
use crate::screens::Screens;
use crate::text;
use vstd::view::View as _;

verus! {

/// The numbers of found links, without their addresses.
pub open spec fn link_numbers(v: Seq<(i64, String)>) -> Seq<i64> {
    v.map_values(|p: (i64, String)| p.0)
}

/// The names of suggested labels, without their colours.
pub open spec fn label_names(v: Seq<(String, String)>) -> Seq<Seq<char>> {
    v.map_values(|p: (String, String)| p.0@)
}

/// Only the review of `a` differs in `b`.
pub open spec fn review_only(a: Screens, b: Screens) -> bool {
    b == Screens { review: b.review, ..a }
}

/// The mark of the file at `path` is `viewed`, the others and the rest of
/// the review are as they were.
pub open spec fn marked(a: ReviewView, b: ReviewView, path: Seq<char>, viewed: bool) -> bool {
    &&& forall|x: Seq<char>| #[trigger] b.viewed.contains(x) <==> if x == path { viewed } else { a.viewed.contains(x) }
    &&& b == (ReviewView { viewed: b.viewed, ..a })
}

/// A failed viewed update undoes the mark made when it was asked for: a
/// file whose mark was flipped to `viewed`, then marked back to `!viewed`
/// on the failure, has every mark and the rest of the review as before.
pub proof fn lemma_failed_viewed_update_restores(a: ReviewView, b: ReviewView, c: ReviewView, path: Seq<char>, viewed: bool)
    requires
        a.viewed.contains(path) == !viewed,
        marked(a, b, path, viewed),
        marked(b, c, path, !viewed),
    ensures
        forall|x: Seq<char>| #[trigger] c.viewed.contains(x) == a.viewed.contains(x),
        c == (ReviewView { viewed: c.viewed, ..a }),
{
    assert forall|x: Seq<char>| #[trigger] c.viewed.contains(x) == a.viewed.contains(x) by {
        assert(c.viewed.contains(x) <==> if x == path { !viewed } else { b.viewed.contains(x) });
        assert(b.viewed.contains(x) <==> if x == path { viewed } else { a.viewed.contains(x) });
    }
}

/// Whether the event hands data to the screens or the link cache in state
/// `s`; loaded files only when every diff can be read.
pub open spec fn payload_applied(s: AppState, e: AppEvent) -> bool {
    effects_of(s, e).apply_payload && match e {
        AppEvent::PullRequestFilesUpdated { files, .. } => patches_fit(files@),
        AppEvent::RepoLabelsSuggested { .. } => effects_of(s, e).offer_to_picker,
        _ => true,
    }
}

/// Hands the data of `event`, read in state `state` (before the event),
/// to the screen it is for, when `effects_of` says it applies: changed
/// files and their viewed marks, review comments loaded, edited or
/// deleted, a file marked viewed (or, when that failed on GitHub, back to
/// what it was), found links cached and ended lookups, labels and
/// assignees of an item, comments edited or deleted and the item's comment
/// count, and suggested labels and assignees offered in the open picker.
/// Files whose diffs cannot be read are not loaded. Whether anything was
/// handed on; when not, nothing changes.
pub fn apply_event_payload(screens: &mut Screens, links: &mut LinkedState, state: &AppState, event: AppEvent) -> (applied: bool)
    requires
        old(screens).wf(),
    ensures
        final(screens).wf(),
        applied == payload_applied(*state, event),
        !applied ==> *final(screens) == *old(screens) && final(links)@ == old(links)@,
        applied ==> match event {
            AppEvent::PullRequestFilesUpdated { issue_id, files, pull_request_id, viewed_files } => {
                let mid = loaded(old(screens).review@, issue_id, files@);
                &&& review_only(*old(screens), *final(screens))
                &&& final(screens).review@ == (ReviewView {
                    pull_request_id: opt_view(pull_request_id),
                    viewed: final(screens).review@.viewed,
                    ..mid
                })
                &&& forall|x: Seq<char>| #[trigger] final(screens).review@.viewed.contains(x) <==> (text::string_views(
                    viewed_files@,
                ).contains(x) && has_file(mid.files, x))
                &&& final(links)@ == old(links)@
            },
            AppEvent::PullRequestReviewCommentsUpdated { comments, .. } => {
                &&& review_only(*old(screens), *final(screens))
                &&& final(screens).review@ == synced(ReviewView { comments: sort_comments(comments@), ..old(screens).review@ })
                &&& final(links)@ == old(links)@
            },
            AppEvent::PullRequestReviewCommentUpdated { comment_id, body, .. } => {
                &&& review_only(*old(screens), *final(screens))
                &&& with_body(old(screens).review@.comments, comment_id, body@, final(screens).review@.comments)
                &&& final(screens).review@ == (ReviewView { comments: final(screens).review@.comments, ..old(screens).review@ })
                &&& final(links)@ == old(links)@
            },
            AppEvent::PullRequestReviewCommentDeleted { comment_id, .. } => {
                let removed = ReviewView { comments: without_id(old(screens).review@.comments, comment_id), ..old(screens).review@ };
                &&& review_only(*old(screens), *final(screens))
                &&& final(screens).review@ == if old(screens).review@.selected_comment == Some(comment_id) {
                    synced(ReviewView { selected_comment: None, ..removed })
                } else {
                    removed
                }
                &&& final(links)@ == old(links)@
            },
            AppEvent::PullRequestFileViewedUpdated { path, viewed, .. } => {
                &&& review_only(*old(screens), *final(screens))
                &&& marked(old(screens).review@, final(screens).review@, path@, viewed)
                &&& final(links)@ == old(links)@
            },
            AppEvent::PullRequestFileViewedUpdateFailed { path, viewed, .. } => {
                &&& review_only(*old(screens), *final(screens))
                &&& marked(old(screens).review@, final(screens).review@, path@, !viewed)
                &&& final(links)@ == old(links)@
            },
            AppEvent::LinkedPullRequestResolved { issue_number, pull_requests, .. } => {
                &&& *final(screens) == *old(screens)
                &&& final(links)@ == with_pull_requests(old(links)@, issue_number, link_numbers(pull_requests@))
            },
            AppEvent::LinkedIssueResolved { pull_number, issues, .. } => {
                &&& *final(screens) == *old(screens)
                &&& final(links)@ == with_issues(old(links)@, pull_number, link_numbers(issues@))
            },
            AppEvent::LinkedPullRequestLookupFailed { issue_number, .. } => {
                &&& *final(screens) == *old(screens)
                &&& final(links)@ == (LinkedView {
                    pull_request_lookups: old(links)@.pull_request_lookups.remove(issue_number),
                    ..old(links)@
                })
            },
            AppEvent::LinkedIssueLookupFailed { pull_number, .. } => {
                &&& *final(screens) == *old(screens)
                &&& final(links)@ == (LinkedView { issue_lookups: old(links)@.issue_lookups.remove(pull_number), ..old(links)@ })
            },
            AppEvent::IssueLabelsUpdated { issue_number, labels } => {
                &&& *final(screens) == (Screens { issues: final(screens).issues, ..*old(screens) })
                &&& final(screens).issues.issues_view().len() == old(screens).issues.issues_view().len()
                &&& forall|i: int|
                    0 <= i < old(screens).issues.issues_view().len() ==> if old(screens).issues.issues_view()[i].number
                        == issue_number {
                        with_labels(
                            old(screens).issues.issues_view()[i],
                            #[trigger] final(screens).issues.issues_view()[i],
                            labels@,
                        )
                    } else {
                        final(screens).issues.issues_view()[i] == old(screens).issues.issues_view()[i]
                    }
                &&& final(links)@ == old(links)@
            },
            AppEvent::IssueAssigneesUpdated { issue_number, assignees } => {
                &&& *final(screens) == (Screens { issues: final(screens).issues, ..*old(screens) })
                &&& final(screens).issues.issues_view().len() == old(screens).issues.issues_view().len()
                &&& forall|i: int|
                    0 <= i < old(screens).issues.issues_view().len() ==> if old(screens).issues.issues_view()[i].number
                        == issue_number {
                        with_assignees(
                            old(screens).issues.issues_view()[i],
                            #[trigger] final(screens).issues.issues_view()[i],
                            assignees@,
                        )
                    } else {
                        final(screens).issues.issues_view()[i] == old(screens).issues.issues_view()[i]
                    }
                &&& final(links)@ == old(links)@
            },
            AppEvent::IssueCommentUpdated { comment_id, body, .. } => {
                let cs = old(screens).detail@.comments;
                &&& *final(screens) == (Screens { detail: final(screens).detail, ..*old(screens) })
                &&& first_with_id(cs, comment_id) is None ==> final(screens).detail@ == old(screens).detail@
                &&& first_with_id(cs, comment_id) matches Some(p) ==> {
                    &&& final(screens).detail@.comments == cs.update(p, final(screens).detail@.comments[p])
                    &&& final(screens).detail@.comments[p].body@ == body@
                    &&& final(screens).detail@.comments[p].id == cs[p].id
                    &&& final(screens).detail@ == (IssueDetailView { comments: final(screens).detail@.comments, ..old(screens).detail@ })
                }
                &&& final(links)@ == old(links)@
            },
            AppEvent::IssueCommentDeleted { issue_number, comment_id, count } => {
                let cs = old(screens).detail@.comments;
                &&& *final(screens) == (Screens {
                    detail: final(screens).detail,
                    issues: final(screens).issues,
                    ..*old(screens)
                })
                &&& first_with_id(cs, comment_id) is None ==> final(screens).detail@ == old(screens).detail@
                &&& first_with_id(cs, comment_id) is Some ==> ({
                    let p = first_with_id(cs, comment_id)->0;
                    let rest = cs.remove(p);
                    final(screens).detail@ == (IssueDetailView {
                        comments: rest,
                        selected: selected_after_removal(old(screens).detail@.selected, p, rest.len() as int),
                        comments_scroll: if rest.len() == 0 { 0 } else { old(screens).detail@.comments_scroll },
                        ..old(screens).detail@
                    })
                })
                &&& final(screens).issues.issues_view().len() == old(screens).issues.issues_view().len()
                &&& forall|i: int|
                    0 <= i < old(screens).issues.issues_view().len() ==> #[trigger] final(screens).issues.issues_view()[i]
                        == if old(screens).issues.issues_view()[i].number == issue_number {
                        (IssueRow { comments_count: count as i64, ..old(screens).issues.issues_view()[i] })
                    } else {
                        old(screens).issues.issues_view()[i]
                    }
                &&& final(screens).issues.listed() == old(screens).issues.listed()
                &&& final(links)@ == old(links)@
            },
            AppEvent::RepoLabelsSuggested { labels, .. } => {
                &&& *final(screens) == (Screens { labels: final(screens).labels, ..*old(screens) })
                &&& key_sorted_arrangement(
                    final(screens).labels.options_view(),
                    merged_options(old(screens).labels.options_view(), label_names(labels@)),
                )
                &&& final(screens).labels.selection() == old(screens).labels.selection()
                &&& final(links)@ == old(links)@
            },
            AppEvent::RepoAssigneesSuggested { assignees, .. } => {
                &&& *final(screens) == (Screens { assignees: final(screens).assignees, ..*old(screens) })
                &&& key_sorted_arrangement(
                    final(screens).assignees.options_view(),
                    merged_options(old(screens).assignees.options_view(), text::string_views(assignees@)),
                )
                &&& final(screens).assignees.selection() == old(screens).assignees.selection()
                &&& final(links)@ == old(links)@
            },
            _ => true,
        },
{
    let effects = crate::events::event_effects(state, &event);
    if !effects.apply_payload {
        return false;
    }
    match event {
        AppEvent::PullRequestFilesUpdated { issue_id, files, pull_request_id, viewed_files } => {
            if !patches_fit_check(&files) {
                return false;
            }
            screens.review.set_pull_request_files(issue_id, files);
            screens.review.set_pull_request_view_state(pull_request_id, viewed_files);
            true
        },
        AppEvent::PullRequestReviewCommentsUpdated { comments, .. } => {
            screens.review.set_pull_request_review_comments(comments);
            true
        },
        AppEvent::PullRequestReviewCommentUpdated { comment_id, body, .. } => {
            screens.review.update_pull_request_review_comment_body_by_id(comment_id, body.as_str());
            true
        },
        AppEvent::PullRequestReviewCommentDeleted { comment_id, .. } => {
            screens.review.remove_pull_request_review_comment_by_id(comment_id);
            true
        },
        AppEvent::PullRequestFileViewedUpdated { path, viewed, .. } => {
            screens.review.set_pull_request_file_viewed(path.as_str(), viewed);
            true
        },
        AppEvent::PullRequestFileViewedUpdateFailed { path, viewed, .. } => {
            screens.review.set_pull_request_file_viewed(path.as_str(), !viewed);
            true
        },
        AppEvent::LinkedPullRequestResolved { issue_number, pull_requests, .. } => {
            links.set_linked_pull_requests(issue_number, numbers_of(&pull_requests));
            true
        },
        AppEvent::LinkedIssueResolved { pull_number, issues, .. } => {
            links.set_linked_issues_for_pull_request(pull_number, numbers_of(&issues));
            true
        },
        AppEvent::LinkedPullRequestLookupFailed { issue_number, .. } => {
            links.end_linked_pull_request_lookup(issue_number);
            true
        },
        AppEvent::LinkedIssueLookupFailed { pull_number, .. } => {
            links.end_linked_issue_lookup(pull_number);
            true
        },
        AppEvent::IssueLabelsUpdated { issue_number, labels } => {
            screens.issues.update_issue_labels_by_number(issue_number, labels.as_str());
            true
        },
        AppEvent::IssueAssigneesUpdated { issue_number, assignees } => {
            screens.issues.update_issue_assignees_by_number(issue_number, assignees.as_str());
            true
        },
        AppEvent::IssueCommentUpdated { comment_id, body, .. } => {
            screens.detail.update_comment_body_by_id(comment_id, body.as_str());
            true
        },
        AppEvent::IssueCommentDeleted { issue_number, comment_id, count } => {
            screens.detail.remove_comment_by_id(comment_id);
            #[verifier::truncate]
            let c = count as i64;
            screens.issues.update_issue_comments_count_by_number(issue_number, c);
            true
        },
        AppEvent::RepoLabelsSuggested { labels, .. } => {
            if !effects.offer_to_picker {
                return false;
            }
            screens.labels.merge_options(names_of(&labels));
            true
        },
        AppEvent::RepoAssigneesSuggested { assignees, .. } => {
            screens.assignees.merge_options(assignees);
            true
        },
        _ => false,
    }
}

/// The numbers of found links.
fn numbers_of(v: &Vec<(i64, String)>) -> (r: Vec<i64>)
    ensures
        r@ == link_numbers(v@),
{
    let mut r: Vec<i64> = Vec::new();
    let mut i: usize = 0;
    while i < v.len()
        invariant
            i <= v.len(),
            r@ == link_numbers(v@.take(i as int)),
        decreases v.len() - i,
    {
        r.push(v[i].0);
        assert(v@.take(i as int + 1) =~= v@.take(i as int).push(v@[i as int]));
        i = i + 1;
    }
    assert(v@.take(v.len() as int) =~= v@);
    r
}

/// The names of suggested labels.
fn names_of(v: &Vec<(String, String)>) -> (r: Vec<String>)
    ensures
        text::string_views(r@) == label_names(v@),
{
    let mut r: Vec<String> = Vec::new();
    let mut i: usize = 0;
    while i < v.len()
        invariant
            i <= v.len(),
            r@.len() == i,
            forall|j: int| 0 <= j < i ==> #[trigger] r@[j]@ == v@[j].0@,
        decreases v.len() - i,
    {
        let name = v[i].0.clone();
        r.push(name);
        i = i + 1;
    }
    assert(text::string_views(r@) =~= label_names(v@));
    r
}

} // verus!
