use blippy::github::{ApiPullRequestReviewComment, ApiUser};
use blippy::review_threads::{
    attach_threads, next_page_cursor, thread_entries, viewed_paths, FileViewNode, ReviewThreadNode,
};

fn comment(id: i64) -> ApiPullRequestReviewComment {
    ApiPullRequestReviewComment {
        id,
        thread_id: None,
        is_resolved: false,
        path: "src/lib.rs".to_string(),
        line: Some(3),
        original_line: None,
        side: Some("RIGHT".to_string()),
        in_reply_to_id: None,
        body: Some("nit".to_string()),
        created_at: None,
        user: ApiUser { login: "alex".to_string(), user_type: None },
    }
}

#[test]
fn thread_map_skips_missing_ids_and_defaults_to_unresolved() {
    let threads = vec![
        ReviewThreadNode { id: Some("T1".to_string()), is_resolved: Some(true), comment_ids: vec![Some(1), None, Some(2)] },
        ReviewThreadNode { id: None, is_resolved: Some(true), comment_ids: vec![Some(3)] },
        ReviewThreadNode { id: Some("T2".to_string()), is_resolved: None, comment_ids: vec![Some(4)] },
    ];
    assert_eq!(
        thread_entries(&threads),
        vec![(1, "T1".to_string(), true), (2, "T1".to_string(), true), (4, "T2".to_string(), false)]
    );
}

#[test]
fn comments_get_their_thread_and_the_last_entry_wins() {
    let entries = vec![(1, "T1".to_string(), false), (1, "T9".to_string(), true)];
    let out = attach_threads(vec![comment(1), comment(2)], &entries);
    assert_eq!(out[0].thread_id.as_deref(), Some("T9"));
    assert!(out[0].is_resolved);
    assert_eq!(out[1], comment(2));
}

#[test]
fn viewed_paths_are_case_insensitive_and_distinct() {
    let nodes = vec![
        FileViewNode { path: Some("a.rs".to_string()), viewer_viewed_state: Some("VIEWED".to_string()) },
        FileViewNode { path: Some("b.rs".to_string()), viewer_viewed_state: Some("UNVIEWED".to_string()) },
        FileViewNode { path: Some("c.rs".to_string()), viewer_viewed_state: Some("viewed".to_string()) },
        FileViewNode { path: None, viewer_viewed_state: Some("VIEWED".to_string()) },
        FileViewNode { path: Some("a.rs".to_string()), viewer_viewed_state: Some("Viewed".to_string()) },
        FileViewNode { path: Some("d.rs".to_string()), viewer_viewed_state: None },
    ];
    assert_eq!(viewed_paths(&nodes), vec!["a.rs".to_string(), "c.rs".to_string()]);
}

#[test]
fn paging_continues_only_when_told_so() {
    assert_eq!(next_page_cursor(Some(true), Some("c2".to_string())), Some(Some("c2".to_string())));
    assert_eq!(next_page_cursor(Some(false), Some("c2".to_string())), None);
    assert_eq!(next_page_cursor(None, None), None);
}
