use blippy::app::ReviewSide;
use blippy::github::{ApiPullRequestReviewComment, ApiUser};
use blippy::review_threads::{comments_from_threads, review_comments_from_api, ReviewCommentNode, ReviewThreadComments};

fn api(id: i64, line: Option<i64>, original: Option<i64>, side: Option<&str>, reply_to: Option<i64>) -> ApiPullRequestReviewComment {
    ApiPullRequestReviewComment {
        id,
        thread_id: Some("T1".to_string()),
        is_resolved: false,
        path: format!("src/{}.rs", id),
        line,
        original_line: original,
        side: side.map(|s| s.to_string()),
        in_reply_to_id: reply_to,
        body: None,
        created_at: None,
        user: ApiUser { login: "alex".to_string(), user_type: None },
    }
}

#[test]
fn comments_are_anchored_on_their_line_or_their_parents() {
    let comments = vec![
        api(1, Some(10), None, Some("LEFT"), None),
        api(2, None, Some(4), None, None),
        api(3, None, None, None, Some(1)),
        api(4, None, None, Some("left"), None),
    ];
    let shown = review_comments_from_api(comments);
    assert_eq!(shown.len(), 4);
    assert_eq!((shown[0].line, shown[0].side, shown[0].anchored), (10, ReviewSide::Left, true));
    assert_eq!((shown[1].line, shown[1].side, shown[1].anchored), (4, ReviewSide::Right, true));
    assert_eq!((shown[2].line, shown[2].side, shown[2].path.as_str()), (10, ReviewSide::Left, "src/1.rs"));
    assert!(shown[2].anchored);
    assert_eq!((shown[3].line, shown[3].side, shown[3].anchored), (0, ReviewSide::Right, false));
    assert_eq!(shown[3].path, "src/4.rs");
    assert_eq!(shown[0].body, "");
    assert_eq!(shown[0].author, "alex");
}

fn node(id: Option<i64>, path: Option<&str>, author: Option<&str>) -> ReviewCommentNode {
    ReviewCommentNode {
        database_id: id,
        path: path.map(|p| p.to_string()),
        line: Some(3),
        original_line: None,
        diff_side: Some("RIGHT".to_string()),
        body: Some("hi".to_string()),
        created_at: None,
        author_login: author.map(|a| a.to_string()),
    }
}

#[test]
fn thread_pages_skip_nodes_without_id_or_path() {
    let threads = vec![
        ReviewThreadComments {
            id: Some("T1".to_string()),
            is_resolved: None,
            comments: vec![node(Some(1), Some("a.rs"), None), node(None, Some("a.rs"), Some("x")), node(Some(2), None, Some("x"))],
        },
        ReviewThreadComments { id: None, is_resolved: Some(true), comments: vec![node(Some(3), Some("b.rs"), Some("sam"))] },
    ];
    let out = comments_from_threads(&threads);
    assert_eq!(out.len(), 2);
    assert_eq!((out[0].id, out[0].user.login.as_str(), out[0].is_resolved), (1, "unknown", false));
    assert_eq!(out[0].thread_id.as_deref(), Some("T1"));
    assert_eq!((out[1].id, out[1].user.login.as_str(), out[1].is_resolved), (3, "sam", true));
    assert_eq!(out[1].thread_id, None);
}
