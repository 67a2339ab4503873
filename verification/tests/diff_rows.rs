use blippy::pr_diff::{parse_patch, pull_request_hunk_end, pull_request_hunk_range_for_row, DiffKind};

#[test]
fn parse_patch_extracts_line_numbers_and_kinds() {
    let rows = parse_patch(Some("@@ -10,2 +20,3 @@\n line\n-old\n+new\n+more\n"));

    assert_eq!(rows.len(), 4);
    assert_eq!(rows[0].kind, DiffKind::Hunk);
    assert_eq!(rows[1].kind, DiffKind::Context);
    assert_eq!(rows[1].old_line, Some(10));
    assert_eq!(rows[1].new_line, Some(20));
    assert_eq!(rows[2].kind, DiffKind::Changed);
    assert_eq!(rows[2].old_line, Some(11));
    assert_eq!(rows[2].new_line, Some(21));
    assert_eq!(rows[3].kind, DiffKind::Added);
    assert_eq!(rows[3].new_line, Some(22));
}

#[test]
fn parse_patch_aligns_replacement_blocks_line_by_line() {
    let rows = parse_patch(Some(
        "@@ -3,4 +3,4 @@\n-old-a\n-old-b\n+new-a\n+new-b\n keep\n",
    ));

    assert_eq!(rows[1].kind, DiffKind::Changed);
    assert_eq!(rows[1].old_line, Some(3));
    assert_eq!(rows[1].new_line, Some(3));
    assert_eq!(rows[2].kind, DiffKind::Changed);
    assert_eq!(rows[2].old_line, Some(4));
    assert_eq!(rows[2].new_line, Some(4));
    assert_eq!(rows[3].kind, DiffKind::Context);
}

#[test]
fn parse_patch_of_nothing_is_empty() {
    assert!(parse_patch(None).is_empty());
    assert!(parse_patch(Some("")).is_empty());
}

#[test]
fn parse_patch_keeps_texts_and_joins_changed_raw() {
    let rows = parse_patch(Some("@@ -1 +1 @@\n-a\n+b\n"));
    assert_eq!(rows.len(), 2);
    assert_eq!(rows[0].raw, "@@ -1 +1 @@");
    assert_eq!(rows[1].left, "a");
    assert_eq!(rows[1].right, "b");
    assert_eq!(rows[1].raw, "-a\n+b");
}

#[test]
fn parse_patch_marks_file_headers_and_other_lines_as_meta() {
    let rows = parse_patch(Some("--- a/x\n+++ b/x\n\\ No newline at end of file\n@@ bad header\n-gone\n"));
    assert_eq!(rows[0].kind, DiffKind::Meta);
    assert_eq!(rows[1].kind, DiffKind::Meta);
    assert_eq!(rows[2].kind, DiffKind::Meta);
    assert_eq!(rows[3].kind, DiffKind::Hunk);
    // An unreadable header keeps the counters where they were.
    assert_eq!(rows[4].kind, DiffKind::Removed);
    assert_eq!(rows[4].old_line, Some(0));
    assert_eq!(rows[4].new_line, None);
}

#[test]
fn hunk_ranges_span_to_the_next_header() {
    let rows = parse_patch(Some("@@ -1,2 +1,2 @@\n a\n-b\n+c\n@@ -9,1 +9,1 @@\n z\n"));
    assert_eq!(rows.len(), 5);
    assert_eq!(pull_request_hunk_end(&rows, 0), Some(2));
    assert_eq!(pull_request_hunk_end(&rows, 3), Some(4));
    assert_eq!(pull_request_hunk_end(&rows, 1), None);
    let range = pull_request_hunk_range_for_row(&rows, 2).expect("range");
    assert_eq!((range.start, range.end), (0, 2));
    let last = pull_request_hunk_range_for_row(&rows, 99).expect("range");
    assert_eq!((last.start, last.end), (3, 4));
}

#[test]
fn hunk_range_is_none_before_any_header() {
    let rows = parse_patch(Some("diff --git a/x b/x\n@@ -1 +1 @@\n x\n"));
    assert!(pull_request_hunk_range_for_row(&rows, 0).is_none());
    assert!(pull_request_hunk_range_for_row(&[], 0).is_none());
}

#[test]
fn every_patch_line_becomes_one_row_or_one_side() {
    let rows = parse_patch(Some("diff --git a/x b/x\n--- a/x\n+++ b/x\n@@ -3,3 +7,4 @@\n a\n-b\n-c\n+B\n d\n+e\n"));
    let count = |k: DiffKind| rows.iter().filter(|r| r.kind == k).count();
    assert_eq!(count(DiffKind::Hunk), 1);
    assert_eq!(count(DiffKind::Meta), 3);
    assert_eq!(count(DiffKind::Context), 2);
    assert_eq!(count(DiffKind::Changed) + count(DiffKind::Added), 2);
    assert_eq!(count(DiffKind::Changed) + count(DiffKind::Removed), 2);
    let old: Vec<i64> = rows.iter().filter_map(|r| r.old_line).collect();
    let new: Vec<i64> = rows.iter().filter_map(|r| r.new_line).collect();
    assert_eq!(old, vec![3, 4, 5, 6]);
    assert_eq!(new, vec![7, 8, 9, 10]);
    for r in &rows {
        match r.kind {
            DiffKind::Hunk | DiffKind::Meta => {
                assert!(r.old_line.is_none() && r.new_line.is_none() && r.left.is_empty() && r.right.is_empty())
            }
            DiffKind::Context => assert!(r.old_line.is_some() && r.new_line.is_some() && r.left == r.right),
            DiffKind::Changed => assert!(r.old_line.is_some() && r.new_line.is_some()),
            DiffKind::Added => assert!(r.old_line.is_none() && r.new_line.is_some() && r.left.is_empty()),
            DiffKind::Removed => assert!(r.old_line.is_some() && r.new_line.is_none() && r.right.is_empty()),
        }
    }
}
