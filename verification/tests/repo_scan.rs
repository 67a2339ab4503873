use blippy::discovery::{dedupe_repos, excluded_dirs, is_excluded, DiscoveredRepo, PendingDir, RepoScan};
use blippy::git::{RemoteInfo, RepoSlug};
use blippy::repo_index::{build_local_repo_rows, build_local_repo_rows_at, now_epoch};

#[test]
fn build_local_repo_rows_includes_remote_metadata() {
    let remotes = vec![RemoteInfo {
        name: "origin".to_string(),
        url: "https://github.com/acme/glyph.git".to_string(),
        slug: RepoSlug {
            owner: "acme".to_string(),
            repo: "glyph".to_string(),
        },
    }];
    let rows = build_local_repo_rows("/tmp/repo", remotes);

    assert_eq!(rows.len(), 1);
    assert_eq!(rows[0].path, "/tmp/repo");
    assert_eq!(rows[0].remote_name, "origin");
    assert_eq!(rows[0].owner, "acme");
}

#[test]
fn rows_carry_every_remote_field_and_the_stamp() {
    let remotes = vec![
        RemoteInfo {
            name: "origin".to_string(),
            url: "git@github.com:acme/glyph.git".to_string(),
            slug: RepoSlug { owner: "acme".to_string(), repo: "glyph".to_string() },
        },
        RemoteInfo {
            name: "fork".to_string(),
            url: "https://github.com/me/glyph".to_string(),
            slug: RepoSlug { owner: "me".to_string(), repo: "glyph".to_string() },
        },
    ];
    let rows = build_local_repo_rows_at("/w", remotes, "1700000000");
    assert_eq!(rows.len(), 2);
    assert_eq!(rows[1].remote_name, "fork");
    assert_eq!(rows[1].owner, "me");
    assert_eq!(rows[1].repo, "glyph");
    assert_eq!(rows[1].url, "https://github.com/me/glyph");
    assert_eq!(rows[0].last_seen.as_deref(), Some("1700000000"));
    assert_eq!(rows[0].last_scanned.as_deref(), Some("1700000000"));
}

#[test]
fn now_epoch_is_decimal_seconds() {
    let now = now_epoch();
    assert!(!now.is_empty());
    assert!(now.chars().all(|c| c.is_ascii_digit()));
    assert!(now.parse::<u64>().expect("seconds") > 1_600_000_000);
}

#[test]
fn excluded_names_are_recognised() {
    let excluded = excluded_dirs();
    assert_eq!(excluded.len(), 10);
    assert!(is_excluded(Some("node_modules"), &excluded));
    assert!(is_excluded(Some("Program Files (x86)"), &excluded));
    assert!(!is_excluded(Some("src"), &excluded));
    assert!(!is_excluded(None, &excluded));
}

/// A directory tree in memory: (path, has .git, child directories).
fn tree() -> Vec<(&'static str, bool, Vec<&'static str>)> {
    vec![
        ("/r", false, vec!["/r/work", "/r/node_modules", "/r/a"]),
        ("/r/work", false, vec!["/r/work/repo"]),
        ("/r/work/repo", true, vec![]),
        ("/r/node_modules", false, vec!["/r/node_modules/repo"]),
        ("/r/node_modules/repo", true, vec![]),
        ("/r/a", false, vec!["/r/a/b"]),
        ("/r/a/b", false, vec!["/r/a/b/c"]),
        ("/r/a/b/c", false, vec!["/r/a/b/c/repo"]),
        ("/r/a/b/c/repo", true, vec![]),
    ]
}

fn name_of(path: &str) -> Option<String> {
    path.rsplit('/').next().map(|s| s.to_string())
}

fn scan(max_depth: usize) -> Vec<String> {
    let t = tree();
    let mut scan = RepoScan::new("/r".to_string(), name_of("/r"), true, max_depth);
    while let Some(dir) = scan.next_dir() {
        let entry = t.iter().find(|e| e.0 == dir.path).expect("known dir");
        let children = entry.2.iter().map(|c| (c.to_string(), name_of(c))).collect();
        scan.visit(dir, entry.1, children);
    }
    scan.into_repos().into_iter().map(|r| r.path).collect()
}

#[test]
fn scan_repos_in_dir_finds_git_dirs() {
    assert!(scan(4).contains(&"/r/work/repo".to_string()));
}

#[test]
fn scan_repos_in_dir_skips_excluded_dirs() {
    assert!(!scan(4).contains(&"/r/node_modules/repo".to_string()));
}

#[test]
fn scan_repos_in_dir_respects_depth_limit() {
    assert_eq!(scan(2), vec!["/r/work/repo".to_string()]);
    let deep = scan(5);
    assert_eq!(deep.len(), 2);
    assert!(deep.contains(&"/r/a/b/c/repo".to_string()));
}

#[test]
fn missing_root_yields_nothing() {
    let mut scan = RepoScan::new("/gone".to_string(), name_of("/gone"), false, 4);
    assert!(scan.next_dir().is_none());
    assert!(scan.into_repos().is_empty());
}

#[test]
fn visiting_pushes_children_one_level_deeper() {
    let mut scan = RepoScan::new("/r".to_string(), None, true, 9);
    let root = scan.next_dir().expect("root");
    assert_eq!(root, PendingDir { path: "/r".to_string(), name: None, depth: 0 });
    scan.visit(root, false, vec![("/r/x".to_string(), Some("x".to_string()))]);
    let child = scan.next_dir().expect("child");
    assert_eq!(child.depth, 1);
    assert_eq!(child.path, "/r/x");
}

#[test]
fn dedupe_repos_keeps_the_first_of_each_key() {
    let found = vec![
        ("/k/a".to_string(), DiscoveredRepo { path: "a".to_string() }),
        ("/k/b".to_string(), DiscoveredRepo { path: "b".to_string() }),
        ("/k/a".to_string(), DiscoveredRepo { path: "../a".to_string() }),
    ];
    let kept = dedupe_repos(found);
    assert_eq!(
        kept,
        vec![DiscoveredRepo { path: "a".to_string() }, DiscoveredRepo { path: "b".to_string() }]
    );
}

#[test]
fn dedupe_repos_keeps_each_key_once_in_order() {
    let found = vec![
        ("/k/b".to_string(), DiscoveredRepo { path: "b".to_string() }),
        ("/k/b".to_string(), DiscoveredRepo { path: "b2".to_string() }),
        ("/k/c".to_string(), DiscoveredRepo { path: "c".to_string() }),
        ("/k/a".to_string(), DiscoveredRepo { path: "a".to_string() }),
        ("/k/c".to_string(), DiscoveredRepo { path: "c2".to_string() }),
    ];
    let kept = dedupe_repos(found);
    let paths: Vec<&str> = kept.iter().map(|r| r.path.as_str()).collect();
    assert_eq!(paths, vec!["b", "c", "a"]);
}
