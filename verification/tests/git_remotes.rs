use blippy::git::{parse_remote_url, parse_remotes_output, RemoteInfo, RepoSlug};

#[test]
fn parse_remote_url_handles_https() {
    let slug = parse_remote_url("https://github.com/acme/blippy.git").expect("slug");
    assert_eq!(slug.owner, "acme");
    assert_eq!(slug.repo, "blippy");
}

#[test]
fn parse_remote_url_handles_ssh() {
    let slug = parse_remote_url("git@github.com:acme/blippy.git").expect("slug");
    assert_eq!(slug.owner, "acme");
    assert_eq!(slug.repo, "blippy");
}

#[test]
fn parse_remote_url_handles_ssh_url() {
    let slug = parse_remote_url("ssh://git@github.com/acme/blippy.git").expect("slug");
    assert_eq!(slug.owner, "acme");
    assert_eq!(slug.repo, "blippy");
}

#[test]
fn parse_remote_url_rejects_non_github() {
    assert!(parse_remote_url("https://gitlab.com/acme/blippy").is_none());
}

#[test]
fn parse_remotes_output_collects_unique_remotes() {
    let output = "origin\thttps://github.com/acme/blippy.git (fetch)\norigin\thttps://github.com/acme/blippy.git (push)\nupstream\tgit@github.com:org/blippy.git (fetch)\n";
    let remotes = parse_remotes_output(output);

    assert_eq!(remotes.len(), 2);
    assert_eq!(remotes[0].name, "origin");
    assert_eq!(remotes[0].slug.owner, "acme");
    assert_eq!(remotes[1].name, "upstream");
    assert_eq!(remotes[1].slug.owner, "org");
}

#[test]
fn parse_remotes_output_filters_non_github() {
    let output = "origin\thttps://gitlab.com/acme/blippy.git (fetch)\n";
    let remotes = parse_remotes_output(output);
    assert!(remotes.is_empty());
}

#[test]
fn parse_remotes_output_matches_expected_slug() {
    let output = "origin\tssh://git@github.com/acme/blippy.git (fetch)\n";
    let remotes = parse_remotes_output(output);

    let expected = RemoteInfo {
        name: "origin".to_string(),
        url: "ssh://git@github.com/acme/blippy.git".to_string(),
        slug: RepoSlug {
            owner: "acme".to_string(),
            repo: "blippy".to_string(),
        },
    };
    assert_eq!(remotes, vec![expected]);
}

#[test]
fn parse_remote_url_handles_http_and_whitespace() {
    let slug = parse_remote_url("  http://github.com/acme/tool \n").expect("slug");
    assert_eq!(slug.owner, "acme");
    assert_eq!(slug.repo, "tool");
}

#[test]
fn parse_remote_url_rejects_extra_path_and_empty_parts() {
    assert!(parse_remote_url("https://github.com/acme/blippy/extra").is_none());
    assert!(parse_remote_url("https://github.com/acme/").is_none());
    assert!(parse_remote_url("git@github.com:/blippy").is_none());
    assert!(parse_remote_url("   ").is_none());
}

#[test]
fn parse_remotes_output_skips_short_lines_and_handles_crlf() {
    let output = "origin\r\nlonely https://github.com/a/b.git\r\nup\thttps://github.com/a/b.git (fetch)\r\n";
    let remotes = parse_remotes_output(output);
    assert_eq!(remotes.len(), 1);
    assert_eq!(remotes[0].name, "up");
    assert_eq!(remotes[0].url, "https://github.com/a/b.git");
    assert_eq!(remotes[0].slug.repo, "b");
}

#[test]
fn only_the_four_prefixes_with_owner_and_repo_are_github_remotes() {
    assert!(parse_remote_url("http://github.com/acme/blippy").is_some());
    let ssh = parse_remote_url("  ssh://git@github.com/acme/blippy.git ").expect("slug");
    assert_eq!((ssh.owner.as_str(), ssh.repo.as_str()), ("acme", "blippy"));
    assert!(parse_remote_url("https://github.com/acme/blippy/pulls").is_none());
    assert!(parse_remote_url("https://github.com/acme/").is_none());
    assert!(parse_remote_url("https://gitlab.com/acme/blippy").is_none());
    assert!(parse_remote_url("").is_none());
}
