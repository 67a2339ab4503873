//! Recognising GitHub remotes in git remote URLs and `git remote -v` output.
use vstd::prelude::*;

use crate::text;
use crate::text::{
    chars_eq, chars_of, ends_with_chars, lines_of, split_chars, string_of, strip_prefix_chars, sub_vec,
    trim_chars, words_of,
};

verus! {

/// The owner and name of a GitHub repository.
#[derive(Debug, Clone, PartialEq, Eq)]
pub struct RepoSlug {
    pub owner: String,
    pub repo: String,
}

/// A git remote that points at GitHub.
#[derive(Debug, Clone, PartialEq, Eq)]
pub struct RemoteInfo {
    pub name: String,
    pub url: String,
    pub slug: RepoSlug,
}

/// The model of a repository slug.
pub struct SlugView {
    pub owner: Seq<char>,
    pub repo: Seq<char>,
}

/// The model of a remote.
pub struct RemoteView {
    pub name: Seq<char>,
    pub url: Seq<char>,
    pub slug: SlugView,
}

impl View for RepoSlug {
    type V = SlugView;

    open spec fn view(&self) -> SlugView {
        SlugView { owner: self.owner@, repo: self.repo@ }
    }
}

impl View for RemoteInfo {
    type V = RemoteView;

    open spec fn view(&self) -> RemoteView {
        RemoteView { name: self.name@, url: self.url@, slug: self.slug@ }
    }
}

/// `owner/repo` with exactly one `/` and both parts non-empty.
pub open spec fn split_owner_repo_spec(s: Seq<char>) -> Option<SlugView> {
    let parts = text::split_on(s, '/');
    if parts.len() == 2 && parts[0].len() > 0 && parts[1].len() > 0 {
        Some(SlugView { owner: parts[0], repo: parts[1] })
    } else {
        None
    }
}

/// The remote URL with surrounding whitespace and a trailing `.git` removed.
pub open spec fn cleaned_url(url: Seq<char>) -> Seq<char> {
    let t = text::trim(url);
    if text::has_suffix(t, ".git"@) {
        t.subrange(0, t.len() - ".git"@.len())
    } else {
        t
    }
}

/// The slug of a GitHub remote URL in one of the forms `git@github.com:o/r`,
/// `ssh://git@github.com/o/r`, `https://github.com/o/r` or
/// `http://github.com/o/r`, each with an optional `.git`.
pub open spec fn parse_remote_url_spec(url: Seq<char>) -> Option<SlugView> {
    let c = cleaned_url(url);
    if text::trim(url).len() == 0 {
        None
    } else if text::has_prefix(c, "git@github.com:"@) {
        split_owner_repo_spec(c.subrange("git@github.com:"@.len() as int, c.len() as int))
    } else if text::has_prefix(c, "ssh://git@github.com/"@) {
        split_owner_repo_spec(c.subrange("ssh://git@github.com/"@.len() as int, c.len() as int))
    } else if text::has_prefix(c, "https://github.com/"@) {
        split_owner_repo_spec(c.subrange("https://github.com/"@.len() as int, c.len() as int))
    } else if text::has_prefix(c, "http://github.com/"@) {
        split_owner_repo_spec(c.subrange("http://github.com/"@.len() as int, c.len() as int))
    } else {
        None
    }
}

/// The remote one line of `git remote -v` describes, when it is a fetch URL
/// of a GitHub repository: name, URL and `(fetch)` separated by whitespace.
pub open spec fn remote_of_line(line: Seq<char>) -> Option<RemoteView> {
    let parts = text::words(line);
    if parts.len() < 2 {
        None
    } else if !((parts.len() >= 3 && parts[2] == "(fetch)"@)) {
        None
    } else {
        match parse_remote_url_spec(parts[1]) {
            Some(slug) => Some(RemoteView { name: parts[0], url: parts[1], slug }),
            None => None,
        }
    }
}

/// The remotes described by a sequence of lines, in order.
pub open spec fn remotes_of_lines(ls: Seq<Seq<char>>) -> Seq<RemoteView>
    decreases ls.len(),
{
    if ls.len() == 0 {
        Seq::<RemoteView>::empty()
    } else {
        let init = remotes_of_lines(ls.drop_last());
        match remote_of_line(ls.last()) {
            Some(r) => init.push(r),
            None => init,
        }
    }
}

/// The views of a sequence of remotes.
pub open spec fn remote_views(v: Seq<RemoteInfo>) -> Seq<RemoteView> {
    v.map_values(|r: RemoteInfo| r@)
}

/// Splits `owner/repo` into its two parts.
pub fn split_owner_repo(input: &[char]) -> (r: Option<RepoSlug>)
    ensures
        r matches Some(slug) ==> split_owner_repo_spec(input@) == Some(slug@),
        r is None ==> split_owner_repo_spec(input@) is None,
{
    let parts = split_chars(input, '/');
    assert(text::views(parts@) == text::split_on(input@, '/'));
    if parts.len() == 2 && parts[0].len() > 0 && parts[1].len() > 0 {
        assert(parts@[0]@ == text::split_on(input@, '/')[0]);
        assert(parts@[1]@ == text::split_on(input@, '/')[1]);
        Some(RepoSlug { owner: string_of(parts[0].as_slice()), repo: string_of(parts[1].as_slice()) })
    } else {
        assert(parts.len() == 2 ==> parts@[0]@ == text::split_on(input@, '/')[0] && parts@[1]@
            == text::split_on(input@, '/')[1]);
        None
    }
}

/// The slug of the rest of a URL after a known prefix.
fn slug_after(c: &[char], prefix: &str) -> (r: Option<Option<RepoSlug>>)
    ensures
        r is Some <==> text::has_prefix(c@, prefix@),
        r matches Some(inner) ==> (inner matches Some(slug) ==> split_owner_repo_spec(
            c@.subrange(prefix@.len() as int, c@.len() as int),
        ) == Some(slug@)) && (inner is None ==> split_owner_repo_spec(
            c@.subrange(prefix@.len() as int, c@.len() as int),
        ) is None),
{
    let p = chars_of(prefix);
    match strip_prefix_chars(c, p.as_slice()) {
        Some(rest) => Some(split_owner_repo(rest.as_slice())),
        None => None,
    }
}

/// Recognises GitHub remote URLs (SSH, `ssh://`, HTTPS or HTTP forms, with
/// or without `.git`) and returns the repository's owner and name.
pub fn parse_remote_url(url: &str) -> (r: Option<RepoSlug>)
    ensures
        r matches Some(slug) ==> parse_remote_url_spec(url@) == Some(slug@),
        r is None ==> parse_remote_url_spec(url@) is None,
{
    let raw = chars_of(url);
    let t = trim_chars(raw.as_slice());
    if t.len() == 0 {
        return None;
    }
    let git = chars_of(".git");
    let cleaned = if ends_with_chars(t.as_slice(), git.as_slice()) {
        sub_vec(t.as_slice(), 0, t.len() - git.len())
    } else {
        sub_vec(t.as_slice(), 0, t.len())
    };
    assert(cleaned@ == cleaned_url(url@)) by {
        assert(t@.subrange(0, t@.len() as int) =~= t@);
    }
    if let Some(found) = slug_after(cleaned.as_slice(), "git@github.com:") {
        return found;
    }
    if let Some(found) = slug_after(cleaned.as_slice(), "ssh://git@github.com/") {
        return found;
    }
    if let Some(found) = slug_after(cleaned.as_slice(), "https://github.com/") {
        return found;
    }
    if let Some(found) = slug_after(cleaned.as_slice(), "http://github.com/") {
        return found;
    }
    None
}

/// The GitHub remote one line of `git remote -v` output describes.
fn remote_from_line(line: &[char]) -> (r: Option<RemoteInfo>)
    ensures
        r matches Some(info) ==> remote_of_line(line@) == Some(info@),
        r is None ==> remote_of_line(line@) is None,
{
    let parts = words_of(line);
    assert(text::views(parts@) == text::words(line@));
    if parts.len() < 2 {
        return None;
    }
    assert(parts@[0]@ == text::words(line@)[0]);
    assert(parts@[1]@ == text::words(line@)[1]);
    let fetch = chars_of("(fetch)");
    if !(parts.len() >= 3 && chars_eq(parts[2].as_slice(), fetch.as_slice())) {
        assert(parts.len() >= 3 ==> parts@[2]@ == text::words(line@)[2]);
        return None;
    }
    assert(parts@[2]@ == text::words(line@)[2]);
    let url = string_of(parts[1].as_slice());
    match parse_remote_url(url.as_str()) {
        Some(slug) => Some(RemoteInfo { name: string_of(parts[0].as_slice()), url, slug }),
        None => None,
    }
}

/// The GitHub fetch remotes listed in `git remote -v` output, in the order
/// they appear.
pub fn parse_remotes_output(output: &str) -> (r: Vec<RemoteInfo>)
    ensures
        remote_views(r@) == remotes_of_lines(text::lines(output@)),
{
    let text = chars_of(output);
    let ls = lines_of(text.as_slice());
    let ghost lv = text::lines(output@);
    let mut remotes: Vec<RemoteInfo> = Vec::new();
    let mut i: usize = 0;
    while i < ls.len()
        invariant
            i <= ls.len(),
            text::views(ls@) == lv,
            remote_views(remotes@) == remotes_of_lines(lv.take(i as int)),
        decreases ls.len() - i,
    {
        assert(lv.take(i + 1).drop_last() =~= lv.take(i as int));
        assert(ls@[i as int]@ == lv[i as int]);
        let ghost before = remotes@;
        match remote_from_line(ls[i].as_slice()) {
            Some(info) => {
                remotes.push(info);
                assert(remote_views(remotes@) =~= remote_views(before).push(remotes@.last()@));
            },
            None => {},
        }
        i = i + 1;
    }
    assert(lv.take(ls.len() as int) =~= lv);
    remotes
}

/// The checkout root `git rev-parse --show-toplevel` reported: its output
/// trimmed, when the command succeeded and printed something.
pub fn repo_root_from_output(success: bool, stdout: &str) -> (r: Option<String>)
    ensures
        !success ==> r is None,
        success && text::trim(stdout@).len() == 0 ==> r is None,
        success && text::trim(stdout@).len() > 0 ==> (r matches Some(p) && p@ == text::trim(stdout@)),
{
    if !success {
        return None;
    }
    let all = chars_of(stdout);
    let trimmed = trim_chars(all.as_slice());
    if trimmed.len() == 0 {
        return None;
    }
    Some(string_of(trimmed.as_slice()))
}


/// The four ways a GitHub remote URL can begin.
pub open spec fn github_prefix(p: Seq<char>) -> bool {
    ||| p == "git@github.com:"@
    ||| p == "ssh://git@github.com/"@
    ||| p == "https://github.com/"@
    ||| p == "http://github.com/"@
}

/// `owner/repo` read as a slug: the text after a known prefix is split at
/// `/` into exactly two non-empty parts.
proof fn lemma_slug_of_rest(rest: Seq<char>, o: Seq<char>, r: Seq<char>)
    ensures
        split_owner_repo_spec(rest) == Some(SlugView { owner: o, repo: r }) <==> (o.len() > 0 && r.len() > 0
            && text::free_of(o, '/') && text::free_of(r, '/') && rest == o + seq!['/'] + r),
{
    let parts = text::split_on(rest, '/');
    if split_owner_repo_spec(rest) == Some(SlugView { owner: o, repo: r }) {
        text::lemma_join_split(rest, '/');
        text::lemma_split_pieces_free(rest, '/');
        assert(parts =~= seq![o, r]);
        assert(text::join(seq![o, r], '/') == text::join(seq![o, r].drop_last(), '/') + seq!['/'] + r);
        assert(seq![o, r].drop_last() =~= seq![o]);
        assert(parts[0] == o && parts[1] == r);
    }
    if o.len() > 0 && r.len() > 0 && text::free_of(o, '/') && text::free_of(r, '/') && rest == o + seq!['/']
        + r {
        let ts = seq![o, r];
        assert(ts.drop_last() =~= seq![o]);
        assert(text::join(seq![o], '/') == o);
        assert(ts.last() == r);
        assert(text::join(ts, '/') == text::join(ts.drop_last(), '/') + seq!['/'] + ts.last());
        assert(text::join(ts, '/') == o + seq!['/'] + r);
        text::lemma_split_join(ts, '/');
        assert(parts == ts);
    }
}

/// A URL that starts with one GitHub prefix starts with no other.
proof fn lemma_prefixes_exclusive(c: Seq<char>, p: Seq<char>, q: Seq<char>)
    requires
        github_prefix(p),
        github_prefix(q),
        text::has_prefix(c, p),
        text::has_prefix(c, q),
    ensures
        p == q,
{
    reveal_strlit("git@github.com:");
    reveal_strlit("ssh://git@github.com/");
    reveal_strlit("https://github.com/");
    reveal_strlit("http://github.com/");
    assert(c.subrange(0, p.len() as int)[0] == c[0]);
    assert(c.subrange(0, q.len() as int)[0] == c[0]);
    assert(c.subrange(0, p.len() as int)[4] == c[4]);
    assert(c.subrange(0, q.len() as int)[4] == c[4]);
}

proof fn lemma_remote_url_read(url: Seq<char>, o: Seq<char>, r: Seq<char>)
    requires
        parse_remote_url_spec(url) == Some(SlugView { owner: o, repo: r }),
    ensures
        o.len() > 0 && r.len() > 0 && text::free_of(o, '/') && text::free_of(r, '/'),
        exists|p: Seq<char>| #[trigger] github_prefix(p) && cleaned_url(url) == p + o + seq!['/'] + r,
{
    let c = cleaned_url(url);
    let p = if text::has_prefix(c, "git@github.com:"@) {
        "git@github.com:"@
    } else if text::has_prefix(c, "ssh://git@github.com/"@) {
        "ssh://git@github.com/"@
    } else if text::has_prefix(c, "https://github.com/"@) {
        "https://github.com/"@
    } else {
        "http://github.com/"@
    };
    let rest = c.subrange(p.len() as int, c.len() as int);
    lemma_slug_of_rest(rest, o, r);
    assert(text::has_prefix(c, p));
    assert(c =~= c.subrange(0, p.len() as int) + rest);
    assert(c =~= p + rest);
    assert(github_prefix(p));
    assert(c =~= p + o + seq!['/'] + r);
}

proof fn lemma_remote_url_formed(url: Seq<char>, o: Seq<char>, r: Seq<char>, p: Seq<char>)
    requires
        o.len() > 0 && r.len() > 0 && text::free_of(o, '/') && text::free_of(r, '/'),
        github_prefix(p),
        cleaned_url(url) == p + o + seq!['/'] + r,
    ensures
        parse_remote_url_spec(url) == Some(SlugView { owner: o, repo: r }),
{
    let c = cleaned_url(url);
    let rest = o + seq!['/'] + r;
    assert(c =~= p + rest);
    assert(text::has_prefix(c, p)) by {
        assert(c.subrange(0, p.len() as int) =~= p);
    }
    assert(c.subrange(p.len() as int, c.len() as int) =~= rest);
    lemma_slug_of_rest(rest, o, r);
    if text::trim(url).len() == 0 {
        assert(c.len() == 0);
    }
    if text::has_prefix(c, "git@github.com:"@) {
        lemma_prefixes_exclusive(c, p, "git@github.com:"@);
    } else if text::has_prefix(c, "ssh://git@github.com/"@) {
        lemma_prefixes_exclusive(c, p, "ssh://git@github.com/"@);
    } else if text::has_prefix(c, "https://github.com/"@) {
        lemma_prefixes_exclusive(c, p, "https://github.com/"@);
    } else if text::has_prefix(c, "http://github.com/"@) {
        lemma_prefixes_exclusive(c, p, "http://github.com/"@);
    } else {
    }
}

/// Exactly the URLs that read, after trimming and dropping one trailing
/// `.git`, as one of the four GitHub prefixes followed by `owner/repo`
/// (both non-empty and without `/`) are GitHub remotes, with that owner
/// and repository; every other URL is not.
pub proof fn lemma_remote_url_forms(url: Seq<char>, o: Seq<char>, r: Seq<char>)
    ensures
        parse_remote_url_spec(url) == Some(SlugView { owner: o, repo: r }) <==> (o.len() > 0 && r.len() > 0
            && text::free_of(o, '/') && text::free_of(r, '/') && exists|p: Seq<char>|
            #[trigger] github_prefix(p) && cleaned_url(url) == p + o + seq!['/'] + r),
{
    if parse_remote_url_spec(url) == Some(SlugView { owner: o, repo: r }) {
        lemma_remote_url_read(url, o, r);
    }
    if o.len() > 0 && r.len() > 0 && text::free_of(o, '/') && text::free_of(r, '/') && exists|p: Seq<char>|
        #[trigger] github_prefix(p) && cleaned_url(url) == p + o + seq!['/'] + r {
        let p = choose|p: Seq<char>| #[trigger] github_prefix(p) && cleaned_url(url) == p + o + seq!['/'] + r;
        lemma_remote_url_formed(url, o, r, p);
    }
}

/// The remotes of `git remote -v` output are, in order, the remotes of the
/// lines that describe one: a line whose first three whitespace-separated
/// words are a name, a GitHub URL and `(fetch)` (see `remote_of_line`);
/// every other line, `(push)` lines among them, adds nothing.
pub proof fn lemma_remotes_output_lines(output: Seq<char>)
    ensures
        remotes_of_lines(text::lines(output)) == text::lines(output).filter_map(
            |l: Seq<char>| remote_of_line(l),
        ),
{
    lemma_remotes_filter_map(text::lines(output));
}

proof fn lemma_remotes_filter_map(ls: Seq<Seq<char>>)
    ensures
        remotes_of_lines(ls) == ls.filter_map(|l: Seq<char>| remote_of_line(l)),
    decreases ls.len(),
{
    if ls.len() > 0 {
        lemma_remotes_filter_map(ls.drop_last());
        let f = |l: Seq<char>| remote_of_line(l);
        assert(ls.drop_last().filter_map(f) == remotes_of_lines(ls.drop_last()));
        match remote_of_line(ls.last()) {
            Some(r) => {
                assert(remotes_of_lines(ls) =~= ls.filter_map(f));
            },
            None => {},
        }
    }
}

} // verus!
