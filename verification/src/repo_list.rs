//! The repository picker: the indexed checkouts, narrowed by a search over
//! their owner, name, path, remote name and URL, with a highlighted row.
use vstd::prelude::*;

use crate::keybinds::{KeyCode, KeyMods, KeyPress};
use crate::repo_index::LocalRepoRow;
use crate::text;
use crate::text::{append_chars, chars_of, contains_chars, lower_chars, string_of, trim_chars, u64_text};

verus! {

broadcast use vstd::string::group_string_axioms;

/// The text a repository search looks in, lower-cased: owner, name, path,
/// remote name and URL separated by spaces.
pub open spec fn haystack(r: LocalRepoRow) -> Seq<char> {
    text::lower(r.owner@ + " "@ + r.repo@ + " "@ + r.path@ + " "@ + r.remote_name@ + " "@ + r.url@)
}

/// A repository is listed under search text `query`: the trimmed query is
/// empty, or its lower-cased form occurs in the haystack.
pub open spec fn repo_shown(r: LocalRepoRow, query: Seq<char>) -> bool {
    let q = text::lower(text::trim(query));
    q.len() == 0 || text::has_sub(haystack(r), q)
}

/// The positions of the listed repositories, in order.
pub open spec fn repo_listing(repos: Seq<LocalRepoRow>, query: Seq<char>) -> Seq<usize>
    decreases repos.len(),
{
    if repos.len() == 0 {
        Seq::empty()
    } else {
        let prev = repo_listing(repos.drop_last(), query);
        if repo_shown(repos.last(), query) {
            prev.push((repos.len() - 1) as usize)
        } else {
            prev
        }
    }
}

/// The search box edits its query on this key press.
pub open spec fn repo_search_edits(key: KeyPress) -> bool {
    crate::picker::is_clear_key(key) || match key.code {
        KeyCode::Esc | KeyCode::Backspace => true,
        KeyCode::Char(_) => key.modifiers == crate::keybinds::no_mods() || key.modifiers == (KeyMods {
            shift: true,
            ..crate::keybinds::no_mods()
        }),
        _ => false,
    }
}

/// The indexed repositories and the picker's search over them.
pub struct RepoList {
    repos: Vec<LocalRepoRow>,
    query: String,
    search_mode: bool,
    filtered: Vec<usize>,
    selected: usize,
    status: String,
}

impl RepoList {
    /// The indexed repositories.
    pub closed spec fn repos_view(&self) -> Seq<LocalRepoRow> {
        self.repos@
    }

    /// The search text.
    pub closed spec fn query_view(&self) -> Seq<char> {
        self.query@
    }

    /// Typed keys go to the search box.
    pub closed spec fn search_mode_spec(&self) -> bool {
        self.search_mode
    }

    /// The positions of the listed repositories.
    pub closed spec fn listed(&self) -> Seq<usize> {
        self.filtered@
    }

    /// The highlighted row.
    pub closed spec fn selected_spec(&self) -> usize {
        self.selected
    }

    /// The status line.
    pub closed spec fn status_view(&self) -> Seq<char> {
        self.status@
    }

    /// The listing is what the search admits.
    pub open spec fn wf(&self) -> bool {
        self.listed() == repo_listing(self.repos_view(), self.query_view())
    }

    /// No repositories and no search.
    pub fn new() -> (r: Self)
        ensures
            r.wf(),
            r.repos_view().len() == 0,
            r.query_view().len() == 0,
            !r.search_mode_spec(),
            r.selected_spec() == 0,
            r.status_view().len() == 0,
    {
        RepoList {
            repos: Vec::new(),
            query: String::new(),
            search_mode: false,
            filtered: Vec::new(),
            selected: 0,
            status: String::new(),
        }
    }

    /// Lists again what the search admits.
    fn rebuild_repo_picker_filter(&mut self)
        ensures
            final(self).wf(),
            final(self).repos_view() == old(self).repos_view(),
            final(self).query_view() == old(self).query_view(),
            final(self).search_mode_spec() == old(self).search_mode_spec(),
            final(self).selected_spec() == old(self).selected_spec(),
            final(self).status_view() == old(self).status_view(),
    {
        let qc = chars_of(self.query.as_str());
        let qt = trim_chars(qc.as_slice());
        let q = lower_chars(qt.as_slice());
        let ghost rv = self.repos@;
        let mut out: Vec<usize> = Vec::new();
        let mut i: usize = 0;
        while i < self.repos.len()
            invariant
                i <= self.repos.len(),
                rv == self.repos@,
                q@ == text::lower(text::trim(self.query@)),
                out@ == repo_listing(rv.take(i as int), self.query@),
            decreases self.repos.len() - i,
        {
            assert(rv.take(i + 1).drop_last() =~= rv.take(i as int));
            assert(rv.take(i + 1).last() == rv[i as int]);
            let show = if q.len() == 0 {
                true
            } else {
                let h = haystack_of(&self.repos[i]);
                contains_chars(h.as_slice(), q.as_slice())
            };
            if show {
                out.push(i);
            }
            i = i + 1;
        }
        assert(rv.take(self.repos.len() as int) =~= rv);
        self.filtered = out;
    }

    /// Replaces the repositories and lists them again; the highlight moves
    /// up to the last row when it fell off the end.
    pub fn set_repos(&mut self, repos: Vec<LocalRepoRow>)
        ensures
            final(self).wf(),
            final(self).repos_view() == repos@,
            final(self).query_view() == old(self).query_view(),
            final(self).search_mode_spec() == old(self).search_mode_spec(),
            final(self).status_view() == old(self).status_view(),
            final(self).selected_spec() == if old(self).selected_spec() < final(self).listed().len() {
                old(self).selected_spec()
            } else if final(self).listed().len() == 0 {
                0
            } else {
                (final(self).listed().len() - 1) as usize
            },
    {
        self.repos = repos;
        self.rebuild_repo_picker_filter();
        if self.selected >= self.filtered.len() {
            self.selected = if self.filtered.len() == 0 { 0 } else { self.filtered.len() - 1 };
        }
    }

    /// Opens the picker afresh: no search text and the search box closed.
    pub fn open_repo_picker(&mut self)
        ensures
            final(self).wf(),
            final(self).repos_view() == old(self).repos_view(),
            final(self).query_view().len() == 0,
            !final(self).search_mode_spec(),
            final(self).selected_spec() == old(self).selected_spec(),
            final(self).status_view() == old(self).status_view(),
    {
        self.query = String::new();
        self.search_mode = false;
        self.rebuild_repo_picker_filter();
    }

    /// The search box opens.
    pub fn begin_repo_search(&mut self)
        requires
            old(self).wf(),
        ensures
            final(self).wf(),
            final(self).search_mode_spec(),
            final(self).status_view() == "Search repos"@,
            final(self).repos_view() == old(self).repos_view(),
            final(self).query_view() == old(self).query_view(),
            final(self).selected_spec() == old(self).selected_spec(),
    {
        self.search_mode = true;
        self.status = "Search repos".to_owned();
    }

    /// Feeds a key press to the search box: control-`u` clears the query,
    /// escape clears it and closes the box, enter closes the box and reports
    /// how many repositories are listed, backspace deletes a character, and
    /// a character typed without modifiers or with shift only is added.
    /// After an edit the list is rebuilt and the highlight goes to the top.
    /// The box keeps every key press.
    pub fn handle_repo_search_key(&mut self, key: KeyPress) -> (r: bool)
        requires
            old(self).wf(),
        ensures
            r,
            final(self).wf(),
            final(self).repos_view() == old(self).repos_view(),
            final(self).query_view() == if repo_search_edits(key) {
                crate::issue_list::search_query_after(old(self).query_view(), key)
            } else {
                old(self).query_view()
            },
            final(self).search_mode_spec() == if !crate::picker::is_clear_key(key) && (key.code == KeyCode::Esc
                || key.code == KeyCode::Enter) {
                false
            } else {
                old(self).search_mode_spec()
            },
            repo_search_edits(key) ==> final(self).selected_spec() == 0,
            !repo_search_edits(key) ==> final(self).selected_spec() == old(self).selected_spec(),
            final(self).status_view() == if crate::picker::is_clear_key(key) {
                "Repo search cleared"@
            } else if key.code == KeyCode::Esc {
                Seq::<char>::empty()
            } else if key.code == KeyCode::Enter {
                text::nat_text(old(self).listed().len()) + " repos"@
            } else {
                old(self).status_view()
            },
    {
        if key.modifiers.control && key.code == KeyCode::Char('u') {
            self.query = String::new();
            self.rebuild_repo_picker_filter();
            self.selected = 0;
            self.status = "Repo search cleared".to_owned();
            return true;
        }
        match key.code {
            KeyCode::Esc => {
                self.search_mode = false;
                self.query = String::new();
                self.rebuild_repo_picker_filter();
                self.selected = 0;
                self.status = String::new();
            },
            KeyCode::Enter => {
                self.search_mode = false;
                let mut out = u64_text(self.filtered.len() as u64);
                let tail = chars_of(" repos");
                append_chars(&mut out, tail.as_slice());
                self.status = string_of(out.as_slice());
            },
            KeyCode::Backspace => {
                let _ = self.query.pop();
                self.rebuild_repo_picker_filter();
                self.selected = 0;
            },
            KeyCode::Char(ch) => {
                if key.modifiers.is_empty() || key.modifiers == KeyMods::shift_only() {
                    self.query.push(ch);
                    self.rebuild_repo_picker_filter();
                    self.selected = 0;
                }
            },
            _ => {},
        }
        true
    }

    /// A click on row `index` (or the last row, past the end) highlights it.
    pub fn select_repo_row(&mut self, index: usize)
        ensures
            final(self).selected_spec() == if index < old(self).listed().len() {
                index
            } else if old(self).listed().len() > 0 {
                (old(self).listed().len() - 1) as usize
            } else {
                0
            },
            final(self).repos_view() == old(self).repos_view(),
            final(self).query_view() == old(self).query_view(),
            final(self).search_mode_spec() == old(self).search_mode_spec(),
            final(self).listed() == old(self).listed(),
            final(self).status_view() == old(self).status_view(),
    {
        let last = if self.filtered.len() > 0 { self.filtered.len() - 1 } else { 0 };
        self.selected = if index < self.filtered.len() { index } else { last };
    }

    /// Moves the highlight one row down, staying on the last listed row.
    pub fn move_repo_selection_down(&mut self)
        ensures
            final(self).selected_spec() == if old(self).selected_spec() + 1 < old(self).listed().len() {
                (old(self).selected_spec() + 1) as usize
            } else {
                old(self).selected_spec()
            },
            final(self).repos_view() == old(self).repos_view(),
            final(self).query_view() == old(self).query_view(),
            final(self).search_mode_spec() == old(self).search_mode_spec(),
            final(self).listed() == old(self).listed(),
            final(self).status_view() == old(self).status_view(),
    {
        if self.selected < self.filtered.len() && self.selected + 1 < self.filtered.len() {
            self.selected = self.selected + 1;
        }
    }

    /// Moves the highlight one row up, staying on the first row.
    pub fn move_repo_selection_up(&mut self)
        ensures
            final(self).selected_spec() == if old(self).selected_spec() > 0 {
                (old(self).selected_spec() - 1) as usize
            } else {
                0
            },
            final(self).repos_view() == old(self).repos_view(),
            final(self).query_view() == old(self).query_view(),
            final(self).search_mode_spec() == old(self).search_mode_spec(),
            final(self).listed() == old(self).listed(),
            final(self).status_view() == old(self).status_view(),
    {
        if self.selected > 0 {
            self.selected = self.selected - 1;
        }
    }

    /// Moves the highlight to the first row.
    pub fn jump_repo_top(&mut self)
        ensures
            final(self).selected_spec() == 0,
            final(self).repos_view() == old(self).repos_view(),
            final(self).query_view() == old(self).query_view(),
            final(self).search_mode_spec() == old(self).search_mode_spec(),
            final(self).listed() == old(self).listed(),
            final(self).status_view() == old(self).status_view(),
    {
        self.selected = 0;
    }

    /// Moves the highlight to the last listed row, when any is listed.
    pub fn jump_repo_bottom(&mut self)
        ensures
            final(self).selected_spec() == if old(self).listed().len() > 0 {
                (old(self).listed().len() - 1) as usize
            } else {
                old(self).selected_spec()
            },
            final(self).repos_view() == old(self).repos_view(),
            final(self).query_view() == old(self).query_view(),
            final(self).search_mode_spec() == old(self).search_mode_spec(),
            final(self).listed() == old(self).listed(),
            final(self).status_view() == old(self).status_view(),
    {
        if self.filtered.len() > 0 {
            self.selected = self.filtered.len() - 1;
        }
    }

    /// The indexed repositories.
    pub fn repos(&self) -> (r: &[LocalRepoRow])
        ensures
            r@ == self.repos_view(),
    {
        self.repos.as_slice()
    }

    /// The positions of the listed repositories.
    pub fn filtered_repo_indices(&self) -> (r: &[usize])
        ensures
            r@ == self.listed(),
    {
        self.filtered.as_slice()
    }

    /// The listed repositories, in order.
    pub fn filtered_repo_rows(&self) -> (r: Vec<&LocalRepoRow>)
        requires
            self.wf(),
        ensures
            r.len() == self.listed().len(),
            forall|k: int| 0 <= k < r.len() ==> *(#[trigger] r@[k]) == self.repos_view()[self.listed()[k] as int],
    {
        proof {
            lemma_repo_listing_in_range(self.repos@, self.query@);
        }
        let mut out: Vec<&LocalRepoRow> = Vec::new();
        let mut k: usize = 0;
        while k < self.filtered.len()
            invariant
                k <= self.filtered.len(),
                self.wf(),
                forall|j: int| 0 <= j < self.filtered@.len() ==> self.filtered@[j] < self.repos@.len(),
                out.len() == k,
                forall|j: int| 0 <= j < k ==> *(#[trigger] out@[j]) == self.repos@[self.filtered@[j] as int],
            decreases self.filtered.len() - k,
        {
            out.push(&self.repos[self.filtered[k]]);
            k = k + 1;
        }
        out
    }

    /// The highlighted row.
    pub fn selected_repo(&self) -> (r: usize)
        ensures
            r == self.selected_spec(),
    {
        self.selected
    }

    /// The owner, name and path of the highlighted repository.
    pub fn selected_repo_target(&self) -> (r: Option<(String, String, String)>)
        requires
            self.wf(),
        ensures
            r matches Some(t) ==> self.selected_spec() < self.listed().len() && ({
                let row = self.repos_view()[self.listed()[self.selected_spec() as int] as int];
                t.0 == row.owner && t.1 == row.repo && t.2 == row.path
            }),
            r is None ==> self.selected_spec() >= self.listed().len(),
    {
        proof {
            lemma_repo_listing_in_range(self.repos@, self.query@);
        }
        if self.selected >= self.filtered.len() {
            return None;
        }
        let row = &self.repos[self.filtered[self.selected]];
        Some((row.owner.clone(), row.repo.clone(), row.path.clone()))
    }

    /// The search text.
    pub fn repo_query(&self) -> (r: &str)
        ensures
            r@ == self.query_view(),
    {
        self.query.as_str()
    }

    /// Typed keys go to the search box.
    pub fn repo_search_mode(&self) -> (r: bool)
        ensures
            r == self.search_mode_spec(),
    {
        self.search_mode
    }

    /// The status line.
    pub fn status(&self) -> (r: &str)
        ensures
            r@ == self.status_view(),
    {
        self.status.as_str()
    }
}

/// Every listed position is a repository.
proof fn lemma_repo_listing_in_range(repos: Seq<LocalRepoRow>, query: Seq<char>)
    ensures
        forall|j: int| 0 <= j < repo_listing(repos, query).len() ==> #[trigger] repo_listing(repos, query)[j] < repos.len(),
    decreases repos.len(),
{
    if repos.len() > 0 {
        lemma_repo_listing_in_range(repos.drop_last(), query);
        let prev = repo_listing(repos.drop_last(), query);
        if repo_shown(repos.last(), query) {
            assert forall|j: int| 0 <= j < prev.push((repos.len() - 1) as usize).len() implies #[trigger] prev.push(
                (repos.len() - 1) as usize,
            )[j] < repos.len() by {
                if j < prev.len() {
                    assert(prev.push((repos.len() - 1) as usize)[j] == prev[j]);
                }
            }
        }
    }
}

/// The lower-cased search text of a repository.
fn haystack_of(r: &LocalRepoRow) -> (h: Vec<char>)
    ensures
        h@ == haystack(*r),
{
    let mut all = chars_of(r.owner.as_str());
    let sp = chars_of(" ");
    let repo = chars_of(r.repo.as_str());
    let path = chars_of(r.path.as_str());
    let remote = chars_of(r.remote_name.as_str());
    let url = chars_of(r.url.as_str());
    append_chars(&mut all, sp.as_slice());
    append_chars(&mut all, repo.as_slice());
    append_chars(&mut all, sp.as_slice());
    append_chars(&mut all, path.as_slice());
    append_chars(&mut all, sp.as_slice());
    append_chars(&mut all, remote.as_slice());
    append_chars(&mut all, sp.as_slice());
    append_chars(&mut all, url.as_slice());
    lower_chars(all.as_slice())
}

/// Without search text every repository is listed, in order.
pub proof fn lemma_blank_search_lists_every_repo(repos: Seq<LocalRepoRow>, query: Seq<char>)
    requires
        text::trim(query).len() == 0,
        repos.len() <= usize::MAX,
    ensures
        repo_listing(repos, query) == Seq::new(repos.len(), |i: int| i as usize),
    decreases repos.len(),
{
    assert(text::lower(text::trim(query)).len() == 0);
    if repos.len() > 0 {
        lemma_blank_search_lists_every_repo(repos.drop_last(), query);
        assert(repo_shown(repos.last(), query));
        assert(repo_listing(repos, query) =~= Seq::new(repos.len(), |i: int| i as usize));
    } else {
        assert(repo_listing(repos, query) =~= Seq::new(repos.len(), |i: int| i as usize));
    }
}

} // verus!
