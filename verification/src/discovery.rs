//! Finding git checkouts under a directory. The scan is a depth-first walk
//! whose decisions live here: which directories are skipped (too deep, or
//! one of the excluded names), which are repositories (they hold a `.git`
//! directory), and which children are visited next. The caller reads the
//! file system and reports what it found.
use vstd::prelude::*;

use crate::text::{chars_eq, chars_of};

verus! {

/// A git checkout found by a scan.
#[derive(Debug, Clone, PartialEq, Eq)]
pub struct DiscoveredRepo {
    pub path: String,
}

/// A directory waiting to be visited: its path, its last path component
/// (when it has one that is valid UTF-8) and its depth below the scan root.
#[derive(Debug, Clone, PartialEq, Eq)]
pub struct PendingDir {
    pub path: String,
    pub name: Option<String>,
    pub depth: usize,
}

/// The names of directories a scan never enters.
pub open spec fn excluded_names() -> Seq<Seq<char>> {
    seq![
        ".git"@,
        ".cache"@,
        "node_modules"@,
        "target"@,
        "vendor"@,
        "Library"@,
        "Applications"@,
        "AppData"@,
        "Program Files"@,
        "Program Files (x86)"@,
    ]
}

/// The views of static strings.
pub open spec fn static_views(v: Seq<&'static str>) -> Seq<Seq<char>> {
    v.map_values(|s: &'static str| s@)
}

/// The names of directories a scan never enters.
pub fn excluded_dirs() -> (r: Vec<&'static str>)
    ensures
        static_views(r@) == excluded_names(),
{
    let r: Vec<&'static str> = vec![
        ".git",
        ".cache",
        "node_modules",
        "target",
        "vendor",
        "Library",
        "Applications",
        "AppData",
        "Program Files",
        "Program Files (x86)",
    ];
    assert(static_views(r@) =~= excluded_names());
    r
}

/// A directory with last component `name` is skipped: it has a name and
/// the name is one of `excluded`.
pub open spec fn excluded_spec(name: Option<Seq<char>>, excluded: Seq<Seq<char>>) -> bool {
    match name {
        Some(n) => excluded.contains(n),
        None => false,
    }
}

/// The view of an optional string.
pub open spec fn opt_string_view(o: Option<String>) -> Option<Seq<char>> {
    match o {
        Some(s) => Some(s@),
        None => None,
    }
}

/// The view of an optional string slice.
pub open spec fn opt_str_view(o: Option<&str>) -> Option<Seq<char>> {
    match o {
        Some(s) => Some(s@),
        None => None,
    }
}

/// Whether a directory with last component `name` is one of `excluded`.
pub fn is_excluded(name: Option<&str>, excluded: &[&'static str]) -> (r: bool)
    ensures
        r == excluded_spec(opt_str_view(name), static_views(excluded@)),
{
    let n = match name {
        Some(n) => n,
        None => return false,
    };
    let nc = chars_of(n);
    let ghost ev = static_views(excluded@);
    assert(opt_str_view(name) == Some(n@));
    let mut i: usize = 0;
    while i < excluded.len()
        invariant
            i <= excluded.len(),
            opt_str_view(name) == Some(n@),
            nc@ == n@,
            ev == static_views(excluded@),
            forall|j: int| 0 <= j < i ==> ev[j] != n@,
        decreases excluded.len() - i,
    {
        let e = chars_of(excluded[i]);
        if chars_eq(e.as_slice(), nc.as_slice()) {
            assert(ev[i as int] == n@);
            assert(ev.contains(n@));
            return true;
        }
        i = i + 1;
    }
    assert(!ev.contains(n@));
    false
}

/// A pending directory is visited: it is no deeper than `max_depth` and its
/// name is not excluded.
pub open spec fn admitted(d: PendingDir, max_depth: usize) -> bool {
    d.depth <= max_depth && !excluded_spec(opt_string_view(d.name), excluded_names())
}

/// The stack after popping the directories that are skipped, and the first
/// one that is visited, if any.
pub open spec fn pop_admitted(stack: Seq<PendingDir>, max_depth: usize) -> (Seq<PendingDir>, Option<PendingDir>)
    decreases stack.len(),
{
    if stack.len() == 0 {
        (stack, None)
    } else if admitted(stack.last(), max_depth) {
        (stack.drop_last(), Some(stack.last()))
    } else {
        pop_admitted(stack.drop_last(), max_depth)
    }
}

/// The children of a directory at `depth`, as pending directories one level deeper.
pub open spec fn child_entries(children: Seq<(String, Option<String>)>, depth: usize) -> Seq<PendingDir> {
    children.map_values(|c: (String, Option<String>)| PendingDir { path: c.0, name: c.1, depth: (depth + 1) as usize })
}

/// A depth-first scan for git checkouts in progress.
pub struct RepoScan {
    pending: Vec<PendingDir>,
    repos: Vec<DiscoveredRepo>,
    max_depth: usize,
}

impl RepoScan {
    /// The directories still to look at, the last one first.
    pub closed spec fn pending_spec(&self) -> Seq<PendingDir> {
        self.pending@
    }

    /// The repositories found so far, in the order they were found.
    pub closed spec fn repos_spec(&self) -> Seq<DiscoveredRepo> {
        self.repos@
    }

    /// How deep below the root the scan goes.
    pub closed spec fn max_depth_spec(&self) -> usize {
        self.max_depth
    }

    /// A scan of `root` down to `max_depth` levels below it. A root that does
    /// not exist yields nothing.
    pub fn new(root: String, root_name: Option<String>, root_exists: bool, max_depth: usize) -> (s: Self)
        ensures
            s.repos_spec() == Seq::<DiscoveredRepo>::empty(),
            s.max_depth_spec() == max_depth,
            root_exists ==> s.pending_spec() == seq![PendingDir { path: root, name: root_name, depth: 0 }],
            !root_exists ==> s.pending_spec() == Seq::<PendingDir>::empty(),
    {
        let mut pending: Vec<PendingDir> = Vec::new();
        if root_exists {
            pending.push(PendingDir { path: root, name: root_name, depth: 0 });
        }
        RepoScan { pending, repos: Vec::new(), max_depth }
    }

    /// The next directory to look at: directories deeper than the limit or
    /// with an excluded name are dropped on the way. `None` when the scan
    /// is over.
    pub fn next_dir(&mut self) -> (r: Option<PendingDir>)
        ensures
            (final(self).pending_spec(), r) == pop_admitted(old(self).pending_spec(), old(self).max_depth_spec()),
            final(self).repos_spec() == old(self).repos_spec(),
            final(self).max_depth_spec() == old(self).max_depth_spec(),
    {
        let excluded = excluded_dirs();
        loop
            invariant
                static_views(excluded@) == excluded_names(),
                self.repos@ == old(self).repos@,
                self.max_depth == old(self).max_depth,
                pop_admitted(self.pending@, self.max_depth) == pop_admitted(
                    old(self).pending@,
                    old(self).max_depth,
                ),
            decreases self.pending.len(),
        {
            let top = match self.pending.pop() {
                Some(d) => d,
                None => {
                    assert(self.pending@.len() == 0);
                    return None;
                },
            };
            let name = match &top.name {
                Some(n) => Some(n.as_str()),
                None => None,
            };
            if top.depth <= self.max_depth && !is_excluded(name, excluded.as_slice()) {
                return Some(top);
            }
        }
    }

    /// Records what was found at `dir`: a repository when it holds a `.git`
    /// directory (its children are then not visited), and otherwise its
    /// child directories, which are visited one level deeper.
    pub fn visit(&mut self, dir: PendingDir, has_git_dir: bool, child_dirs: Vec<(String, Option<String>)>)
        ensures
            final(self).max_depth_spec() == old(self).max_depth_spec(),
            has_git_dir ==> final(self).repos_spec() == old(self).repos_spec().push(DiscoveredRepo { path: dir.path })
                && final(self).pending_spec() == old(self).pending_spec(),
            !has_git_dir ==> final(self).repos_spec() == old(self).repos_spec(),
            !has_git_dir && dir.depth < usize::MAX ==> final(self).pending_spec() == old(self).pending_spec()
                + child_entries(child_dirs@, dir.depth),
            !has_git_dir && dir.depth == usize::MAX ==> final(self).pending_spec() == old(self).pending_spec(),
    {
        if has_git_dir {
            self.repos.push(DiscoveredRepo { path: dir.path });
            return;
        }
        if dir.depth == usize::MAX {
            return;
        }
        let depth = dir.depth + 1;
        let ghost start = self.pending@;
        let mut i: usize = 0;
        while i < child_dirs.len()
            invariant
                i <= child_dirs.len(),
                depth == dir.depth + 1,
                self.repos@ == old(self).repos@,
                self.max_depth == old(self).max_depth,
                self.pending@ == start + child_entries(child_dirs@.take(i as int), dir.depth),
            decreases child_dirs.len() - i,
        {
            let path = child_dirs[i].0.clone();
            let name = match &child_dirs[i].1 {
                Some(n) => Some(n.clone()),
                None => None,
            };
            self.pending.push(PendingDir { path, name, depth });
            assert(child_dirs@.take(i + 1) =~= child_dirs@.take(i as int).push(child_dirs@[i as int]));
            assert(child_entries(child_dirs@.take(i + 1), dir.depth) =~= child_entries(
                child_dirs@.take(i as int),
                dir.depth,
            ).push(PendingDir { path: child_dirs@[i as int].0, name: child_dirs@[i as int].1, depth }));
            i = i + 1;
        }
        assert(child_dirs@.take(child_dirs.len() as int) =~= child_dirs@);
    }

    /// The repositories found, in the order they were found.
    pub fn into_repos(self) -> (r: Vec<DiscoveredRepo>)
        ensures
            r@ == self.repos_spec(),
    {
        self.repos
    }
}

/// Of repositories found under several roots, each the first time its key
/// (its canonical path) turns up.
pub open spec fn first_by_key(found: Seq<(Seq<char>, DiscoveredRepo)>) -> Seq<DiscoveredRepo>
    decreases found.len(),
{
    if found.len() == 0 {
        Seq::empty()
    } else {
        let prev = found.drop_last();
        if exists|i: int| 0 <= i < prev.len() && #[trigger] prev[i].0 == found.last().0 {
            first_by_key(prev)
        } else {
            first_by_key(prev).push(found.last().1)
        }
    }
}

/// The keys and repositories of a list of keyed repositories.
pub open spec fn keyed_views(found: Seq<(String, DiscoveredRepo)>) -> Seq<(Seq<char>, DiscoveredRepo)> {
    found.map_values(|f: (String, DiscoveredRepo)| (f.0@, f.1))
}

/// Each repository the first time its key turns up, in order.
pub fn dedupe_repos(found: Vec<(String, DiscoveredRepo)>) -> (r: Vec<DiscoveredRepo>)
    ensures
        r@ == first_by_key(keyed_views(found@)),
{
    let ghost fv = keyed_views(found@);
    let mut seen: Vec<Vec<char>> = Vec::new();
    let mut kept: Vec<DiscoveredRepo> = Vec::new();
    let mut i: usize = 0;
    while i < found.len()
        invariant
            i <= found.len(),
            fv == keyed_views(found@),
            seen.len() == i,
            forall|j: int| 0 <= j < i ==> #[trigger] seen@[j]@ == fv[j].0,
            kept@ == first_by_key(fv.take(i as int)),
        decreases found.len() - i,
    {
        let key = chars_of(found[i].0.as_str());
        assert(fv[i as int] == (found@[i as int].0@, found@[i as int].1));
        let mut j: usize = 0;
        let mut dup = false;
        while j < seen.len()
            invariant
                j <= seen.len(),
                seen.len() == i,
                key@ == fv[i as int].0,
                !dup ==> forall|m: int| 0 <= m < j ==> seen@[m]@ != key@,
                dup ==> exists|m: int| 0 <= m < i && seen@[m]@ == key@,
            decreases seen.len() - j,
        {
            if !dup && chars_eq(seen[j].as_slice(), key.as_slice()) {
                dup = true;
            }
            j = j + 1;
        }
        let ghost prev = fv.take(i as int);
        assert(fv.take(i + 1).drop_last() =~= prev);
        assert(fv.take(i + 1).last() == fv[i as int]);
        if dup {
            let ghost m = choose|m: int| 0 <= m < i && seen@[m]@ == key@;
            assert(prev[m].0 == fv[i as int].0);
        } else {
            assert forall|m: int| 0 <= m < prev.len() implies #[trigger] prev[m].0 != fv[i as int].0 by {
                assert(seen@[m]@ == fv[m].0);
            }
            kept.push(DiscoveredRepo { path: found[i].1.path.clone() });
        }
        seen.push(key);
        i = i + 1;
    }
    assert(fv.take(found.len() as int) =~= fv);
    kept
}

/// The directory a scan hands out next is one it visits (no deeper than the
/// limit and not excluded), and what is left to look at is a prefix of
/// what was there: only skipped directories and the one handed out leave.
pub proof fn lemma_next_dir_admitted(stack: Seq<PendingDir>, max_depth: usize)
    ensures
        pop_admitted(stack, max_depth).1 matches Some(d) ==> admitted(d, max_depth) && stack.contains(d),
        pop_admitted(stack, max_depth).0.len() <= stack.len(),
        pop_admitted(stack, max_depth).0 == stack.take(pop_admitted(stack, max_depth).0.len() as int),
    decreases stack.len(),
{
    if stack.len() > 0 {
        if admitted(stack.last(), max_depth) {
            assert(stack[stack.len() - 1] == stack.last());
            assert(stack.drop_last() =~= stack.take(stack.len() - 1));
        } else {
            lemma_next_dir_admitted(stack.drop_last(), max_depth);
            let r = pop_admitted(stack.drop_last(), max_depth);
            if r.1 is Some {
                let d = r.1.unwrap();
                let k = choose|k: int| 0 <= k < stack.drop_last().len() && stack.drop_last()[k] == d;
                assert(stack[k] == d);
            }
            assert(stack.drop_last().take(r.0.len() as int) =~= stack.take(r.0.len() as int));
        }
    }
}

/// Some picked position holds key `k`.
pub open spec fn key_taken(found: Seq<(Seq<char>, DiscoveredRepo)>, idx: Seq<int>, k: Seq<char>) -> bool {
    exists|m: int| 0 <= m < idx.len() && #[trigger] found[idx[m]].0 == k
}

/// `out` is `found` with each key kept the first time it turns up: `idx`
/// gives, in increasing order, the positions kept; each is the first
/// position of its key, so no key is kept twice; and every key of `found`
/// is kept.
pub open spec fn first_picks(found: Seq<(Seq<char>, DiscoveredRepo)>, idx: Seq<int>, out: Seq<DiscoveredRepo>) -> bool {
    &&& idx.len() == out.len()
    &&& forall|m: int| 0 <= m < idx.len() ==> 0 <= #[trigger] idx[m] < found.len() && out[m] == found[idx[m]].1
    &&& forall|m: int, n: int| 0 <= m < n < idx.len() ==> #[trigger] idx[m] < #[trigger] idx[n]
    &&& forall|m: int, j: int| 0 <= m < idx.len() && 0 <= j < idx[m] ==> #[trigger] found[j].0 != found[#[trigger] idx[m]].0
    &&& forall|m: int, n: int|
        0 <= m < n < idx.len() ==> found[#[trigger] idx[m]].0 != found[#[trigger] idx[n]].0
    &&& forall|j: int| 0 <= j < found.len() ==> key_taken(found, idx, #[trigger] found[j].0)
}

proof fn lemma_first_by_key_picks(found: Seq<(Seq<char>, DiscoveredRepo)>) -> (idx: Seq<int>)
    ensures
        first_picks(found, idx, first_by_key(found)),
    decreases found.len(),
{
    if found.len() == 0 {
        Seq::<int>::empty()
    } else {
        let prev = found.drop_last();
        let pidx = lemma_first_by_key_picks(prev);
        let last = found.len() - 1;
        assert forall|j: int| 0 <= j < prev.len() implies #[trigger] found[j] == prev[j] by {}
        if exists|i: int| 0 <= i < prev.len() && #[trigger] prev[i].0 == found.last().0 {
            let w = choose|i: int| 0 <= i < prev.len() && #[trigger] prev[i].0 == found.last().0;
            assert forall|m: int| 0 <= m < pidx.len() implies 0 <= #[trigger] pidx[m] < found.len()
                && first_by_key(found)[m] == found[pidx[m]].1 by {
                assert(found[pidx[m]] == prev[pidx[m]]);
            }
            assert forall|m: int, j: int| 0 <= m < pidx.len() && 0 <= j < pidx[m] implies #[trigger] found[j].0
                != found[#[trigger] pidx[m]].0 by {
                assert(found[pidx[m]] == prev[pidx[m]]);
                assert(found[j] == prev[j]);
            }
            assert forall|m: int, n: int| 0 <= m < n < pidx.len() implies found[#[trigger] pidx[m]].0
                != found[#[trigger] pidx[n]].0 by {
                assert(found[pidx[m]] == prev[pidx[m]]);
                assert(found[pidx[n]] == prev[pidx[n]]);
            }
            assert forall|j: int| 0 <= j < found.len() implies key_taken(found, pidx, #[trigger] found[j].0) by {
                let jj = if j == last { w } else { j };
                assert(prev[jj].0 == found[j].0);
                assert(key_taken(prev, pidx, prev[jj].0));
                let m = choose|m: int| 0 <= m < pidx.len() && #[trigger] prev[pidx[m]].0 == prev[jj].0;
                assert(found[pidx[m]] == prev[pidx[m]]);
            }
            pidx
        } else {
            let idx = pidx.push(last);
            let out = first_by_key(found);
            assert(out == first_by_key(prev).push(found.last().1));
            assert forall|m: int| 0 <= m < idx.len() implies 0 <= #[trigger] idx[m] < found.len() && out[m]
                == found[idx[m]].1 by {
                if m < pidx.len() {
                    assert(idx[m] == pidx[m]);
                    assert(found[pidx[m]] == prev[pidx[m]]);
                }
            }
            assert forall|m: int, n: int| 0 <= m < n < idx.len() implies #[trigger] idx[m] < #[trigger] idx[n] by {
                assert(idx[m] == pidx[m]);
                if n < pidx.len() {
                    assert(idx[n] == pidx[n]);
                }
            }
            assert forall|m: int, j: int| 0 <= m < idx.len() && 0 <= j < idx[m] implies #[trigger] found[j].0
                != found[#[trigger] idx[m]].0 by {
                assert(found[j] == prev[j]);
                if m < pidx.len() {
                    assert(idx[m] == pidx[m]);
                    assert(found[pidx[m]] == prev[pidx[m]]);
                } else {
                    assert(idx[m] == last);
                    assert(prev[j].0 != found.last().0);
                }
            }
            assert forall|m: int, n: int| 0 <= m < n < idx.len() implies found[#[trigger] idx[m]].0
                != found[#[trigger] idx[n]].0 by {
                assert(idx[m] == pidx[m]);
                assert(found[pidx[m]] == prev[pidx[m]]);
                if n < pidx.len() {
                    assert(idx[n] == pidx[n]);
                    assert(found[pidx[n]] == prev[pidx[n]]);
                } else {
                    assert(idx[n] == last);
                    assert(prev[pidx[m]].0 != found.last().0);
                }
            }
            assert forall|j: int| 0 <= j < found.len() implies key_taken(found, idx, #[trigger] found[j].0) by {
                if j == last {
                    assert(idx[pidx.len() as int] == last);
                    assert(found[idx[pidx.len() as int]].0 == found[j].0);
                } else {
                    assert(found[j] == prev[j]);
                    assert(key_taken(prev, pidx, prev[j].0));
                    let m = choose|m: int| 0 <= m < pidx.len() && #[trigger] prev[pidx[m]].0 == prev[j].0;
                    assert(idx[m] == pidx[m]);
                    assert(found[pidx[m]] == prev[pidx[m]]);
                    assert(found[idx[m]].0 == found[j].0);
                }
            }
            idx
        }
    }
}

/// Deduplicating repositories found under several roots keeps each key
/// once: the repositories kept are those at the first position of each
/// key, in the order found, no two with the same key, and every key found
/// is kept (see `first_picks`).
pub proof fn lemma_dedupe_keeps_first_of_each_key(found: Seq<(Seq<char>, DiscoveredRepo)>)
    ensures
        exists|idx: Seq<int>| first_picks(found, idx, first_by_key(found)),
{
    let idx = lemma_first_by_key_picks(found);
}

} // verus!
