//! The rows the local repository index stores for a checkout: one per
//! GitHub remote, stamped with the time of the scan.
use vstd::prelude::*;

use crate::git::RemoteInfo;
use crate::text;
use crate::text::{string_of, u64_text};

verus! {

/// A GitHub remote of a local checkout, as the index stores it.
#[derive(Debug, Clone, PartialEq, Eq)]
pub struct LocalRepoRow {
    pub path: String,
    pub remote_name: String,
    pub owner: String,
    pub repo: String,
    pub url: String,
    pub last_seen: Option<String>,
    pub last_scanned: Option<String>,
}

/// The row for remote `remote` of the checkout at `path`, seen and scanned at `now`.
pub open spec fn row_for(path: Seq<char>, remote: RemoteInfo, now: Seq<char>, row: LocalRepoRow) -> bool {
    &&& row.path@ == path
    &&& row.remote_name@ == remote.name@
    &&& row.owner@ == remote.slug.owner@
    &&& row.repo@ == remote.slug.repo@
    &&& row.url@ == remote.url@
    &&& row.last_seen matches Some(t) && t@ == now
    &&& row.last_scanned matches Some(t) && t@ == now
}

/// `rows` are the rows of the remotes of the checkout at `path`, one per
/// remote and in their order, each stamped with `now`.
pub open spec fn rows_stamped(path: Seq<char>, remotes: Seq<RemoteInfo>, now: Seq<char>, rows: Seq<LocalRepoRow>) -> bool {
    &&& rows.len() == remotes.len()
    &&& forall|i: int| 0 <= i < rows.len() ==> row_for(path, #[trigger] remotes[i], now, rows[i])
}

/// The decimal text of a number of seconds.
pub open spec fn stamp(secs: u64) -> Seq<char> {
    text::nat_text(secs as nat)
}

/// The index rows of the checkout at `path`: one per remote, in the order of
/// the remotes, each stamped with `now`.
pub fn build_local_repo_rows_at(path: &str, remotes: Vec<RemoteInfo>, now: &str) -> (r: Vec<LocalRepoRow>)
    ensures
        rows_stamped(path@, remotes@, now@, r@),
{
    let mut rows: Vec<LocalRepoRow> = Vec::new();
    let mut i: usize = 0;
    while i < remotes.len()
        invariant
            i <= remotes.len(),
            rows.len() == i,
            forall|j: int| 0 <= j < i ==> row_for(path@, #[trigger] remotes@[j], now@, rows@[j]),
        decreases remotes.len() - i,
    {
        let remote = &remotes[i];
        let row = LocalRepoRow {
            path: path.to_owned(),
            remote_name: remote.name.clone(),
            owner: remote.slug.owner.clone(),
            repo: remote.slug.repo.clone(),
            url: remote.url.clone(),
            last_seen: Some(now.to_owned()),
            last_scanned: Some(now.to_owned()),
        };
        rows.push(row);
        i = i + 1;
    }
    rows
}

/// `std::time::SystemTime::elapsed` on the UNIX epoch: the time since the
/// epoch by the system clock, or `None` when the clock reads a time before
/// the epoch. Nothing is claimed of the value: it is the clock's.
#[verifier::external_body]
fn time_since_epoch() -> (r: Option<std::time::Duration>) {
    match std::time::UNIX_EPOCH.elapsed() {
        Ok(elapsed) => Some(elapsed),
        Err(_) => None,
    }
}

/// `std::time::Duration::as_secs`: the whole seconds of a duration. The
/// duration is opaque here, so nothing is claimed of the value.
#[verifier::external_body]
fn whole_seconds(d: std::time::Duration) -> (r: u64) {
    d.as_secs()
}

/// The whole seconds since the UNIX epoch by the system clock, or `None`
/// when the clock reads a time before the epoch.
fn seconds_since_epoch() -> (r: Option<u64>) {
    match time_since_epoch() {
        Some(d) => Some(whole_seconds(d)),
        None => None,
    }
}

/// The current time as decimal seconds since the UNIX epoch (`0` when the
/// clock reads a time before the epoch).
pub fn now_epoch() -> (r: String)
    ensures
        exists|n: u64| r@ == #[trigger] stamp(n),
{
    let secs = match seconds_since_epoch() {
        Some(s) => s,
        None => 0,
    };
    let digits = u64_text(secs);
    let r = string_of(digits.as_slice());
    assert(r@ == stamp(secs));
    r
}

/// The index rows of the checkout at `path`, stamped with the current time.
pub fn build_local_repo_rows(path: &str, remotes: Vec<RemoteInfo>) -> (r: Vec<LocalRepoRow>)
    ensures
        exists|now: u64| #[trigger] rows_stamped(path@, remotes@, stamp(now), r@),
{
    let now = now_epoch();
    let ghost n = choose|n: u64| now@ == #[trigger] stamp(n);
    let ghost rv = remotes@;
    let rows = build_local_repo_rows_at(path, remotes, now.as_str());
    assert(rows_stamped(path@, rv, stamp(n), rows@));
    rows
}

} // verus!
