//! The numbers of the issues and pull requests linked to a work item, and
//! how the linked-item picker labels them.
use vstd::prelude::*;

use std::collections::{HashMap, HashSet};

use crate::app::{IssueFilter, View, WorkItemMode};
use vstd::view::View as _;
use crate::issue_list::{listed_position, IssueList};
use crate::issues::{self, IssueRow};
use crate::text;
use crate::text::{append_chars, chars_of, i64_text, string_of, trim_chars};

verus! {

broadcast use vstd::std_specs::hash::group_hash_axioms;

/// The numbers of `s` in order of first occurrence, each once.
pub open spec fn dedupe_spec(s: Seq<i64>) -> Seq<i64>
    decreases s.len(),
{
    if s.len() == 0 {
        Seq::empty()
    } else {
        let d = dedupe_spec(s.drop_last());
        if d.contains(s.last()) {
            d
        } else {
            d.push(s.last())
        }
    }
}

/// `values` with `value` added at the end unless it is already there.
pub open spec fn push_unique_spec(values: Seq<i64>, value: i64) -> Seq<i64> {
    if values.contains(value) {
        values
    } else {
        values.push(value)
    }
}

/// Whether `v` holds `value`.
fn holds_number(v: &Vec<i64>, value: i64) -> (r: bool)
    ensures
        r == v@.contains(value),
{
    let mut i: usize = 0;
    while i < v.len()
        invariant
            i <= v.len(),
            forall|j: int| 0 <= j < i ==> v@[j] != value,
        decreases v.len() - i,
    {
        if v[i] == value {
            return true;
        }
        i = i + 1;
    }
    false
}

/// The numbers in order of first occurrence, each once.
pub fn dedupe_numbers(values: Vec<i64>) -> (r: Vec<i64>)
    ensures
        r@ == dedupe_spec(values@),
{
    let mut deduped: Vec<i64> = Vec::new();
    let mut i: usize = 0;
    while i < values.len()
        invariant
            i <= values.len(),
            deduped@ == dedupe_spec(values@.take(i as int)),
        decreases values.len() - i,
    {
        assert(values@.take(i + 1).drop_last() =~= values@.take(i as int));
        let value = values[i];
        if !holds_number(&deduped, value) {
            deduped.push(value);
        }
        i = i + 1;
    }
    assert(values@.take(values.len() as int) =~= values@);
    deduped
}

/// Adds `value` at the end unless it is already there.
pub fn push_unique(values: &mut Vec<i64>, value: i64)
    ensures
        final(values)@ == push_unique_spec(old(values)@, value),
{
    if holds_number(values, value) {
        return;
    }
    values.push(value);
}

/// `#<number>  <title>` with the title trimmed, or `#<number>` when there
/// is no title or it is blank.
pub open spec fn picker_label_spec(number: i64, title: Option<Seq<char>>) -> Seq<char> {
    match title {
        Some(t) if text::trim(t).len() > 0 => "#"@ + text::int_text(number as int) + "  "@ + text::trim(t),
        _ => "#"@ + text::int_text(number as int),
    }
}

/// The view of an optional string slice.
pub open spec fn opt_str_view(o: Option<&str>) -> Option<Seq<char>> {
    match o {
        Some(s) => Some(s@),
        None => None,
    }
}

/// The line the linked-item picker shows for one linked number.
pub fn linked_picker_label(number: i64, title: Option<&str>) -> (r: String)
    ensures
        r@ == picker_label_spec(number, opt_str_view(title)),
{
    let mut label = chars_of("#");
    let n = i64_text(number);
    append_chars(&mut label, n.as_slice());
    if let Some(t) = title {
        let raw = chars_of(t);
        let trimmed = trim_chars(raw.as_slice());
        if trimmed.len() > 0 {
            let gap = chars_of("  ");
            append_chars(&mut label, gap.as_slice());
            append_chars(&mut label, trimmed.as_slice());
        }
    }
    string_of(label.as_slice())
}

// ---------------------------------------------------------------------------
// Known links
// ---------------------------------------------------------------------------

/// The model of the known links.
pub struct LinkedView {
    /// For each issue number, the numbers of its linked pull requests.
    pub pull_requests: Map<i64, Seq<i64>>,
    /// For each pull request number, the numbers of its linked issues.
    pub issues: Map<i64, Seq<i64>>,
    /// Issues whose linked pull requests are being looked up.
    pub pull_request_lookups: Set<i64>,
    /// Pull requests whose linked issues are being looked up.
    pub issue_lookups: Set<i64>,
    /// The item (and its kind) to return to after following a link.
    pub navigation_origin: Option<(i64, WorkItemMode)>,
}

/// The links between issues and pull requests that are known so far, and
/// the lookups under way.
pub struct LinkedState {
    pull_requests: HashMap<i64, Vec<i64>>,
    issues: HashMap<i64, Vec<i64>>,
    pull_request_lookups: HashSet<i64>,
    issue_lookups: HashSet<i64>,
    navigation_origin: Option<(i64, WorkItemMode)>,
}

/// The number lists of a map, as sequences.
pub open spec fn seq_values(m: Map<i64, Vec<i64>>) -> Map<i64, Seq<i64>> {
    m.map_values(|v: Vec<i64>| v@)
}

impl vstd::view::View for LinkedState {
    type V = LinkedView;

    closed spec fn view(&self) -> LinkedView {
        LinkedView {
            pull_requests: seq_values(self.pull_requests@),
            issues: seq_values(self.issues@),
            pull_request_lookups: self.pull_request_lookups@,
            issue_lookups: self.issue_lookups@,
            navigation_origin: self.navigation_origin,
        }
    }
}

/// `m` after `value` is linked back from each of `keys`, in order: added
/// once to the list a key already has, or the key's only entry.
pub open spec fn linked_back(m: Map<i64, Seq<i64>>, keys: Seq<i64>, value: i64) -> Map<i64, Seq<i64>>
    decreases keys.len(),
{
    if keys.len() == 0 {
        m
    } else {
        let m0 = linked_back(m, keys.drop_last(), value);
        let k = keys.last();
        m0.insert(
            k,
            if m0.contains_key(k) {
                push_unique_spec(m0[k], value)
            } else {
                seq![value]
            },
        )
    }
}

/// `s` without any of `keys`.
pub open spec fn without_all(s: Set<i64>, keys: Seq<i64>) -> Set<i64>
    decreases keys.len(),
{
    if keys.len() == 0 {
        s
    } else {
        without_all(s, keys.drop_last()).remove(keys.last())
    }
}

/// A lookup answer that names nothing leaves a link already known in place.
pub open spec fn keeps_known(m: Map<i64, Seq<i64>>, key: i64, found: Seq<i64>) -> bool {
    dedupe_spec(found).len() == 0 && m.contains_key(key) && m[key].len() > 0
}

/// The known links after the lookup of an issue's pull requests answered `found`.
pub open spec fn with_pull_requests(v: LinkedView, issue: i64, found: Seq<i64>) -> LinkedView {
    let ps = dedupe_spec(found);
    if keeps_known(v.pull_requests, issue, found) {
        LinkedView { pull_request_lookups: v.pull_request_lookups.remove(issue), ..v }
    } else {
        LinkedView {
            pull_requests: v.pull_requests.insert(issue, ps),
            issues: linked_back(v.issues, ps, issue),
            pull_request_lookups: v.pull_request_lookups.remove(issue),
            issue_lookups: without_all(v.issue_lookups, ps),
            navigation_origin: v.navigation_origin,
        }
    }
}

/// The known links after the lookup of a pull request's issues answered `found`.
pub open spec fn with_issues(v: LinkedView, pull: i64, found: Seq<i64>) -> LinkedView {
    let is = dedupe_spec(found);
    if keeps_known(v.issues, pull, found) {
        LinkedView { issue_lookups: v.issue_lookups.remove(pull), ..v }
    } else {
        LinkedView {
            issues: v.issues.insert(pull, is),
            pull_requests: linked_back(v.pull_requests, is, pull),
            issue_lookups: v.issue_lookups.remove(pull),
            pull_request_lookups: without_all(v.pull_request_lookups, is),
            navigation_origin: v.navigation_origin,
        }
    }
}

/// Some item numbered `n` is shown by `list` with kind `mode` and filter
/// `filter` (under the list's assignee filter and search).
pub open spec fn shown_numbered(list: IssueList, mode: WorkItemMode, filter: IssueFilter, n: i64) -> bool {
    exists|i: int|
        issues::issue_shown(list.issues_view(), mode, filter, list.assignee_spec(), list.query_view(), i)
            && (#[trigger] list.issues_view()[i]).number == n
}

/// A listed position holds the number looked for.
proof fn lemma_listed_position_value(issues: Seq<IssueRow>, listed: Seq<usize>, n: i64)
    ensures
        listed_position(issues, listed, n) matches Some(p) ==> 0 <= p < listed.len() && 0 <= listed[p] < issues.len()
            && issues[listed[p] as int].number == n,
        (exists|x: int| 0 <= x < listed.len() && listed[x] < issues.len() && (#[trigger] issues[listed[x] as int]).number == n)
            ==> listed_position(issues, listed, n) is Some,
    decreases listed.len(),
{
    if listed.len() > 0 {
        let init = listed.drop_last();
        lemma_listed_position_value(issues, init, n);
        if exists|x: int| 0 <= x < listed.len() && listed[x] < issues.len() && (#[trigger] issues[listed[x] as int]).number == n {
            let x = choose|x: int| 0 <= x < listed.len() && listed[x] < issues.len() && (#[trigger] issues[listed[x] as int]).number == n;
            if x < listed.len() - 1 {
                assert(init[x] == listed[x]);
                assert(issues[init[x] as int].number == n);
            }
        }
    }
}

/// A well-formed list finds an item by number exactly when it shows one.
proof fn lemma_listed_position_shown(list: IssueList, n: i64)
    requires
        list.wf(),
    ensures
        (listed_position(list.issues_view(), list.listed(), n) is Some) == shown_numbered(
            list,
            list.mode_spec(),
            list.filter_spec(),
            n,
        ),
{
    let issues = list.issues_view();
    let listed = list.listed();
    lemma_listed_position_value(issues, listed, n);
    if listed_position(issues, listed, n) is Some {
        let p = listed_position(issues, listed, n)->0;
        assert(issues::issue_shown(issues, list.mode_spec(), list.filter_spec(), list.assignee_spec(), list.query_view(), listed[p] as int));
        assert(issues[listed[p] as int].number == n);
    }
    if shown_numbered(list, list.mode_spec(), list.filter_spec(), n) {
        let i = choose|i: int|
            issues::issue_shown(issues, list.mode_spec(), list.filter_spec(), list.assignee_spec(), list.query_view(), i)
                && (#[trigger] issues[i]).number == n;
        assert(listed.contains(i as usize));
        let x = choose|x: int| 0 <= x < listed.len() && listed[x] == i as usize;
        assert(issues[listed[x] as int].number == n);
    }
}

/// A copy of a list of numbers.
fn copy_numbers(v: &Vec<i64>) -> (r: Vec<i64>)
    ensures
        r@ == v@,
{
    let mut out: Vec<i64> = Vec::new();
    let mut i: usize = 0;
    while i < v.len()
        invariant
            i <= v.len(),
            out@ == v@.take(i as int),
        decreases v.len() - i,
    {
        out.push(v[i]);
        i = i + 1;
        assert(out@ =~= v@.take(i as int));
    }
    assert(v@.take(v.len() as int) =~= v@);
    out
}

/// The numbers `key` maps to, when it maps to any.
fn numbers_at(m: &HashMap<i64, Vec<i64>>, key: i64) -> (r: Option<Vec<i64>>)
    ensures
        m@.contains_key(key) ==> r is Some && r->0@ == m@[key]@,
        !m@.contains_key(key) ==> r is None,
{
    match m.get(&key) {
        Some(v) => Some(copy_numbers(v)),
        None => None,
    }
}

/// Links `value` back from each of `keys` in `m`, and ends the lookups of `keys`.
fn link_back(m: &mut HashMap<i64, Vec<i64>>, lookups: &mut HashSet<i64>, keys: &Vec<i64>, value: i64)
    ensures
        seq_values(final(m)@) == linked_back(seq_values(old(m)@), keys@, value),
        final(lookups)@ == without_all(old(lookups)@, keys@),
{
    let ghost m0 = seq_values(m@);
    let ghost l0 = lookups@;
    let mut i: usize = 0;
    while i < keys.len()
        invariant
            i <= keys.len(),
            seq_values(m@) == linked_back(m0, keys@.take(i as int), value),
            lookups@ == without_all(l0, keys@.take(i as int)),
        decreases keys.len() - i,
    {
        let k = keys[i];
        assert(keys@.take(i + 1).drop_last() =~= keys@.take(i as int));
        assert(keys@.take(i + 1).last() == k);
        let ghost before = seq_values(m@);
        let entry: Vec<i64> = match numbers_at(m, k) {
            Some(mut existing) => {
                push_unique(&mut existing, value);
                existing
            },
            None => {
                let mut one: Vec<i64> = Vec::new();
                one.push(value);
                assert(one@ =~= seq![value]);
                one
            },
        };
        assert(entry@ == if before.contains_key(k) { push_unique_spec(before[k], value) } else { seq![value] });
        let ghost raw = m@;
        m.insert(k, entry);
        assert(m@ == raw.insert(k, entry));
        assert(seq_values(m@) =~= before.insert(
            k,
            if before.contains_key(k) { push_unique_spec(before[k], value) } else { seq![value] },
        ));
        lookups.remove(&k);
        i = i + 1;
    }
    assert(keys@.take(keys.len() as int) =~= keys@);
}

impl LinkedState {
    /// Nothing known, nothing looked up.
    pub fn new() -> (r: Self)
        ensures
            r@.pull_requests == Map::<i64, Seq<i64>>::empty(),
            r@.issues == Map::<i64, Seq<i64>>::empty(),
            r@.pull_request_lookups == Set::<i64>::empty(),
            r@.issue_lookups == Set::<i64>::empty(),
            r@.navigation_origin is None,
    {
        let r = LinkedState {
            pull_requests: HashMap::new(),
            issues: HashMap::new(),
            pull_request_lookups: HashSet::new(),
            issue_lookups: HashSet::new(),
            navigation_origin: None,
        };
        assert(seq_values(r.pull_requests@) =~= Map::<i64, Seq<i64>>::empty());
        assert(seq_values(r.issues@) =~= Map::<i64, Seq<i64>>::empty());
        r
    }

    /// The first pull request linked to issue `issue`, when one is known.
    pub fn linked_pull_request_for_issue(&self, issue: i64) -> (r: Option<i64>)
        ensures
            r == (if self@.pull_requests.contains_key(issue) && self@.pull_requests[issue].len() > 0 {
                Some(self@.pull_requests[issue][0])
            } else {
                None
            }),
    {
        match self.pull_requests.get(&issue) {
            Some(v) => if v.len() > 0 { Some(v[0]) } else { None },
            None => None,
        }
    }

    /// The first issue linked to pull request `pull`, when one is known.
    pub fn linked_issue_for_pull_request(&self, pull: i64) -> (r: Option<i64>)
        ensures
            r == (if self@.issues.contains_key(pull) && self@.issues[pull].len() > 0 {
                Some(self@.issues[pull][0])
            } else {
                None
            }),
    {
        match self.issues.get(&pull) {
            Some(v) => if v.len() > 0 { Some(v[0]) } else { None },
            None => None,
        }
    }

    /// The pull requests linked to issue `issue` (none when nothing is known).
    pub fn linked_pull_requests_for_issue(&self, issue: i64) -> (r: Vec<i64>)
        ensures
            r@ == (if self@.pull_requests.contains_key(issue) { self@.pull_requests[issue] } else { Seq::empty() }),
    {
        match numbers_at(&self.pull_requests, issue) {
            Some(v) => v,
            None => Vec::new(),
        }
    }

    /// The issues linked to pull request `pull` (none when nothing is known).
    pub fn linked_issues_for_pull_request(&self, pull: i64) -> (r: Vec<i64>)
        ensures
            r@ == (if self@.issues.contains_key(pull) { self@.issues[pull] } else { Seq::empty() }),
    {
        match numbers_at(&self.issues, pull) {
            Some(v) => v,
            None => Vec::new(),
        }
    }

    /// Whether a lookup of issue `issue`'s pull requests has answered.
    pub fn linked_pull_request_known(&self, issue: i64) -> (r: bool)
        ensures
            r == self@.pull_requests.contains_key(issue),
    {
        self.pull_requests.contains_key(&issue)
    }

    /// Whether a lookup of pull request `pull`'s issues has answered.
    pub fn linked_issue_known(&self, pull: i64) -> (r: bool)
        ensures
            r == self@.issues.contains_key(pull),
    {
        self.issues.contains_key(&pull)
    }

    /// Starts looking up issue `issue`'s pull requests, unless they are
    /// known or already being looked up; whether a lookup started.
    pub fn begin_linked_pull_request_lookup(&mut self, issue: i64) -> (started: bool)
        ensures
            started == (!old(self)@.pull_requests.contains_key(issue) && !old(self)@.pull_request_lookups.contains(issue)),
            final(self)@ == (if old(self)@.pull_requests.contains_key(issue) {
                old(self)@
            } else {
                LinkedView { pull_request_lookups: old(self)@.pull_request_lookups.insert(issue), ..old(self)@ }
            }),
    {
        if self.pull_requests.contains_key(&issue) {
            return false;
        }
        self.pull_request_lookups.insert(issue)
    }

    /// Starts looking up pull request `pull`'s issues, unless they are
    /// known or already being looked up; whether a lookup started.
    pub fn begin_linked_issue_lookup(&mut self, pull: i64) -> (started: bool)
        ensures
            started == (!old(self)@.issues.contains_key(pull) && !old(self)@.issue_lookups.contains(pull)),
            final(self)@ == (if old(self)@.issues.contains_key(pull) {
                old(self)@
            } else {
                LinkedView { issue_lookups: old(self)@.issue_lookups.insert(pull), ..old(self)@ }
            }),
    {
        if self.issues.contains_key(&pull) {
            return false;
        }
        self.issue_lookups.insert(pull)
    }

    /// The lookup of issue `issue`'s pull requests ended.
    pub fn end_linked_pull_request_lookup(&mut self, issue: i64)
        ensures
            final(self)@ == (LinkedView { pull_request_lookups: old(self)@.pull_request_lookups.remove(issue), ..old(self)@ }),
    {
        self.pull_request_lookups.remove(&issue);
    }

    /// The lookup of pull request `pull`'s issues ended.
    pub fn end_linked_issue_lookup(&mut self, pull: i64)
        ensures
            final(self)@ == (LinkedView { issue_lookups: old(self)@.issue_lookups.remove(pull), ..old(self)@ }),
    {
        self.issue_lookups.remove(&pull);
    }

    /// The issue shown or highlighted (`issue`) has a pull request known to be linked.
    pub fn selected_issue_has_known_linked_pr(&self, issue: Option<&IssueRow>) -> (r: bool)
        ensures
            r == (match issue {
                Some(row) => !row.is_pr && self@.pull_requests.contains_key(row.number)
                    && self@.pull_requests[row.number].len() > 0,
                None => false,
            }),
    {
        match issue {
            Some(row) => !row.is_pr && self.linked_pull_request_for_issue(row.number).is_some(),
            None => false,
        }
    }

    /// The pull request shown or highlighted (`issue`) has an issue known to be linked.
    pub fn selected_pull_request_has_known_linked_issue(&self, issue: Option<&IssueRow>) -> (r: bool)
        ensures
            r == (match issue {
                Some(row) => row.is_pr && self@.issues.contains_key(row.number) && self@.issues[row.number].len() > 0,
                None => false,
            }),
    {
        match issue {
            Some(row) => row.is_pr && self.linked_issue_for_pull_request(row.number).is_some(),
            None => false,
        }
    }

    /// Remembers `issue` (and its kind) as the item to return to.
    pub fn capture_linked_navigation_origin(&mut self, issue: Option<&IssueRow>)
        ensures
            final(self)@ == (match issue {
                Some(row) => LinkedView {
                    navigation_origin: Some((row.number, if row.is_pr { WorkItemMode::PullRequests } else { WorkItemMode::Issues })),
                    ..old(self)@
                },
                None => old(self)@,
            }),
    {
        if let Some(row) = issue {
            let mode = if row.is_pr { WorkItemMode::PullRequests } else { WorkItemMode::Issues };
            self.navigation_origin = Some((row.number, mode));
        }
    }

    /// Takes the picker's origin, when it has one, as the item to return to.
    pub fn apply_linked_picker_navigation_origin(&mut self, picker: &LinkedPicker)
        ensures
            final(self)@ == (match picker@.origin {
                Some(o) => LinkedView { navigation_origin: Some(o), ..old(self)@ },
                None => old(self)@,
            }),
    {
        if let Some(origin) = picker.origin {
            self.navigation_origin = Some(origin);
        }
    }

    /// Forgets the item to return to.
    pub fn clear_linked_navigation_origin(&mut self)
        ensures
            final(self)@ == (LinkedView { navigation_origin: None, ..old(self)@ }),
    {
        self.navigation_origin = None;
    }

    /// The item (and its kind) to return to, if any.
    pub fn navigation_origin(&self) -> (r: Option<(i64, WorkItemMode)>)
        ensures
            r == self@.navigation_origin,
    {
        self.navigation_origin
    }

    /// Returns the list to the remembered item: it shows items of the
    /// remembered kind, open ones when the item is listed among them and
    /// closed ones otherwise, with the item highlighted when it is listed.
    /// The remembered item is forgotten. Whether the item was found, and
    /// the status line to show (none when nothing was remembered).
    pub fn restore_linked_navigation_origin(&mut self, list: &mut IssueList) -> (r: (bool, Option<String>))
        requires
            old(list).wf(),
        ensures
            final(list).wf(),
            old(self)@.navigation_origin is None ==> r.0 == false && r.1 is None && final(self)@ == old(self)@
                && *final(list) == *old(list),
            old(self)@.navigation_origin matches Some(origin) ==> ({
                let n = origin.0;
                let mode = origin.1;
                let in_open = shown_numbered(*old(list), mode, IssueFilter::Open, n);
                let in_closed = shown_numbered(*old(list), mode, IssueFilter::Closed, n);
                &&& final(self)@ == (LinkedView { navigation_origin: None, ..old(self)@ })
                &&& r.0 == (in_open || in_closed)
                &&& r.1 matches Some(t) && t@ == (if r.0 { "Returned to #"@ } else { "Could not return to #"@ })
                    + text::int_text(n as int)
                &&& final(list).mode_spec() == mode
                &&& final(list).filter_spec() == if in_open { IssueFilter::Open } else { IssueFilter::Closed }
                &&& r.0 ==> listed_position(final(list).issues_view(), final(list).listed(), n) == Some(
                    final(list).selected_spec() as int,
                )
                &&& final(list).issues_view() == old(list).issues_view()
                &&& final(list).assignee_spec() == old(list).assignee_spec()
                &&& final(list).query_view() == old(list).query_view()
            }),
    {
        let (n, mode) = match self.navigation_origin {
            Some(origin) => origin,
            None => return (false, None),
        };
        self.navigation_origin = None;
        list.set_work_item_mode(mode);
        list.set_issue_filter(IssueFilter::Open);
        proof {
            lemma_listed_position_shown(*list, n);
        }
        let found = if list.select_issue_by_number(n) {
            true
        } else {
            list.set_issue_filter(IssueFilter::Closed);
            proof {
                lemma_listed_position_shown(*list, n);
            }
            list.select_issue_by_number(n)
        };
        let mut out = if found { chars_of("Returned to #") } else { chars_of("Could not return to #") };
        let digits = i64_text(n);
        append_chars(&mut out, digits.as_slice());
        (found, Some(string_of(out.as_slice())))
    }

    /// Records the pull requests a lookup found for issue `issue` (each
    /// once), links the issue back from each of them and ends the lookups
    /// involved; an answer that names none leaves links already known in place.
    pub fn set_linked_pull_requests(&mut self, issue: i64, found: Vec<i64>)
        ensures
            final(self)@ == with_pull_requests(old(self)@, issue, found@),
    {
        self.pull_request_lookups.remove(&issue);
        let ps = dedupe_numbers(found);
        if ps.len() == 0 {
            match self.pull_requests.get(&issue) {
                Some(existing) => {
                    if existing.len() > 0 {
                        return;
                    }
                },
                None => {},
            }
        }
        let ghost before = seq_values(self.pull_requests@);
        let copy = copy_numbers(&ps);
        self.pull_requests.insert(issue, copy);
        assert(seq_values(self.pull_requests@) =~= before.insert(issue, ps@));
        link_back(&mut self.issues, &mut self.issue_lookups, &ps, issue);
    }

    /// Records the issues a lookup found for pull request `pull` (each
    /// once), links the pull request back from each of them and ends the
    /// lookups involved; an answer that names none leaves links already
    /// known in place.
    pub fn set_linked_issues_for_pull_request(&mut self, pull: i64, found: Vec<i64>)
        ensures
            final(self)@ == with_issues(old(self)@, pull, found@),
    {
        self.issue_lookups.remove(&pull);
        let is = dedupe_numbers(found);
        if is.len() == 0 {
            match self.issues.get(&pull) {
                Some(existing) => {
                    if existing.len() > 0 {
                        return;
                    }
                },
                None => {},
            }
        }
        let ghost before = seq_values(self.issues@);
        let copy = copy_numbers(&is);
        self.issues.insert(pull, copy);
        assert(seq_values(self.issues@) =~= before.insert(pull, is@));
        link_back(&mut self.pull_requests, &mut self.pull_request_lookups, &is, pull);
    }
}

// ---------------------------------------------------------------------------
// Picking among linked items
// ---------------------------------------------------------------------------

/// What a linked item is picked for.
#[derive(Debug, Clone, Copy, PartialEq, Eq, Structural)]
pub enum LinkedPickerTarget {
    PullRequestTui,
    PullRequestBrowser,
    IssueTui,
    IssueBrowser,
}

/// A linked item offered by the picker: its number and, when the item is
/// cached, its title.
#[derive(Debug, Clone, PartialEq, Eq)]
pub struct LinkedPickerOption {
    pub number: i64,
    pub title: Option<String>,
}

/// The model of the linked-item picker.
pub struct LinkedPickerView {
    pub options: Seq<LinkedPickerOption>,
    pub selected: usize,
    pub target: Option<LinkedPickerTarget>,
    pub cancel_view: View,
    pub origin: Option<(i64, WorkItemMode)>,
}

/// The picker offered when several items are linked.
pub struct LinkedPicker {
    options: Vec<LinkedPickerOption>,
    selected: usize,
    target: Option<LinkedPickerTarget>,
    cancel_view: View,
    origin: Option<(i64, WorkItemMode)>,
}

impl vstd::view::View for LinkedPicker {
    type V = LinkedPickerView;

    closed spec fn view(&self) -> LinkedPickerView {
        LinkedPickerView {
            options: self.options@,
            selected: self.selected,
            target: self.target,
            cancel_view: self.cancel_view,
            origin: self.origin,
        }
    }
}

/// Where the first cached item numbered `n` is.
pub open spec fn first_numbered(issues: Seq<IssueRow>, n: i64) -> Option<int>
    decreases issues.len(),
{
    if issues.len() == 0 {
        None
    } else {
        match first_numbered(issues.drop_last(), n) {
            Some(j) => Some(j),
            None => if issues.last().number == n {
                Some(issues.len() - 1)
            } else {
                None
            },
        }
    }
}

/// The title of the first cached item numbered `n`, if one is cached.
pub open spec fn cached_title(issues: Seq<IssueRow>, n: i64) -> Option<Seq<char>> {
    match first_numbered(issues, n) {
        Some(j) => Some(issues[j].title@),
        None => None,
    }
}

/// The view of an optional string.
pub open spec fn opt_string_view(o: Option<String>) -> Option<Seq<char>> {
    match o {
        Some(s) => Some(s@),
        None => None,
    }
}

/// The kind of list an item belongs in.
pub open spec fn mode_of(row: IssueRow) -> WorkItemMode {
    if row.is_pr { WorkItemMode::PullRequests } else { WorkItemMode::Issues }
}

/// The picker offers the items numbered `numbers`, in order, each with the
/// title cached for it.
pub open spec fn offers(options: Seq<LinkedPickerOption>, numbers: Seq<i64>, issues: Seq<IssueRow>) -> bool {
    &&& options.len() == numbers.len()
    &&& forall|j: int| 0 <= j < options.len() ==> (#[trigger] options[j]).number == numbers[j]
        && opt_string_view(options[j].title) == cached_title(issues, numbers[j])
}

/// The title cached for the item numbered `n`.
fn cached_title_of(issues: &[IssueRow], n: i64) -> (r: Option<String>)
    ensures
        opt_string_view(r) == cached_title(issues@, n),
{
    let ghost iv = issues@;
    let mut found: Option<usize> = None;
    let mut i: usize = 0;
    while i < issues.len()
        invariant
            i <= issues.len(),
            iv == issues@,
            match found {
                Some(j) => first_numbered(iv.take(i as int), n) == Some(j as int) && j < i,
                None => first_numbered(iv.take(i as int), n) is None,
            },
        decreases issues.len() - i,
    {
        assert(iv.take(i + 1).drop_last() =~= iv.take(i as int));
        if found.is_none() && issues[i].number == n {
            found = Some(i);
        }
        i = i + 1;
    }
    assert(iv.take(issues.len() as int) =~= iv);
    match found {
        Some(j) => {
            assert(iv.take(i as int)[j as int] == iv[j as int]);
            Some(issues[j].title.clone())
        },
        None => None,
    }
}

impl LinkedPicker {
    /// A closed picker.
    pub fn new() -> (r: Self)
        ensures
            r@ == (LinkedPickerView {
                options: Seq::empty(),
                selected: 0,
                target: None,
                cancel_view: View::Issues,
                origin: None,
            }),
    {
        LinkedPicker { options: Vec::new(), selected: 0, target: None, cancel_view: View::Issues, origin: None }
    }

    /// Offers the items numbered `numbers` (each once, titled from
    /// `issues` where cached) for `target`, highlighting the first,
    /// remembering the view to go back to and the item it was opened from.
    /// Nothing happens when no number is given. Whether the picker opened.
    pub fn open_linked_picker(
        &mut self,
        cancel_view: View,
        target: LinkedPickerTarget,
        numbers: Vec<i64>,
        issues: &[IssueRow],
        current: Option<&IssueRow>,
    ) -> (opened: bool)
        ensures
            opened == (numbers@.len() > 0),
            !opened ==> final(self)@ == old(self)@,
            opened ==> offers(final(self)@.options, dedupe_spec(numbers@), issues@) && final(self)@.selected == 0
                && final(self)@.target == Some(target) && final(self)@.cancel_view == cancel_view
                && final(self)@.origin == match current {
                    Some(row) => Some((row.number, mode_of(*row))),
                    None => None,
                },
    {
        let ghost given = numbers@;
        let numbers = dedupe_numbers(numbers);
        proof {
            lemma_dedupe_distinct_same_numbers(given);
            if given.len() > 0 {
                assert(given.contains(given[0]));
            }
        }
        if numbers.len() == 0 {
            return false;
        }
        let mut options: Vec<LinkedPickerOption> = Vec::new();
        let mut i: usize = 0;
        while i < numbers.len()
            invariant
                i <= numbers.len(),
                offers(options@, numbers@.take(i as int), issues@),
            decreases numbers.len() - i,
        {
            let title = cached_title_of(issues, numbers[i]);
            options.push(LinkedPickerOption { number: numbers[i], title });
            i = i + 1;
            assert forall|j: int| 0 <= j < options@.len() implies (#[trigger] options@[j]).number == numbers@.take(
                i as int,
            )[j] && opt_string_view(options@[j].title) == cached_title(issues@, numbers@.take(i as int)[j]) by {}
        }
        assert(numbers@.take(numbers.len() as int) =~= numbers@);
        self.options = options;
        self.selected = 0;
        self.target = Some(target);
        self.cancel_view = cancel_view;
        self.origin = match current {
            Some(row) => {
                let mode = if row.is_pr { WorkItemMode::PullRequests } else { WorkItemMode::Issues };
                Some((row.number, mode))
            },
            None => None,
        };
        true
    }

    /// The numbers offered, in order.
    pub fn linked_picker_numbers(&self) -> (r: Vec<i64>)
        ensures
            r@ == self@.options.map_values(|o: LinkedPickerOption| o.number),
    {
        let mut out: Vec<i64> = Vec::new();
        let mut i: usize = 0;
        while i < self.options.len()
            invariant
                i <= self.options.len(),
                out@ == self@.options.take(i as int).map_values(|o: LinkedPickerOption| o.number),
            decreases self.options.len() - i,
        {
            out.push(self.options[i].number);
            i = i + 1;
            assert(out@ =~= self@.options.take(i as int).map_values(|o: LinkedPickerOption| o.number));
        }
        assert(self@.options.take(self.options.len() as int) =~= self@.options);
        out
    }

    /// The line shown for each offered item, in order.
    pub fn linked_picker_labels(&self) -> (r: Vec<String>)
        ensures
            r@.len() == self@.options.len(),
            forall|j: int| 0 <= j < r@.len() ==> (#[trigger] r@[j])@ == picker_label_spec(
                self@.options[j].number,
                opt_string_view(self@.options[j].title),
            ),
    {
        let mut out: Vec<String> = Vec::new();
        let mut i: usize = 0;
        while i < self.options.len()
            invariant
                i <= self.options.len(),
                out@.len() == i,
                forall|j: int| 0 <= j < i ==> (#[trigger] out@[j])@ == picker_label_spec(
                    self@.options[j].number,
                    opt_string_view(self@.options[j].title),
                ),
            decreases self.options.len() - i,
        {
            let option = &self.options[i];
            let label = match &option.title {
                Some(t) => linked_picker_label(option.number, Some(t.as_str())),
                None => linked_picker_label(option.number, None),
            };
            out.push(label);
            i = i + 1;
        }
        out
    }

    /// The position of the highlighted item.
    pub fn selected_linked_picker_index(&self) -> (r: usize)
        ensures
            r == self@.selected,
    {
        self.selected
    }

    /// The number of the highlighted item, when the highlight is on one.
    pub fn selected_linked_picker_number(&self) -> (r: Option<i64>)
        ensures
            r == (if self@.selected < self@.options.len() {
                Some(self@.options[self@.selected as int].number)
            } else {
                None
            }),
    {
        if self.selected < self.options.len() {
            Some(self.options[self.selected].number)
        } else {
            None
        }
    }

    /// What the item is picked for.
    pub fn linked_picker_target(&self) -> (r: Option<LinkedPickerTarget>)
        ensures
            r == self@.target,
    {
        self.target
    }

    /// The view to go back to when the picker is cancelled.
    pub fn linked_picker_cancel_view(&self) -> (r: View)
        ensures
            r == self@.cancel_view,
    {
        self.cancel_view
    }

    /// The item (and its kind) the picker was opened from.
    pub fn linked_picker_origin(&self) -> (r: Option<(i64, WorkItemMode)>)
        ensures
            r == self@.origin,
    {
        self.origin
    }

    /// Highlights the item at `index`, or the last one when `index` is past the end.
    pub fn set_selected_linked_picker_index(&mut self, index: usize)
        ensures
            final(self)@ == (LinkedPickerView {
                selected: if old(self)@.options.len() == 0 {
                    0
                } else if index < old(self)@.options.len() {
                    index
                } else {
                    (old(self)@.options.len() - 1) as usize
                },
                ..old(self)@
            }),
    {
        if self.options.len() == 0 {
            self.selected = 0;
            return;
        }
        let last = self.options.len() - 1;
        self.selected = if index < last { index } else { last };
    }

    /// Moves the highlight one item down (or up), staying on the list.
    pub fn move_linked_picker_selection(&mut self, down: bool)
        ensures
            final(self)@ == (LinkedPickerView {
                selected: if down {
                    if old(self)@.selected + 1 < old(self)@.options.len() {
                        (old(self)@.selected + 1) as usize
                    } else {
                        old(self)@.selected
                    }
                } else if old(self)@.selected > 0 {
                    (old(self)@.selected - 1) as usize
                } else {
                    0
                },
                ..old(self)@
            }),
    {
        if down {
            if self.selected < self.options.len() && self.selected + 1 < self.options.len() {
                self.selected = self.selected + 1;
            }
        } else if self.selected > 0 {
            self.selected = self.selected - 1;
        }
    }

    /// Moves the highlight to the first (or the last) item.
    pub fn jump_linked_picker_selection(&mut self, to_top: bool)
        ensures
            final(self)@ == (LinkedPickerView {
                selected: if to_top {
                    0
                } else if old(self)@.options.len() > 0 {
                    (old(self)@.options.len() - 1) as usize
                } else {
                    old(self)@.selected
                },
                ..old(self)@
            }),
    {
        if to_top {
            self.selected = 0;
        } else if self.options.len() > 0 {
            self.selected = self.options.len() - 1;
        }
    }

    /// Closes the picker: no items, no target, no origin.
    pub fn clear_linked_picker_state(&mut self)
        ensures
            final(self)@ == (LinkedPickerView {
                options: Seq::empty(),
                selected: 0,
                target: None,
                origin: None,
                ..old(self)@
            }),
    {
        self.options = Vec::new();
        self.selected = 0;
        self.target = None;
        self.origin = None;
    }

    /// Cancels the picker: closes it and gives the view to go back to.
    pub fn cancel_linked_picker(&mut self) -> (r: View)
        ensures
            r == old(self)@.cancel_view,
            final(self)@ == (LinkedPickerView {
                options: Seq::empty(),
                selected: 0,
                target: None,
                origin: None,
                ..old(self)@
            }),
    {
        let view = self.cancel_view;
        self.clear_linked_picker_state();
        view
    }

    /// The picker's heading, by what the item is picked for.
    pub fn linked_picker_title(&self) -> (r: &'static str)
        ensures
            r@ == match self@.target {
                Some(LinkedPickerTarget::PullRequestTui) => "Open Linked Pull Request"@,
                Some(LinkedPickerTarget::PullRequestBrowser) => "Open Linked Pull Request (Web)"@,
                Some(LinkedPickerTarget::IssueTui) => "Open Linked Issue"@,
                Some(LinkedPickerTarget::IssueBrowser) => "Open Linked Issue (Web)"@,
                None => "Choose Linked Item"@,
            },
    {
        match self.target {
            Some(LinkedPickerTarget::PullRequestTui) => "Open Linked Pull Request",
            Some(LinkedPickerTarget::PullRequestBrowser) => "Open Linked Pull Request (Web)",
            Some(LinkedPickerTarget::IssueTui) => "Open Linked Issue",
            Some(LinkedPickerTarget::IssueBrowser) => "Open Linked Issue (Web)",
            None => "Choose Linked Item",
        }
    }
}

// ---------------------------------------------------------------------------
// Laws
// ---------------------------------------------------------------------------

/// Deduplication keeps exactly the numbers of the input, each once.
pub proof fn lemma_dedupe_distinct_same_numbers(s: Seq<i64>)
    ensures
        dedupe_spec(s).no_duplicates(),
        forall|x: i64| dedupe_spec(s).contains(x) <==> s.contains(x),
    decreases s.len(),
{
    if s.len() > 0 {
        let init = s.drop_last();
        lemma_dedupe_distinct_same_numbers(init);
        let d = dedupe_spec(init);
        assert forall|x: i64| dedupe_spec(s).contains(x) <==> s.contains(x) by {
            if s.contains(x) && x != s.last() {
                let k = choose|k: int| 0 <= k < s.len() && s[k] == x;
                assert(init[k] == x);
            }
            if init.contains(x) {
                let k = choose|k: int| 0 <= k < init.len() && init[k] == x;
                assert(s[k] == x);
            }
            if !d.contains(s.last()) && x == s.last() {
                assert(d.push(s.last())[d.len() as int] == x);
            }
            if !d.contains(s.last()) && d.push(s.last()).contains(x) && x != s.last() {
                let k = choose|k: int| 0 <= k < d.len() + 1 && d.push(s.last())[k] == x;
                assert(d[k] == x);
            }
            if !d.contains(s.last()) && d.contains(x) {
                let k = choose|k: int| 0 <= k < d.len() && d[k] == x;
                assert(d.push(s.last())[k] == x);
            }
            assert(s[s.len() - 1] == s.last());
        }
    }
}

/// A list without repeated numbers is its own deduplication.
pub proof fn lemma_dedupe_of_distinct(s: Seq<i64>)
    requires
        s.no_duplicates(),
    ensures
        dedupe_spec(s) == s,
    decreases s.len(),
{
    if s.len() > 0 {
        let init = s.drop_last();
        assert(init.no_duplicates()) by {
            assert forall|i: int, j: int| 0 <= i < init.len() && 0 <= j < init.len() && i != j implies init[i]
                != init[j] by {
                assert(init[i] == s[i] && init[j] == s[j]);
            }
        }
        lemma_dedupe_of_distinct(init);
        assert(!init.contains(s.last())) by {
            if init.contains(s.last()) {
                let k = choose|k: int| 0 <= k < init.len() && init[k] == s.last();
                assert(s[k] == s[s.len() - 1]);
            }
        }
        assert(init.push(s.last()) =~= s);
    }
}

/// Deduplicating twice gives what deduplicating once gives.
pub proof fn lemma_dedupe_idempotent(s: Seq<i64>)
    ensures
        dedupe_spec(dedupe_spec(s)) == dedupe_spec(s),
{
    lemma_dedupe_distinct_same_numbers(s);
    lemma_dedupe_of_distinct(dedupe_spec(s));
}

/// Adding a number with `push_unique` to a list without repeats keeps it
/// without repeats, and the number is then in it.
pub proof fn lemma_push_unique_keeps_distinct(values: Seq<i64>, value: i64)
    requires
        values.no_duplicates(),
    ensures
        push_unique_spec(values, value).no_duplicates(),
        push_unique_spec(values, value).contains(value),
{
    if !values.contains(value) {
        let p = values.push(value);
        assert(p[values.len() as int] == value);
        assert forall|i: int, j: int| 0 <= i < p.len() && 0 <= j < p.len() && i != j implies p[i] != p[j] by {
            if i < values.len() && j < values.len() {
                assert(p[i] == values[i] && p[j] == values[j]);
            } else if i < values.len() {
                assert(p[i] == values[i]);
            } else if j < values.len() {
                assert(p[j] == values[j]);
            }
        }
    }
}

/// Linking back reaches every key listed and no other.
proof fn lemma_linked_back(m: Map<i64, Seq<i64>>, keys: Seq<i64>, value: i64)
    ensures
        forall|j: int| 0 <= j < keys.len() ==> linked_back(m, keys, value).contains_key(#[trigger] keys[j])
            && linked_back(m, keys, value)[keys[j]].contains(value),
        forall|k: i64| !keys.contains(k) ==> (#[trigger] linked_back(m, keys, value).contains_key(k) == m.contains_key(k))
            && (m.contains_key(k) ==> linked_back(m, keys, value)[k] == m[k]),
    decreases keys.len(),
{
    if keys.len() > 0 {
        let init = keys.drop_last();
        lemma_linked_back(m, init, value);
        let m0 = linked_back(m, init, value);
        let k = keys.last();
        if m0.contains_key(k) {
            if !m0[k].contains(value) {
                assert(m0[k].push(value)[m0[k].len() as int] == value);
            }
        } else {
            assert(seq![value][0] == value);
        }
        assert forall|j: int| 0 <= j < keys.len() implies linked_back(m, keys, value).contains_key(#[trigger] keys[j])
            && linked_back(m, keys, value)[keys[j]].contains(value) by {
            if j < keys.len() - 1 && keys[j] != k {
                assert(init[j] == keys[j]);
            }
        }
        assert forall|x: i64| !keys.contains(x) implies (#[trigger] linked_back(m, keys, value).contains_key(x)
            == m.contains_key(x)) && (m.contains_key(x) ==> linked_back(m, keys, value)[x] == m[x]) by {
            assert(x != k);
            if init.contains(x) {
                let j = choose|j: int| 0 <= j < init.len() && init[j] == x;
                assert(keys[j] == x);
            }
        }
    }
}

/// Ending the lookups of the keys listed ends each of them and no other.
proof fn lemma_without_all(s: Set<i64>, keys: Seq<i64>)
    ensures
        forall|x: i64| #[trigger] without_all(s, keys).contains(x) == (s.contains(x) && !keys.contains(x)),
    decreases keys.len(),
{
    if keys.len() > 0 {
        lemma_without_all(s, keys.drop_last());
        assert forall|x: i64| #[trigger] without_all(s, keys).contains(x) == (s.contains(x) && !keys.contains(x)) by {
            assert(without_all(s, keys.drop_last()).contains(x) == (s.contains(x) && !keys.drop_last().contains(x)));
            assert(without_all(s, keys) == without_all(s, keys.drop_last()).remove(keys.last()));
            if keys.drop_last().contains(x) {
                let j = choose|j: int| 0 <= j < keys.drop_last().len() && keys.drop_last()[j] == x;
                assert(keys[j] == x);
            }
            if keys.contains(x) && x != keys.last() {
                let j = choose|j: int| 0 <= j < keys.len() && keys[j] == x;
                assert(keys.drop_last()[j] == x);
            }
            if x == keys.last() {
                assert(keys[keys.len() - 1] == x);
            }
        }
    }
}

/// Links found for an issue go both ways: the issue lists the pull requests
/// found (each once), each of them lists the issue, and the lookups of all
/// of them are over. Links of other items stay as they were.
pub proof fn lemma_found_pull_requests_link_both_ways(v: LinkedView, issue: i64, found: Seq<i64>)
    requires
        !keeps_known(v.pull_requests, issue, found),
    ensures
        ({
            let r = with_pull_requests(v, issue, found);
            &&& r.pull_requests == v.pull_requests.insert(issue, dedupe_spec(found))
            &&& forall|p: i64| #[trigger] found.contains(p) ==> r.issues.contains_key(p) && r.issues[p].contains(issue)
                && !r.issue_lookups.contains(p)
            &&& forall|p: i64| !found.contains(p) ==> (#[trigger] r.issues.contains_key(p) == v.issues.contains_key(p))
                && (v.issues.contains_key(p) ==> r.issues[p] == v.issues[p])
            &&& !r.pull_request_lookups.contains(issue)
        }),
{
    let ps = dedupe_spec(found);
    lemma_dedupe_distinct_same_numbers(found);
    lemma_linked_back(v.issues, ps, issue);
    lemma_without_all(v.issue_lookups, ps);
    assert forall|p: i64| #[trigger] found.contains(p) implies ps.contains(p) by {}
    assert forall|p: i64| ps.contains(p) implies #[trigger] found.contains(p) by {}
    assert forall|p: i64| #[trigger] found.contains(p) implies with_pull_requests(v, issue, found).issues.contains_key(p)
        && with_pull_requests(v, issue, found).issues[p].contains(issue) by {
        let j = choose|j: int| 0 <= j < ps.len() && ps[j] == p;
        assert(linked_back(v.issues, ps, issue).contains_key(ps[j]));
    }
}

/// Links found for a pull request go both ways: the pull request lists the
/// issues found (each once), each of them lists the pull request, and the
/// lookups of all of them are over. Links of other items stay as they were.
pub proof fn lemma_found_issues_link_both_ways(v: LinkedView, pull: i64, found: Seq<i64>)
    requires
        !keeps_known(v.issues, pull, found),
    ensures
        ({
            let r = with_issues(v, pull, found);
            &&& r.issues == v.issues.insert(pull, dedupe_spec(found))
            &&& forall|i: i64| #[trigger] found.contains(i) ==> r.pull_requests.contains_key(i)
                && r.pull_requests[i].contains(pull) && !r.pull_request_lookups.contains(i)
            &&& forall|i: i64| !found.contains(i) ==> (#[trigger] r.pull_requests.contains_key(i)
                == v.pull_requests.contains_key(i)) && (v.pull_requests.contains_key(i) ==> r.pull_requests[i]
                == v.pull_requests[i])
            &&& !r.issue_lookups.contains(pull)
        }),
{
    let is = dedupe_spec(found);
    lemma_dedupe_distinct_same_numbers(found);
    lemma_linked_back(v.pull_requests, is, pull);
    lemma_without_all(v.pull_request_lookups, is);
    assert forall|i: i64| #[trigger] found.contains(i) implies is.contains(i) by {}
    assert forall|i: i64| is.contains(i) implies #[trigger] found.contains(i) by {}
    assert forall|i: i64| #[trigger] found.contains(i) implies with_issues(v, pull, found).pull_requests.contains_key(i)
        && with_issues(v, pull, found).pull_requests[i].contains(pull) by {
        let j = choose|j: int| 0 <= j < is.len() && is[j] == i;
        assert(linked_back(v.pull_requests, is, pull).contains_key(is[j]));
    }
}

/// A lookup that finds nothing does not clear links already known: only
/// the lookup itself ends.
pub proof fn lemma_empty_answer_keeps_known_links(v: LinkedView, issue: i64, pull: i64)
    ensures
        v.pull_requests.contains_key(issue) && v.pull_requests[issue].len() > 0 ==> with_pull_requests(
            v,
            issue,
            Seq::empty(),
        ) == (LinkedView { pull_request_lookups: v.pull_request_lookups.remove(issue), ..v }),
        v.issues.contains_key(pull) && v.issues[pull].len() > 0 ==> with_issues(v, pull, Seq::empty()) == (LinkedView {
            issue_lookups: v.issue_lookups.remove(pull),
            ..v
        }),
{
    assert(dedupe_spec(Seq::<i64>::empty()).len() == 0);
}

} // verus!
