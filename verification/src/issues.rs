//! The issue list: which cached issues and pull requests a view shows, in
//! which order, and the search language of the issue search box.
use vstd::prelude::*;

use crate::app::{AssigneeFilter, IssueFilter, WorkItemMode};
use crate::text;
use crate::text::{
    chars_eq, chars_lt, chars_of, contains_chars, eq_ignore_case_chars, i64_text, lower_chars, parse_i64,
    split_chars, strip_prefix_chars, trim_chars, words_of,
};

verus! {

/// An issue or pull request as cached locally.
#[derive(Debug, Clone, PartialEq, Eq)]
pub struct IssueRow {
    pub id: i64,
    pub repo_id: i64,
    pub number: i64,
    pub state: String,
    pub title: String,
    pub body: String,
    pub labels: String,
    pub assignees: String,
    pub comments_count: i64,
    pub updated_at: Option<String>,
    pub is_pr: bool,
}

/// The state is `merged`, in any case.
pub open spec fn state_merged(state: Seq<char>) -> bool {
    text::eq_ignore_case(state, "merged"@)
}

/// The state is `closed` or `merged`, in any case.
pub open spec fn state_closed(state: Seq<char>) -> bool {
    text::eq_ignore_case(state, "closed"@) || state_merged(state)
}

/// A merged pull request.
pub fn issue_state_is_merged(state: &str) -> (r: bool)
    ensures
        r == state_merged(state@),
{
    let s = chars_of(state);
    let m = chars_of("merged");
    eq_ignore_case_chars(s.as_slice(), m.as_slice())
}

/// A closed issue, or a merged pull request.
pub fn issue_state_is_closed(state: &str) -> (r: bool)
    ensures
        r == state_closed(state@),
{
    let s = chars_of(state);
    let c = chars_of("closed");
    eq_ignore_case_chars(s.as_slice(), c.as_slice()) || issue_state_is_merged(state)
}

/// The filter admits the item: open items for `Open`; for `Closed`, closed
/// items and merged pull requests.
pub open spec fn filter_admits(f: IssueFilter, issue: IssueRow) -> bool {
    match f {
        IssueFilter::Open => text::eq_ignore_case(issue.state@, "open"@),
        IssueFilter::Closed => state_closed(issue.state@),
    }
}

/// The mode admits the item: issues or pull requests.
pub open spec fn mode_admits(m: WorkItemMode, issue: IssueRow) -> bool {
    match m {
        WorkItemMode::Issues => !issue.is_pr,
        WorkItemMode::PullRequests => issue.is_pr,
    }
}

impl IssueFilter {
    /// The filter admits the item (see `filter_admits`): open items for
    /// `Open`, closed items and merged pull requests for `Closed`.
    pub fn matches(self, issue: &IssueRow) -> (r: bool)
        ensures
            r == filter_admits(self, *issue),
    {
        match self {
            IssueFilter::Open => {
                let s = chars_of(issue.state.as_str());
                let want = chars_of("open");
                eq_ignore_case_chars(s.as_slice(), want.as_slice())
            },
            IssueFilter::Closed => issue_state_is_closed(issue.state.as_str()),
        }
    }
}

impl WorkItemMode {
    /// The item is a pull request exactly in pull request mode.
    pub fn matches(self, issue: &IssueRow) -> (r: bool)
        ensures
            r == mode_admits(self, *issue),
    {
        match self {
            WorkItemMode::Issues => !issue.is_pr,
            WorkItemMode::PullRequests => issue.is_pr,
        }
    }
}

/// One of the comma-separated, trimmed names equals `user`, ignoring ASCII case.
pub open spec fn has_assignee(assignees: Seq<char>, user: Seq<char>) -> bool {
    exists|i: int| 0 <= i < text::split_on(assignees, ',').len() && #[trigger] text::eq_ignore_case(
        text::trim(text::split_on(assignees, ',')[i]),
        user,
    )
}

/// The comma-separated assignee list names `user`, ignoring ASCII case.
pub fn issue_has_assignee(issue_assignees: &str, user: &str) -> (r: bool)
    ensures
        r == has_assignee(issue_assignees@, user@),
{
    let a = chars_of(issue_assignees);
    let u = chars_of(user);
    has_assignee_chars(a.as_slice(), u.as_slice())
}

/// `has_assignee` on characters.
fn has_assignee_chars(a: &[char], u: &[char]) -> (r: bool)
    ensures
        r == has_assignee(a@, u@),
{
    let pieces = split_chars(a, ',');
    let ghost pv = text::split_on(a@, ',');
    let mut i: usize = 0;
    while i < pieces.len()
        invariant
            i <= pieces.len(),
            text::views(pieces@) == pv,
            pv == text::split_on(a@, ','),
            forall|j: int| 0 <= j < i ==> !#[trigger] text::eq_ignore_case(text::trim(pv[j]), u@),
        decreases pieces.len() - i,
    {
        assert(pieces@[i as int]@ == pv[i as int]);
        let t = trim_chars(pieces[i].as_slice());
        if eq_ignore_case_chars(t.as_slice(), u) {
            return true;
        }
        i = i + 1;
    }
    false
}

/// The assignee filter admits the item.
pub open spec fn assignee_admits(f: AssigneeFilter, issue: IssueRow) -> bool {
    match f {
        AssigneeFilter::All => true,
        AssigneeFilter::Unassigned => text::trim(issue.assignees@).len() == 0,
        AssigneeFilter::User(u) => has_assignee(issue.assignees@, u@),
    }
}

/// The assignee filter admits the item: everything, items without
/// assignees, or items assigned to the user.
pub fn assignee_filter_matches(filter: &AssigneeFilter, issue: &IssueRow) -> (r: bool)
    ensures
        r == assignee_admits(*filter, *issue),
{
    match filter {
        AssigneeFilter::All => true,
        AssigneeFilter::Unassigned => {
            let a = chars_of(issue.assignees.as_str());
            trim_chars(a.as_slice()).len() == 0
        },
        AssigneeFilter::User(user) => issue_has_assignee(issue.assignees.as_str(), user.as_str()),
    }
}

/// What an `is:` qualifier asks of the item.
pub open spec fn is_qualifier_holds(issue: IssueRow, value: Seq<char>) -> bool {
    if value == "pr"@ || value == "pull"@ || value == "pull-request"@ {
        issue.is_pr
    } else if value == "issue"@ {
        !issue.is_pr
    } else if value == "closed"@ {
        state_closed(issue.state@)
    } else if value == "merged"@ {
        state_merged(issue.state@)
    } else {
        value == text::lower(issue.state@)
    }
}

/// The rest of `s` after prefix `p`.
pub open spec fn after(s: Seq<char>, p: Seq<char>) -> Seq<char> {
    s.subrange(p.len() as int, s.len() as int)
}

/// One search token holds for the item: `is:` state and kind qualifiers,
/// `label:` and `assignee:` qualifiers, `#number`, or else a plain word found
/// in the title, body, labels, assignees or number.
pub open spec fn token_holds(issue: IssueRow, token: Seq<char>) -> bool {
    if text::has_prefix(token, "is:"@) {
        is_qualifier_holds(issue, after(token, "is:"@))
    } else if text::has_prefix(token, "label:"@) {
        text::has_sub(text::lower(issue.labels@), after(token, "label:"@))
    } else if text::has_prefix(token, "assignee:"@) {
        let v0 = after(token, "assignee:"@);
        let v = if text::has_prefix(v0, "@"@) { after(v0, "@"@) } else { v0 };
        if v == "none"@ || v == "unassigned"@ {
            text::trim(issue.assignees@).len() == 0
        } else {
            has_assignee(issue.assignees@, v)
        }
    } else if text::has_prefix(token, "#"@) {
        text::parse_i64_spec(after(token, "#"@)) == Some(issue.number)
    } else {
        text::has_sub(text::lower(issue.title@), token) || text::has_sub(text::lower(issue.body@), token)
            || text::has_sub(text::lower(issue.labels@), token) || text::has_sub(
            text::lower(issue.assignees@),
            token,
        ) || text::has_sub(text::int_text(issue.number as int), token)
    }
}

/// Every whitespace-separated token of the query holds for the item; the
/// empty query matches everything.
pub open spec fn query_holds(issue: IssueRow, query: Seq<char>) -> bool {
    query.len() == 0 || forall|i: int| 0 <= i < text::words(query).len() ==> #[trigger] token_holds(
        issue,
        text::words(query)[i],
    )
}

/// The item's texts, lower-cased, as the search compares them.
struct SearchFields {
    title: Vec<char>,
    body: Vec<char>,
    labels: Vec<char>,
    assignees: Vec<char>,
    number: Vec<char>,
}

/// `v` with prefix `p` removed, when it starts with `p`.
fn after_literal(v: &[char], p: &str) -> (r: Option<Vec<char>>)
    ensures
        r is Some <==> text::has_prefix(v@, p@),
        r matches Some(rest) ==> rest@ == after(v@, p@),
{
    let pc = chars_of(p);
    strip_prefix_chars(v, pc.as_slice())
}

/// The characters equal a literal.
fn is_literal(v: &[char], p: &str) -> (r: bool)
    ensures
        r == (v@ == p@),
{
    let pc = chars_of(p);
    chars_eq(v, pc.as_slice())
}

/// `is_qualifier_holds`.
fn is_qualifier(issue: &IssueRow, value: &[char]) -> (r: bool)
    ensures
        r == is_qualifier_holds(*issue, value@),
{
    if is_literal(value, "pr") || is_literal(value, "pull") || is_literal(value, "pull-request") {
        issue.is_pr
    } else if is_literal(value, "issue") {
        !issue.is_pr
    } else if is_literal(value, "closed") {
        issue_state_is_closed(issue.state.as_str())
    } else if is_literal(value, "merged") {
        issue_state_is_merged(issue.state.as_str())
    } else {
        let s = chars_of(issue.state.as_str());
        let l = lower_chars(s.as_slice());
        chars_eq(value, l.as_slice())
    }
}

/// `token_holds`, with the item's texts already lower-cased.
fn token_matches(issue: &IssueRow, fields: &SearchFields, token: &[char]) -> (r: bool)
    requires
        fields.title@ == text::lower(issue.title@),
        fields.body@ == text::lower(issue.body@),
        fields.labels@ == text::lower(issue.labels@),
        fields.assignees@ == text::lower(issue.assignees@),
        fields.number@ == text::int_text(issue.number as int),
    ensures
        r == token_holds(*issue, token@),
{
    if let Some(value) = after_literal(token, "is:") {
        return is_qualifier(issue, value.as_slice());
    }
    if let Some(value) = after_literal(token, "label:") {
        return contains_chars(fields.labels.as_slice(), value.as_slice());
    }
    if let Some(value0) = after_literal(token, "assignee:") {
        let value = match after_literal(value0.as_slice(), "@") {
            Some(v) => v,
            None => value0,
        };
        if is_literal(value.as_slice(), "none") || is_literal(value.as_slice(), "unassigned") {
            let a = chars_of(issue.assignees.as_str());
            return trim_chars(a.as_slice()).len() == 0;
        }
        let a = chars_of(issue.assignees.as_str());
        return has_assignee_chars(a.as_slice(), value.as_slice());
    }
    if let Some(value) = after_literal(token, "#") {
        return match parse_i64(value.as_slice()) {
            Some(parsed) => issue.number == parsed,
            None => false,
        };
    }
    contains_chars(fields.title.as_slice(), token) || contains_chars(fields.body.as_slice(), token)
        || contains_chars(fields.labels.as_slice(), token) || contains_chars(
        fields.assignees.as_slice(),
        token,
    ) || contains_chars(fields.number.as_slice(), token)
}

/// The item matches the search query: the empty query matches every item;
/// otherwise every whitespace-separated token must hold. `is:pr`,
/// `is:pull`, `is:pull-request`, `is:issue`, `is:closed`, `is:merged` and
/// `is:<state>` test kind and state; `label:x` searches the labels;
/// `assignee:x` (with an optional `@`; `none` or `unassigned` for none)
/// tests the assignees; `#n` tests the number; any other token is searched
/// for in the lower-cased title, body, labels and assignees and in the
/// number. The query is compared as given: callers lower-case it.
pub fn issue_matches_query(issue: &IssueRow, query: &str) -> (r: bool)
    ensures
        r == query_holds(*issue, query@),
{
    let q = chars_of(query);
    if q.len() == 0 {
        return true;
    }
    let t = chars_of(issue.title.as_str());
    let b = chars_of(issue.body.as_str());
    let l = chars_of(issue.labels.as_str());
    let a = chars_of(issue.assignees.as_str());
    let fields = SearchFields {
        title: lower_chars(t.as_slice()),
        body: lower_chars(b.as_slice()),
        labels: lower_chars(l.as_slice()),
        assignees: lower_chars(a.as_slice()),
        number: i64_text(issue.number),
    };
    let tokens = words_of(q.as_slice());
    let ghost tv = text::words(query@);
    let mut i: usize = 0;
    while i < tokens.len()
        invariant
            i <= tokens.len(),
            text::views(tokens@) == tv,
            tv == text::words(query@),
            fields.title@ == text::lower(issue.title@),
            fields.body@ == text::lower(issue.body@),
            fields.labels@ == text::lower(issue.labels@),
            fields.assignees@ == text::lower(issue.assignees@),
            fields.number@ == text::int_text(issue.number as int),
            forall|j: int| 0 <= j < i ==> #[trigger] token_holds(*issue, tv[j]),
        decreases tokens.len() - i,
    {
        assert(tokens@[i as int]@ == tv[i as int]);
        if !token_matches(issue, &fields, tokens[i].as_slice()) {
            assert(!token_holds(*issue, tv[i as int]));
            return false;
        }
        i = i + 1;
    }
    true
}

// ---------------------------------------------------------------------------
// Ordering
// ---------------------------------------------------------------------------

/// `Option` order: none first, then the texts in order.
pub open spec fn opt_text_lt(a: Option<Seq<char>>, b: Option<Seq<char>>) -> bool {
    match (a, b) {
        (None, Some(_)) => true,
        (Some(x), Some(y)) => text::text_lt(x, y),
        _ => false,
    }
}

/// The view of an optional string.
pub open spec fn opt_view(o: Option<String>) -> Option<Seq<char>> {
    match o {
        Some(s) => Some(s@),
        None => None,
    }
}

/// The order of the issue list: for the closed filter the most recently
/// updated first; then the highest number first; then the earlier position.
pub open spec fn issue_precedes(issues: Seq<IssueRow>, filter: IssueFilter, a: int, b: int) -> bool {
    let l = issues[a];
    let r = issues[b];
    if filter == IssueFilter::Closed && opt_view(l.updated_at) != opt_view(r.updated_at) {
        opt_text_lt(opt_view(r.updated_at), opt_view(l.updated_at))
    } else if l.number != r.number {
        l.number > r.number
    } else {
        a < b
    }
}

/// A search word with none of the `is:`, `label:`, `assignee:` and `#`
/// prefixes.
pub open spec fn plain_word(token: Seq<char>) -> bool {
    &&& !text::has_prefix(token, "is:"@)
    &&& !text::has_prefix(token, "label:"@)
    &&& !text::has_prefix(token, "assignee:"@)
    &&& !text::has_prefix(token, "#"@)
}

/// A plain search word matches an item exactly when it occurs in the
/// item's lower-cased title, body, labels or assignees, or in its number;
/// so a query of plain words that all occur in the lower-cased body (or
/// all in the title) lists the item.
pub proof fn lemma_plain_words_search_every_field(issue: IssueRow, token: Seq<char>, query: Seq<char>)
    ensures
        plain_word(token) ==> (token_holds(issue, token) <==> {
            ||| text::has_sub(text::lower(issue.title@), token)
            ||| text::has_sub(text::lower(issue.body@), token)
            ||| text::has_sub(text::lower(issue.labels@), token)
            ||| text::has_sub(text::lower(issue.assignees@), token)
            ||| text::has_sub(text::int_text(issue.number as int), token)
        }),
        (forall|i: int|
            0 <= i < text::words(query).len() ==> plain_word(#[trigger] text::words(query)[i]) && text::has_sub(
                text::lower(issue.body@),
                text::words(query)[i],
            )) ==> query_holds(issue, query),
        (forall|i: int|
            0 <= i < text::words(query).len() ==> plain_word(#[trigger] text::words(query)[i]) && text::has_sub(
                text::lower(issue.title@),
                text::words(query)[i],
            )) ==> query_holds(issue, query),
{
}

/// The issue order is a strict total order on positions.
pub proof fn lemma_issue_order(issues: Seq<IssueRow>, filter: IssueFilter, a: int, b: int, c: int)
    ensures
        !issue_precedes(issues, filter, a, a),
        a != b ==> (issue_precedes(issues, filter, a, b) || issue_precedes(issues, filter, b, a)),
        issue_precedes(issues, filter, a, b) ==> !issue_precedes(issues, filter, b, a),
        issue_precedes(issues, filter, a, b) && issue_precedes(issues, filter, b, c) ==> issue_precedes(
            issues,
            filter,
            a,
            c,
        ),
{
    let ua = opt_view(issues[a].updated_at);
    let ub = opt_view(issues[b].updated_at);
    let uc = opt_view(issues[c].updated_at);
    if let (Some(x), Some(y)) = (ua, ub) {
        if x != y {
            text::lemma_text_lt_total(x, y);
        }
        if text::text_lt(x, y) && text::text_lt(y, x) {
            text::lemma_text_lt_transitive(x, y, x);
            text::lemma_text_lt_irreflexive(x);
        }
    }
    if let (Some(x), Some(y), Some(z)) = (ua, ub, uc) {
        if text::text_lt(z, y) && text::text_lt(y, x) {
            text::lemma_text_lt_transitive(z, y, x);
        }
        if text::text_lt(z, x) && text::text_lt(x, y) {
            text::lemma_text_lt_transitive(z, x, y);
        }
        if text::text_lt(y, x) && text::text_lt(x, z) {
            text::lemma_text_lt_transitive(y, x, z);
        }
        if text::text_lt(y, z) && text::text_lt(z, x) {
            text::lemma_text_lt_transitive(y, z, x);
        }
        if text::text_lt(x, z) && text::text_lt(z, y) {
            text::lemma_text_lt_transitive(x, z, y);
        }
        if text::text_lt(x, y) && text::text_lt(y, z) {
            text::lemma_text_lt_transitive(x, y, z);
        }
        text::lemma_text_lt_irreflexive(x);
        text::lemma_text_lt_irreflexive(y);
        text::lemma_text_lt_irreflexive(z);
    }
}

/// `opt_text_lt` on optional strings.
fn opt_string_lt(a: &Option<String>, b: &Option<String>) -> (r: bool)
    ensures
        r == opt_text_lt(opt_view(*a), opt_view(*b)),
{
    match (a, b) {
        (None, Some(_)) => true,
        (Some(x), Some(y)) => {
            let xc = chars_of(x.as_str());
            let yc = chars_of(y.as_str());
            chars_lt(xc.as_slice(), yc.as_slice())
        },
        _ => false,
    }
}

/// Two optional strings are equal.
fn opt_string_eq(a: &Option<String>, b: &Option<String>) -> (r: bool)
    ensures
        r == (opt_view(*a) == opt_view(*b)),
{
    match (a, b) {
        (None, None) => true,
        (Some(x), Some(y)) => {
            let xc = chars_of(x.as_str());
            let yc = chars_of(y.as_str());
            chars_eq(xc.as_slice(), yc.as_slice())
        },
        _ => false,
    }
}

/// `issue_precedes` on the list.
fn precedes(issues: &Vec<IssueRow>, filter: IssueFilter, a: usize, b: usize) -> (r: bool)
    requires
        a < issues.len(),
        b < issues.len(),
    ensures
        r == issue_precedes(issues@, filter, a as int, b as int),
{
    let l = &issues[a];
    let r = &issues[b];
    if filter == IssueFilter::Closed && !opt_string_eq(&l.updated_at, &r.updated_at) {
        return opt_string_lt(&r.updated_at, &l.updated_at);
    }
    if l.number != r.number {
        return l.number > r.number;
    }
    a < b
}

// ---------------------------------------------------------------------------
// The shown list
// ---------------------------------------------------------------------------

/// The search text as the list compares it: trimmed and lower-cased.
pub open spec fn normalized_query(raw: Seq<char>) -> Seq<char> {
    text::lower(text::trim(raw))
}

/// The item at `i` is shown in the list.
pub open spec fn issue_shown(
    issues: Seq<IssueRow>,
    mode: WorkItemMode,
    filter: IssueFilter,
    assignee: AssigneeFilter,
    query: Seq<char>,
    i: int,
) -> bool {
    &&& 0 <= i < issues.len()
    &&& mode_admits(mode, issues[i])
    &&& filter_admits(filter, issues[i])
    &&& assignee_admits(assignee, issues[i])
    &&& query_holds(issues[i], normalized_query(query))
}

/// The positions are in list order.
pub open spec fn in_issue_order(issues: Seq<IssueRow>, filter: IssueFilter, r: Seq<usize>) -> bool {
    forall|x: int, y: int| 0 <= x < y < r.len() ==> #[trigger] issue_precedes(issues, filter, r[x] as int, r[y] as int)
}

/// The positions of the items a view shows, in the order it shows them: the
/// items of the current kind and state that pass the assignee filter and
/// the search, ordered (for closed items) by most recent update, then by
/// highest number, then by position.
pub fn filtered_issue_indices(
    issues: &Vec<IssueRow>,
    mode: WorkItemMode,
    filter: IssueFilter,
    assignee: &AssigneeFilter,
    query: &str,
) -> (r: Vec<usize>)
    ensures
        forall|i: int| #[trigger] r@.contains(i as usize) && 0 <= i <= usize::MAX <==> issue_shown(issues@, mode, filter, *assignee, query@, i),
        forall|x: int| 0 <= x < r@.len() ==> issue_shown(issues@, mode, filter, *assignee, query@, #[trigger] r@[x] as int),
        in_issue_order(issues@, filter, r@),
{
    let qc = chars_of(query);
    let qt = trim_chars(qc.as_slice());
    let ql = lower_chars(qt.as_slice());
    let q = text::string_of(ql.as_slice());
    let mut r: Vec<usize> = Vec::new();
    let mut i: usize = 0;
    while i < issues.len()
        invariant
            i <= issues.len(),
            q@ == normalized_query(query@),
            forall|k: int| 0 <= k < r@.len() ==> (#[trigger] r@[k] as int) < i,
            forall|k: int| 0 <= k < r@.len() ==> issue_shown(issues@, mode, filter, *assignee, query@, #[trigger] r@[k] as int),
            forall|j: int| 0 <= j < i && issue_shown(issues@, mode, filter, *assignee, query@, j) ==> #[trigger] r@.contains(j as usize),
            in_issue_order(issues@, filter, r@),
        decreases issues.len() - i,
    {
        let issue = &issues[i];
        if mode.matches(issue) && filter.matches(issue) && assignee_filter_matches(assignee, issue)
            && issue_matches_query(issue, q.as_str()) {
            let mut p: usize = 0;
            while p < r.len() && !precedes(issues, filter, i, r[p])
                invariant
                    p <= r.len(),
                    i < issues.len(),
                    forall|k: int| 0 <= k < r@.len() ==> (#[trigger] r@[k] as int) < i,
                    forall|k: int| 0 <= k < p ==> !issue_precedes(issues@, filter, i as int, #[trigger] r@[k] as int),
                decreases r.len() - p,
            {
                p = p + 1;
            }
            let ghost before = r@;
            proof {
                assert forall|k: int| 0 <= k < p implies #[trigger] issue_precedes(issues@, filter, before[k] as int, i as int) by {
                    lemma_issue_order(issues@, filter, before[k] as int, i as int, i as int);
                }
                assert forall|k: int| p <= k < before.len() implies #[trigger] issue_precedes(issues@, filter, i as int, before[k] as int) by {
                    if k > p {
                        assert(issue_precedes(issues@, filter, before[p as int] as int, before[k] as int));
                        lemma_issue_order(issues@, filter, i as int, before[p as int] as int, before[k] as int);
                    }
                }
            }
            r.insert(p, i);
            assert(r@ == before.insert(p as int, i));
            assert forall|x: int, y: int| 0 <= x < y < r@.len() implies #[trigger] issue_precedes(issues@, filter, r@[x] as int, r@[y] as int) by {
                if x < p && y < p {
                    assert(r@[x] == before[x] && r@[y] == before[y]);
                } else if x < p && y == p {
                } else if x < p {
                    assert(r@[y] == before[y - 1]);
                    lemma_issue_order(issues@, filter, before[x] as int, i as int, before[y - 1] as int);
                } else if x == p {
                    assert(r@[y] == before[y - 1]);
                } else {
                    assert(r@[x] == before[x - 1] && r@[y] == before[y - 1]);
                }
            }
            assert forall|j: int| 0 <= j < i + 1 && issue_shown(issues@, mode, filter, *assignee, query@, j) implies #[trigger] r@.contains(j as usize) by {
                if j < i {
                    assert(before.contains(j as usize));
                    let w = choose|w: int| 0 <= w < before.len() && before[w] == j as usize;
                    if w < p {
                        assert(r@[w] == j as usize);
                    } else {
                        assert(r@[w + 1] == j as usize);
                    }
                } else {
                    assert(r@[p as int] == i);
                }
            }
            assert forall|k: int| 0 <= k < r@.len() implies (#[trigger] r@[k] as int) < i + 1 by {
                if k < p {
                    assert(r@[k] == before[k]);
                } else if k > p {
                    assert(r@[k] == before[k - 1]);
                }
            }
            assert forall|k: int| 0 <= k < r@.len() implies issue_shown(issues@, mode, filter, *assignee, query@, #[trigger] r@[k] as int) by {
                if k < p {
                    assert(r@[k] == before[k]);
                } else if k > p {
                    assert(r@[k] == before[k - 1]);
                }
            }
        } else {
            assert forall|j: int| 0 <= j < i + 1 && issue_shown(issues@, mode, filter, *assignee, query@, j) implies #[trigger] r@.contains(j as usize) by {
                if j == i {
                    assert(!issue_shown(issues@, mode, filter, *assignee, query@, j));
                }
            }
        }
        i = i + 1;
    }
    assert forall|j: int| #[trigger] r@.contains(j as usize) && 0 <= j <= usize::MAX implies issue_shown(issues@, mode, filter, *assignee, query@, j) by {
        let w = choose|w: int| 0 <= w < r@.len() && r@[w] == j as usize;
        assert(r@[w] as int == j);
    }
    r
}

} // verus!
