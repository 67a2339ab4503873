//! The issue list a repository view shows: the cached issues and pull
//! requests, the filters and search that decide which of them are listed
//! and in what order, the highlighted row, and the status line those
//! choices produce.
use vstd::prelude::*;

use crate::app::{next_filter, toggled_mode, AssigneeFilter, IssueFilter, WorkItemMode};
use crate::input::KeyCommand;
use crate::issues::{self, IssueRow};
use crate::keybinds::{KeyCode, KeyMods, KeyPress};
use crate::text;
use crate::text::{append_chars, chars_of, string_of, trim_chars, u64_text};

verus! {

broadcast use vstd::string::group_string_axioms;

/// `r` lists exactly the shown items, each once, in list order.
pub open spec fn lists_exactly(
    issues: Seq<IssueRow>,
    mode: WorkItemMode,
    filter: IssueFilter,
    assignee: AssigneeFilter,
    query: Seq<char>,
    r: Seq<usize>,
) -> bool {
    &&& forall|i: int| #[trigger] r.contains(i as usize) && 0 <= i <= usize::MAX <==> issues::issue_shown(
        issues,
        mode,
        filter,
        assignee,
        query,
        i,
    )
    &&& forall|x: int| 0 <= x < r.len() ==> issues::issue_shown(issues, mode, filter, assignee, query, #[trigger] r[x] as int)
    &&& issues::in_issue_order(issues, filter, r)
}

/// `OPEN` or `CLOSED`.
pub open spec fn filter_label_text(f: IssueFilter) -> Seq<char> {
    match f {
        IssueFilter::Open => "OPEN"@,
        IssueFilter::Closed => "CLOSED"@,
    }
}

/// The status line after the filters changed.
pub open spec fn filter_status(f: IssueFilter, a: AssigneeFilter) -> Seq<char> {
    "Filter: "@ + filter_label_text(f) + " | assignee: "@ + app_label(a)
}

/// `all`, `unassigned` or the user's name.
pub open spec fn app_label(a: AssigneeFilter) -> Seq<char> {
    crate::app::assignee_filter_text(a)
}

/// The status line while searching: the filter status when the query is
/// blank, else the query, the assignee filter and the number of results.
pub open spec fn search_status(query: Seq<char>, f: IssueFilter, a: AssigneeFilter, results: nat) -> Seq<char> {
    if text::trim(query).len() == 0 {
        filter_status(f, a)
    } else {
        "Search: "@ + query + " | assignee: "@ + app_label(a) + " ("@ + text::nat_text(results) + " results)"@
    }
}

/// The status line after the assignee filter changed.
pub open spec fn assignee_status(a: AssigneeFilter, items: nat) -> Seq<char> {
    "Assignee: "@ + app_label(a) + " ("@ + text::nat_text(items) + " items)"@
}

/// Where in the list the first listed item with number `n` is.
pub open spec fn listed_position(issues: Seq<IssueRow>, listed: Seq<usize>, n: i64) -> Option<int>
    decreases listed.len(),
{
    if listed.len() == 0 {
        None
    } else {
        match listed_position(issues, listed.drop_last(), n) {
            Some(p) => Some(p),
            None => if 0 <= listed.last() < issues.len() && issues[listed.last() as int].number == n {
                Some(listed.len() - 1)
            } else {
                None
            },
        }
    }
}

/// `row` is `old` with its state replaced by `state`.
pub open spec fn with_state(old: IssueRow, row: IssueRow, state: Seq<char>) -> bool {
    &&& row.state@ == state
    &&& row.id == old.id
    &&& row.repo_id == old.repo_id
    &&& row.number == old.number
    &&& row.title == old.title
    &&& row.body == old.body
    &&& row.labels == old.labels
    &&& row.assignees == old.assignees
    &&& row.comments_count == old.comments_count
    &&& row.updated_at == old.updated_at
    &&& row.is_pr == old.is_pr
}

/// `row` is `old` with its labels replaced by `labels`.
pub open spec fn with_labels(old: IssueRow, row: IssueRow, labels: Seq<char>) -> bool {
    &&& row.labels@ == labels
    &&& row == IssueRow { labels: row.labels, ..old }
}

/// `row` is `old` with its assignees replaced by `assignees`.
pub open spec fn with_assignees(old: IssueRow, row: IssueRow, assignees: Seq<char>) -> bool {
    &&& row.assignees@ == assignees
    &&& row == IssueRow { assignees: row.assignees, ..old }
}

/// The items of `mode` whose state is `word` ignoring ASCII case.
pub open spec fn count_in_state(issues: Seq<IssueRow>, mode: WorkItemMode, word: Seq<char>) -> nat
    decreases issues.len(),
{
    if issues.len() == 0 {
        0
    } else {
        count_in_state(issues.drop_last(), mode, word) + if issues::mode_admits(mode, issues.last())
            && text::eq_ignore_case(issues.last().state@, word) {
            1nat
        } else {
            0nat
        }
    }
}

/// The assignee names of the items of `mode`, trimmed and without empty
/// ones, item by item in list order.
pub open spec fn assignee_names(issues: Seq<IssueRow>, mode: WorkItemMode) -> Seq<Seq<char>>
    decreases issues.len(),
{
    if issues.len() == 0 {
        Seq::empty()
    } else {
        let prev = assignee_names(issues.drop_last(), mode);
        if issues::mode_admits(mode, issues.last()) {
            prev + crate::picker::nonblank_trimmed(text::split_on(issues.last().assignees@, ','))
        } else {
            prev
        }
    }
}

/// Some item of `mode` has no assignee.
pub open spec fn has_unassigned(issues: Seq<IssueRow>, mode: WorkItemMode) -> bool {
    exists|i: int| 0 <= i < issues.len() && issues::mode_admits(mode, #[trigger] issues[i]) && text::trim(
        issues[i].assignees@,
    ).len() == 0
}

/// An assignee filter as a comparable value.
pub open spec fn filter_key(a: AssigneeFilter) -> (int, Seq<char>) {
    match a {
        AssigneeFilter::All => (0, Seq::empty()),
        AssigneeFilter::Unassigned => (1, Seq::empty()),
        AssigneeFilter::User(u) => (2, u@),
    }
}

/// The assignee filters to cycle through: everyone, the unassigned items
/// when there are any, then each user in ASCII case-insensitive order.
pub open spec fn assignee_options_are(r: Seq<AssigneeFilter>, issues: Seq<IssueRow>, mode: WorkItemMode) -> bool {
    let off: int = if has_unassigned(issues, mode) { 2 } else { 1 };
    &&& r.len() >= off
    &&& r[0] == AssigneeFilter::All
    &&& has_unassigned(issues, mode) ==> r[1] == AssigneeFilter::Unassigned
    &&& forall|j: int| off <= j < r.len() ==> (#[trigger] r[j]) is User
    &&& crate::picker::key_sorted_arrangement(
        Seq::new((r.len() - off) as nat, |j: int| filter_key(r[j + off]).1),
        crate::picker::first_of_each_key(assignee_names(issues, mode)),
    )
}

/// The first position holding `a`, or the first position when none does.
pub open spec fn position_or_first(options: Seq<AssigneeFilter>, a: AssigneeFilter) -> int {
    if exists|i: int| 0 <= i < options.len() && filter_key(#[trigger] options[i]) == filter_key(a) {
        choose|i: int|
            0 <= i < options.len() && filter_key(#[trigger] options[i]) == filter_key(a) && forall|k: int|
                0 <= k < i ==> filter_key(#[trigger] options[k]) != filter_key(a)
    } else {
        0
    }
}

/// The position after `current` in a cycle of `len` positions, going
/// forward or backward.
pub open spec fn cycled(current: int, len: int, forward: bool) -> int {
    if forward {
        (current + 1) % len
    } else if current == 0 {
        len - 1
    } else {
        current - 1
    }
}

/// The query after the search box took a key press.
pub open spec fn search_query_after(q: Seq<char>, key: KeyPress) -> Seq<char> {
    if crate::picker::is_clear_key(key) {
        Seq::empty()
    } else {
        match key.code {
            KeyCode::Esc => Seq::empty(),
            KeyCode::Backspace => if q.len() > 0 {
                q.drop_last()
            } else {
                q
            },
            KeyCode::Char(ch) => if key.modifiers == crate::keybinds::no_mods() || key.modifiers == (KeyMods {
                shift: true,
                ..crate::keybinds::no_mods()
            }) {
                q.push(ch)
            } else {
                q
            },
            _ => q,
        }
    }
}

/// The search box edits its query on this key press.
pub open spec fn search_edits(key: KeyPress) -> bool {
    crate::picker::is_clear_key(key) || match key.code {
        KeyCode::Esc | KeyCode::Backspace => true,
        KeyCode::Char(_) => key.modifiers == crate::keybinds::no_mods() || key.modifiers == (KeyMods {
            shift: true,
            ..crate::keybinds::no_mods()
        }),
        _ => false,
    }
}

/// The status line after switching between issues and pull requests.
pub open spec fn mode_status(m: WorkItemMode) -> Seq<char> {
    "Showing "@ + match m {
        WorkItemMode::Issues => "issues"@,
        WorkItemMode::PullRequests => "pull requests"@,
    }
}

/// The highlight kept where it is while the list is long enough, else on
/// the last listed item (the first of an empty list).
pub open spec fn clamped_selection(selected: usize, listed: nat) -> usize {
    if selected < listed {
        selected
    } else if listed == 0 {
        0
    } else {
        (listed - 1) as usize
    }
}

/// The keymap commands the issue list carries out.
pub open spec fn list_command(c: KeyCommand) -> bool {
    match c {
        KeyCommand::NextIssueFilter | KeyCommand::SetIssueFilter(_) | KeyCommand::ToggleWorkItemMode
        | KeyCommand::CycleAssigneeFilter | KeyCommand::ResetAssigneeFilter | KeyCommand::BeginIssueSearch => true,
        _ => false,
    }
}

/// `b` is `a` showing the items of filter `f`, reported on the status line,
/// with the highlight kept where the list allows and the preview at its top.
pub open spec fn filter_set(a: IssueList, b: IssueList, f: IssueFilter) -> bool {
    &&& b.filter_spec() == f
    &&& b.mode_spec() == a.mode_spec()
    &&& b.assignee_spec() == a.assignee_spec()
    &&& b.search_mode_spec() == a.search_mode_spec()
    &&& b.preview_scroll_spec() == 0
    &&& b.status_view() == filter_status(f, a.assignee_spec())
    &&& b.selected_spec() == clamped_selection(a.selected_spec(), b.listed().len())
}

/// What a keymap command of the issue list does (`b` from `a`); see
/// `IssueList::apply_key_command`.
pub open spec fn list_key_applied(a: IssueList, b: IssueList, c: KeyCommand) -> bool {
    &&& c == KeyCommand::NextIssueFilter ==> filter_set(a, b, next_filter(a.filter_spec()))
    &&& c matches KeyCommand::SetIssueFilter(f) ==> filter_set(a, b, f)
    &&& c == KeyCommand::ToggleWorkItemMode ==> {
        &&& b.mode_spec() == toggled_mode(a.mode_spec())
        &&& b.assignee_spec() == AssigneeFilter::All
        &&& b.filter_spec() == a.filter_spec()
        &&& b.status_view() == mode_status(b.mode_spec())
        &&& b.preview_scroll_spec() == 0
        &&& b.search_mode_spec() == a.search_mode_spec()
        &&& b.selected_spec() == clamped_selection(a.selected_spec(), b.listed().len())
    }
    &&& c == KeyCommand::CycleAssigneeFilter ==> {
        &&& exists|options: Seq<AssigneeFilter>|
            assignee_options_are(options, a.issues_view(), a.mode_spec())
                && #[trigger] options[cycled(
                position_or_first(options, a.assignee_spec()),
                options.len() as int,
                true,
            )] == b.assignee_spec()
        &&& b.status_view() == assignee_status(b.assignee_spec(), b.listed().len())
        &&& b.preview_scroll_spec() == 0
        &&& b.filter_spec() == a.filter_spec()
        &&& b.mode_spec() == a.mode_spec()
        &&& b.search_mode_spec() == a.search_mode_spec()
    }
    &&& c == KeyCommand::ResetAssigneeFilter ==> {
        &&& b.assignee_spec() == AssigneeFilter::All
        &&& b.status_view() == assignee_status(AssigneeFilter::All, b.listed().len())
        &&& b.preview_scroll_spec() == 0
        &&& b.filter_spec() == a.filter_spec()
        &&& b.mode_spec() == a.mode_spec()
        &&& b.search_mode_spec() == a.search_mode_spec()
    }
    &&& c == KeyCommand::BeginIssueSearch ==> {
        &&& b.search_mode_spec()
        &&& b.status_view() == "Search issues"@
        &&& b.listed() == a.listed()
        &&& b.filter_spec() == a.filter_spec()
        &&& b.mode_spec() == a.mode_spec()
        &&& b.assignee_spec() == a.assignee_spec()
        &&& b.selected_spec() == a.selected_spec()
        &&& b.preview_scroll_spec() == a.preview_scroll_spec()
    }
}

/// The list of cached issues or pull requests a repository view shows.
pub struct IssueList {
    issues: Vec<IssueRow>,
    issue_filter: IssueFilter,
    work_item_mode: WorkItemMode,
    assignee_filter: AssigneeFilter,
    query: String,
    search_mode: bool,
    filtered: Vec<usize>,
    selected: usize,
    preview_scroll: u16,
    preview_max: u16,
    status: String,
}

impl IssueList {
    /// All cached items.
    pub closed spec fn issues_view(&self) -> Seq<IssueRow> {
        self.issues@
    }

    /// Open or closed items.
    pub closed spec fn filter_spec(&self) -> IssueFilter {
        self.issue_filter
    }

    /// Issues or pull requests.
    pub closed spec fn mode_spec(&self) -> WorkItemMode {
        self.work_item_mode
    }

    /// Whose items.
    pub closed spec fn assignee_spec(&self) -> AssigneeFilter {
        self.assignee_filter
    }

    /// The search text.
    pub closed spec fn query_view(&self) -> Seq<char> {
        self.query@
    }

    /// Typed keys go to the search box.
    pub closed spec fn search_mode_spec(&self) -> bool {
        self.search_mode
    }

    /// The positions (in `issues_view`) of the listed items, in list order.
    pub closed spec fn listed(&self) -> Seq<usize> {
        self.filtered@
    }

    /// The highlighted row of the list.
    pub closed spec fn selected_spec(&self) -> usize {
        self.selected
    }

    /// How far the preview of the highlighted item is scrolled.
    pub closed spec fn preview_scroll_spec(&self) -> u16 {
        self.preview_scroll
    }

    /// How far the preview of the highlighted item can scroll.
    pub closed spec fn preview_max_spec(&self) -> u16 {
        self.preview_max
    }

    /// The status line.
    pub closed spec fn status_view(&self) -> Seq<char> {
        self.status@
    }

    /// The list shows what the filters and search admit, and the highlight
    /// is on a listed row (or at the top of an empty list).
    pub open spec fn wf(&self) -> bool {
        &&& lists_exactly(
            self.issues_view(),
            self.mode_spec(),
            self.filter_spec(),
            self.assignee_spec(),
            self.query_view(),
            self.listed(),
        )
        &&& (self.selected_spec() == 0 || self.selected_spec() < self.listed().len())
    }

    /// An empty list of open issues, not filtered by assignee or search.
    pub fn new() -> (r: Self)
        ensures
            r.wf(),
            r.issues_view().len() == 0,
            r.filter_spec() == IssueFilter::Open,
            r.mode_spec() == WorkItemMode::Issues,
            r.assignee_spec() == AssigneeFilter::All,
            r.query_view().len() == 0,
            !r.search_mode_spec(),
            r.selected_spec() == 0,
            r.preview_scroll_spec() == 0,
            r.preview_max_spec() == 0,
            r.status_view().len() == 0,
    {
        let issues: Vec<IssueRow> = Vec::new();
        let filtered = issues::filtered_issue_indices(&issues, WorkItemMode::Issues, IssueFilter::Open, &AssigneeFilter::All, "");
        IssueList {
            issues,
            issue_filter: IssueFilter::Open,
            work_item_mode: WorkItemMode::Issues,
            assignee_filter: AssigneeFilter::All,
            query: String::new(),
            search_mode: false,
            filtered,
            selected: 0,
            preview_scroll: 0,
            preview_max: 0,
            status: String::new(),
        }
    }

    /// Lists again what the filters and search admit, in list order, and
    /// moves the highlight up to the last row when it fell off the end.
    fn rebuild_issue_filter(&mut self)
        ensures
            final(self).preview_max_spec() == old(self).preview_max_spec(),
            final(self).wf(),
            final(self).issues_view() == old(self).issues_view(),
            final(self).filter_spec() == old(self).filter_spec(),
            final(self).mode_spec() == old(self).mode_spec(),
            final(self).assignee_spec() == old(self).assignee_spec(),
            final(self).query_view() == old(self).query_view(),
            final(self).search_mode_spec() == old(self).search_mode_spec(),
            final(self).preview_scroll_spec() == old(self).preview_scroll_spec(),
            final(self).status_view() == old(self).status_view(),
            final(self).selected_spec() == if old(self).selected_spec() < final(self).listed().len() {
                old(self).selected_spec()
            } else if final(self).listed().len() == 0 {
                0
            } else {
                (final(self).listed().len() - 1) as usize
            },
    {
        self.filtered = issues::filtered_issue_indices(
            &self.issues,
            self.work_item_mode,
            self.issue_filter,
            &self.assignee_filter,
            self.query.as_str(),
        );
        if self.selected >= self.filtered.len() {
            self.selected = if self.filtered.len() == 0 { 0 } else { self.filtered.len() - 1 };
        }
    }

    /// The number of the highlighted item, if a row is highlighted.
    fn selected_number(&self) -> (r: Option<i64>)
        requires
            self.wf(),
        ensures
            r == if self.selected_spec() < self.listed().len() {
                Some(self.issues_view()[self.listed()[self.selected_spec() as int] as int].number)
            } else {
                None::<i64>
            },
    {
        if self.selected < self.filtered.len() {
            let index = self.filtered[self.selected];
            assert(issues::issue_shown(
                self.issues@,
                self.work_item_mode,
                self.issue_filter,
                self.assignee_filter,
                self.query@,
                self.filtered@[self.selected as int] as int,
            ));
            Some(self.issues[index].number)
        } else {
            None
        }
    }

    /// Where the first listed item with number `n` is.
    fn position_of_number(&self, n: i64) -> (r: Option<usize>)
        requires
            self.wf(),
        ensures
            r matches Some(p) ==> listed_position(self.issues_view(), self.listed(), n) == Some(p as int),
            r is None ==> listed_position(self.issues_view(), self.listed(), n) is None,
    {
        let ghost iv = self.issues@;
        let ghost lv = self.filtered@;
        let mut i: usize = 0;
        while i < self.filtered.len()
            invariant
                i <= self.filtered.len(),
                iv == self.issues@,
                lv == self.filtered@,
                self.wf(),
                listed_position(iv, lv.take(i as int), n) is None,
            decreases self.filtered.len() - i,
        {
            assert(lv.take(i + 1).drop_last() =~= lv.take(i as int));
            let index = self.filtered[i];
            assert(issues::issue_shown(
                self.issues@,
                self.work_item_mode,
                self.issue_filter,
                self.assignee_filter,
                self.query@,
                lv[i as int] as int,
            ));
            if self.issues[index].number == n {
                proof {
                    lemma_listed_position_prefix(iv, lv, n, i + 1);
                }
                return Some(i);
            }
            i = i + 1;
        }
        assert(lv.take(self.filtered.len() as int) =~= lv);
        None
    }
}

impl IssueList {
    /// Replaces the cached items and lists them again. The highlight stays
    /// on the item it was on when that item is still listed, else goes to
    /// the top; the preview scrolls back to the top.
    pub fn set_issues(&mut self, issues: Vec<IssueRow>)
        requires
            old(self).wf(),
        ensures
            final(self).preview_max_spec() == old(self).preview_max_spec(),
            final(self).wf(),
            final(self).issues_view() == issues@,
            final(self).filter_spec() == old(self).filter_spec(),
            final(self).mode_spec() == old(self).mode_spec(),
            final(self).assignee_spec() == old(self).assignee_spec(),
            final(self).query_view() == old(self).query_view(),
            final(self).search_mode_spec() == old(self).search_mode_spec(),
            final(self).status_view() == old(self).status_view(),
            final(self).preview_scroll_spec() == 0,
            final(self).selected_spec() == if old(self).selected_spec() < old(self).listed().len() {
                match listed_position(
                    issues@,
                    final(self).listed(),
                    old(self).issues_view()[old(self).listed()[old(self).selected_spec() as int] as int].number,
                ) {
                    Some(p) => p as usize,
                    None => 0,
                }
            } else {
                0
            },
    {
        let previous = self.selected_number();
        self.issues = issues;
        self.rebuild_issue_filter();
        self.selected = match previous {
            Some(n) => match self.position_of_number(n) {
                Some(p) => {
                    proof {
                        lemma_listed_position_in_range(self.issues@, self.filtered@, n);
                    }
                    p
                },
                None => 0,
            },
            None => 0,
        };
        self.preview_scroll = 0;
    }

    /// Shows open or closed items.
    pub fn set_issue_filter(&mut self, filter: IssueFilter)
        requires
            old(self).wf(),
        ensures
            final(self).preview_max_spec() == old(self).preview_max_spec(),
            final(self).wf(),
            final(self).filter_spec() == filter,
            final(self).issues_view() == old(self).issues_view(),
            final(self).mode_spec() == old(self).mode_spec(),
            final(self).assignee_spec() == old(self).assignee_spec(),
            final(self).query_view() == old(self).query_view(),
            final(self).search_mode_spec() == old(self).search_mode_spec(),
            final(self).preview_scroll_spec() == 0,
            final(self).status_view() == filter_status(filter, old(self).assignee_spec()),
            final(self).selected_spec() == if old(self).selected_spec() < final(self).listed().len() {
                old(self).selected_spec()
            } else if final(self).listed().len() == 0 {
                0
            } else {
                (final(self).listed().len() - 1) as usize
            },
    {
        self.issue_filter = filter;
        self.rebuild_issue_filter();
        self.preview_scroll = 0;
        self.status = filter_status_text(self.issue_filter, &self.assignee_filter);
    }

    /// Shows issues or pull requests, from the top of the list.
    pub fn set_work_item_mode(&mut self, mode: WorkItemMode)
        requires
            old(self).wf(),
        ensures
            final(self).preview_max_spec() == old(self).preview_max_spec(),
            final(self).wf(),
            final(self).mode_spec() == mode,
            final(self).issues_view() == old(self).issues_view(),
            final(self).filter_spec() == old(self).filter_spec(),
            final(self).assignee_spec() == old(self).assignee_spec(),
            final(self).query_view() == old(self).query_view(),
            final(self).search_mode_spec() == old(self).search_mode_spec(),
            final(self).status_view() == old(self).status_view(),
            final(self).selected_spec() == 0,
            final(self).preview_scroll_spec() == 0,
    {
        self.work_item_mode = mode;
        self.rebuild_issue_filter();
        self.selected = 0;
        self.preview_scroll = 0;
    }

    /// Shows the other kind of item (issues or pull requests), everyone's,
    /// from the top of the preview, and reports which kind is shown.
    pub fn toggle_work_item_mode(&mut self)
        requires
            old(self).wf(),
        ensures
            final(self).preview_max_spec() == old(self).preview_max_spec(),
            final(self).wf(),
            final(self).mode_spec() == toggled_mode(old(self).mode_spec()),
            final(self).assignee_spec() == AssigneeFilter::All,
            final(self).status_view() == mode_status(final(self).mode_spec()),
            final(self).preview_scroll_spec() == 0,
            final(self).issues_view() == old(self).issues_view(),
            final(self).filter_spec() == old(self).filter_spec(),
            final(self).query_view() == old(self).query_view(),
            final(self).search_mode_spec() == old(self).search_mode_spec(),
            final(self).selected_spec() == if old(self).selected_spec() < final(self).listed().len() {
                old(self).selected_spec()
            } else if final(self).listed().len() == 0 {
                0
            } else {
                (final(self).listed().len() - 1) as usize
            },
    {
        self.work_item_mode = self.work_item_mode.toggle();
        self.assignee_filter = AssigneeFilter::All;
        self.rebuild_issue_filter();
        self.preview_scroll = 0;
        let mut out = chars_of("Showing ");
        let label = chars_of(self.work_item_mode.label());
        append_chars(&mut out, label.as_slice());
        self.status = string_of(out.as_slice());
    }

    /// Carries out a keymap command of the issue list: `NextIssueFilter`
    /// and `SetIssueFilter` as `set_issue_filter`, `ToggleWorkItemMode` as
    /// `toggle_work_item_mode`, `CycleAssigneeFilter` as
    /// `cycle_assignee_filter(true)`, `ResetAssigneeFilter` as
    /// `reset_assignee_filter` and `BeginIssueSearch` as
    /// `begin_issue_search`. Whether `command` is one of them; any other
    /// command changes nothing here.
    pub fn apply_key_command(&mut self, command: KeyCommand) -> (r: bool)
        requires
            old(self).wf(),
        ensures
            final(self).wf(),
            final(self).preview_max_spec() == old(self).preview_max_spec(),
            final(self).issues_view() == old(self).issues_view(),
            final(self).query_view() == old(self).query_view(),
            r == list_command(command),
            !r ==> *final(self) == *old(self),
            list_key_applied(*old(self), *final(self), command),
    {
        match command {
            KeyCommand::NextIssueFilter => {
                self.set_issue_filter(self.issue_filter.next());
                true
            },
            KeyCommand::SetIssueFilter(f) => {
                self.set_issue_filter(f);
                true
            },
            KeyCommand::ToggleWorkItemMode => {
                self.toggle_work_item_mode();
                true
            },
            KeyCommand::CycleAssigneeFilter => {
                self.cycle_assignee_filter(true);
                true
            },
            KeyCommand::ResetAssigneeFilter => {
                self.reset_assignee_filter();
                true
            },
            KeyCommand::BeginIssueSearch => {
                self.begin_issue_search();
                true
            },
            _ => false,
        }
    }

    /// Highlights the first listed item with number `n`; whether there is one.
    pub fn select_issue_by_number(&mut self, n: i64) -> (found: bool)
        requires
            old(self).wf(),
        ensures
            final(self).preview_max_spec() == old(self).preview_max_spec(),
            final(self).wf(),
            found == listed_position(old(self).issues_view(), old(self).listed(), n) is Some,
            found ==> final(self).selected_spec() == listed_position(old(self).issues_view(), old(self).listed(), n).unwrap()
                && final(self).preview_scroll_spec() == 0,
            !found ==> final(self).selected_spec() == old(self).selected_spec()
                && final(self).preview_scroll_spec() == old(self).preview_scroll_spec(),
            final(self).issues_view() == old(self).issues_view(),
            final(self).listed() == old(self).listed(),
            final(self).filter_spec() == old(self).filter_spec(),
            final(self).mode_spec() == old(self).mode_spec(),
            final(self).assignee_spec() == old(self).assignee_spec(),
            final(self).query_view() == old(self).query_view(),
            final(self).search_mode_spec() == old(self).search_mode_spec(),
            final(self).status_view() == old(self).status_view(),
    {
        match self.position_of_number(n) {
            Some(p) => {
                proof {
                    lemma_listed_position_in_range(self.issues@, self.filtered@, n);
                }
                self.selected = p;
                self.preview_scroll = 0;
                true
            },
            None => false,
        }
    }

    /// How many items of the current kind are open and how many closed.
    pub fn issue_counts(&self) -> (r: (usize, usize))
        ensures
            r.0 == count_in_state(self.issues_view(), self.mode_spec(), "open"@),
            r.1 == count_in_state(self.issues_view(), self.mode_spec(), "closed"@),
    {
        let open_word = chars_of("open");
        let closed_word = chars_of("closed");
        let ghost iv = self.issues@;
        let mut open: usize = 0;
        let mut closed: usize = 0;
        let mut i: usize = 0;
        while i < self.issues.len()
            invariant
                i <= self.issues.len(),
                iv == self.issues@,
                open_word@ == "open"@,
                closed_word@ == "closed"@,
                open == count_in_state(iv.take(i as int), self.work_item_mode, "open"@),
                closed == count_in_state(iv.take(i as int), self.work_item_mode, "closed"@),
                open <= i,
                closed <= i,
            decreases self.issues.len() - i,
        {
            assert(iv.take(i + 1).drop_last() =~= iv.take(i as int));
            assert(iv.take(i + 1).last() == iv[i as int]);
            let issue = &self.issues[i];
            if self.work_item_mode.matches(issue) {
                let st = chars_of(issue.state.as_str());
                if text::eq_ignore_case_chars(st.as_slice(), open_word.as_slice()) {
                    open = open + 1;
                }
                if text::eq_ignore_case_chars(st.as_slice(), closed_word.as_slice()) {
                    closed = closed + 1;
                }
            }
            i = i + 1;
        }
        assert(iv.take(self.issues.len() as int) =~= iv);
        (open, closed)
    }

    /// The search box opens.
    pub fn begin_issue_search(&mut self)
        ensures
            final(self).preview_max_spec() == old(self).preview_max_spec(),
            final(self).search_mode_spec(),
            final(self).status_view() == "Search issues"@,
            final(self).issues_view() == old(self).issues_view(),
            final(self).listed() == old(self).listed(),
            final(self).filter_spec() == old(self).filter_spec(),
            final(self).mode_spec() == old(self).mode_spec(),
            final(self).assignee_spec() == old(self).assignee_spec(),
            final(self).query_view() == old(self).query_view(),
            final(self).selected_spec() == old(self).selected_spec(),
            final(self).preview_scroll_spec() == old(self).preview_scroll_spec(),
    {
        self.search_mode = true;
        self.status = "Search issues".to_owned();
    }

    /// Sets the status line from the search: the filters when the query is
    /// blank, else the query, assignee filter and number of results.
    fn update_search_status(&mut self)
        ensures
            final(self).preview_max_spec() == old(self).preview_max_spec(),
            final(self).status_view() == search_status(
                old(self).query_view(),
                old(self).filter_spec(),
                old(self).assignee_spec(),
                old(self).listed().len(),
            ),
            final(self).issues_view() == old(self).issues_view(),
            final(self).listed() == old(self).listed(),
            final(self).filter_spec() == old(self).filter_spec(),
            final(self).mode_spec() == old(self).mode_spec(),
            final(self).assignee_spec() == old(self).assignee_spec(),
            final(self).query_view() == old(self).query_view(),
            final(self).search_mode_spec() == old(self).search_mode_spec(),
            final(self).selected_spec() == old(self).selected_spec(),
            final(self).preview_scroll_spec() == old(self).preview_scroll_spec(),
    {
        self.status = search_status_text(
            self.query.as_str(),
            self.issue_filter,
            &self.assignee_filter,
            self.filtered.len(),
        );
    }

    /// Feeds a key press to the search box: control-`u` clears the query,
    /// escape clears it and closes the box, enter closes the box, backspace
    /// deletes a character, and a character typed without modifiers or with
    /// shift only is added. After an edit the list is rebuilt and its preview
    /// scrolled to the top. The box keeps every key press.
    pub fn handle_issue_search_key(&mut self, key: KeyPress) -> (r: bool)
        requires
            old(self).wf(),
        ensures
            final(self).preview_max_spec() == old(self).preview_max_spec(),
            r,
            final(self).wf(),
            final(self).issues_view() == old(self).issues_view(),
            final(self).filter_spec() == old(self).filter_spec(),
            final(self).mode_spec() == old(self).mode_spec(),
            final(self).assignee_spec() == old(self).assignee_spec(),
            final(self).query_view() == if search_edits(key) {
                search_query_after(old(self).query_view(), key)
            } else {
                old(self).query_view()
            },
            final(self).search_mode_spec() == if !crate::picker::is_clear_key(key) && (key.code == KeyCode::Esc
                || key.code == KeyCode::Enter) {
                false
            } else {
                old(self).search_mode_spec()
            },
            search_edits(key) ==> final(self).preview_scroll_spec() == 0,
            !search_edits(key) ==> final(self).preview_scroll_spec() == old(self).preview_scroll_spec()
                && final(self).listed() == old(self).listed() && final(self).selected_spec() == old(self).selected_spec(),
            final(self).status_view() == if !crate::picker::is_clear_key(key) && key.code == KeyCode::Esc {
                "Search cleared"@
            } else if search_edits(key) || key.code == KeyCode::Enter {
                search_status(final(self).query_view(), old(self).filter_spec(), old(self).assignee_spec(), final(self).listed().len())
            } else {
                old(self).status_view()
            },
    {
        if key.modifiers.control && key.code == KeyCode::Char('u') {
            self.query = String::new();
            self.rebuild_issue_filter();
            self.preview_scroll = 0;
            self.update_search_status();
            return true;
        }
        match key.code {
            KeyCode::Esc => {
                self.search_mode = false;
                self.query = String::new();
                self.rebuild_issue_filter();
                self.preview_scroll = 0;
                self.status = "Search cleared".to_owned();
            },
            KeyCode::Enter => {
                self.search_mode = false;
                self.update_search_status();
            },
            KeyCode::Backspace => {
                let _ = self.query.pop();
                self.rebuild_issue_filter();
                self.preview_scroll = 0;
                self.update_search_status();
            },
            KeyCode::Char(ch) => {
                if key.modifiers.is_empty() || key.modifiers == KeyMods::shift_only() {
                    self.query.push(ch);
                    self.rebuild_issue_filter();
                    self.preview_scroll = 0;
                    self.update_search_status();
                }
            },
            _ => {},
        }
        true
    }
}

/// A found position is a row of the list.
proof fn lemma_listed_position_in_range(issues: Seq<IssueRow>, listed: Seq<usize>, n: i64)
    ensures
        listed_position(issues, listed, n) matches Some(p) ==> 0 <= p < listed.len(),
    decreases listed.len(),
{
    if listed.len() > 0 {
        lemma_listed_position_in_range(issues, listed.drop_last(), n);
    }
}

impl IssueList {
    /// The assignee filters to cycle through: everyone, the unassigned
    /// items when some item of the current kind has no assignee, then each
    /// assignee of an item of the current kind, once, in ASCII
    /// case-insensitive order.
    pub fn assignee_filter_options(&self) -> (r: Vec<AssigneeFilter>)
        ensures
            assignee_options_are(r@, self.issues_view(), self.mode_spec()),
    {
        let names = assignee_names_of(&self.issues, self.work_item_mode);
        let firsts = crate::picker::first_of_each(names);
        let users = crate::picker::sort_by_key(firsts);
        let unassigned = has_unassigned_of(&self.issues, self.work_item_mode);
        let mut options: Vec<AssigneeFilter> = Vec::new();
        options.push(AssigneeFilter::All);
        if unassigned {
            options.push(AssigneeFilter::Unassigned);
        }
        let off = options.len();
        let ghost uv = text::string_views(users@);
        let mut j: usize = 0;
        while j < users.len()
            invariant
                j <= users.len(),
                off == if unassigned { 2usize } else { 1usize },
                options.len() == off + j,
                options@[0] == AssigneeFilter::All,
                unassigned ==> options@[1] == AssigneeFilter::Unassigned,
                uv == text::string_views(users@),
                forall|k: int| 0 <= k < j ==> options@[off + k] == AssigneeFilter::User(#[trigger] users@[k]),
            decreases users.len() - j,
        {
            options.push(AssigneeFilter::User(users[j].clone()));
            j = j + 1;
        }
        let ghost r = options@;
        let ghost keys = Seq::new((r.len() - off) as nat, |k: int| filter_key(r[k + off]).1);
        assert(keys =~= uv) by {
            assert forall|k: int| 0 <= k < keys.len() implies keys[k] == uv[k] by {
                assert(r[k + off] == AssigneeFilter::User(users@[k]));
            }
        }
        assert forall|k: int| off <= k < r.len() implies (#[trigger] r[k]) is User by {
            assert(r[(k - off) + off] == AssigneeFilter::User(users@[k - off]));
        }
        options
    }

    /// Moves to the next (or previous) assignee filter in the cycle of
    /// `assignee_filter_options`, starting from the current one (or from
    /// the first when the current one is not offered), lists again and
    /// reports the filter and the number of items.
    pub fn cycle_assignee_filter(&mut self, forward: bool)
        requires
            old(self).wf(),
        ensures
            final(self).preview_max_spec() == old(self).preview_max_spec(),
            final(self).wf(),
            exists|options: Seq<AssigneeFilter>|
                assignee_options_are(options, old(self).issues_view(), old(self).mode_spec()) && #[trigger] options[cycled(
                    position_or_first(options, old(self).assignee_spec()),
                    options.len() as int,
                    forward,
                )] == final(self).assignee_spec(),
            final(self).status_view() == assignee_status(final(self).assignee_spec(), final(self).listed().len()),
            final(self).preview_scroll_spec() == 0,
            final(self).issues_view() == old(self).issues_view(),
            final(self).filter_spec() == old(self).filter_spec(),
            final(self).mode_spec() == old(self).mode_spec(),
            final(self).query_view() == old(self).query_view(),
            final(self).search_mode_spec() == old(self).search_mode_spec(),
    {
        let options = self.assignee_filter_options();
        let ghost ov = options@;
        let mut current: usize = 0;
        let mut found = false;
        let mut i: usize = 0;
        while i < options.len()
            invariant
                i <= options.len(),
                ov == options@,
                !found ==> current == 0 && forall|k: int| 0 <= k < i ==> filter_key(#[trigger] ov[k]) != filter_key(self.assignee_filter),
                found ==> current < i && filter_key(ov[current as int]) == filter_key(self.assignee_filter)
                    && forall|k: int| 0 <= k < current ==> filter_key(#[trigger] ov[k]) != filter_key(self.assignee_filter),
            decreases options.len() - i,
        {
            if !found && same_filter(&options[i], &self.assignee_filter) {
                found = true;
                current = i;
            }
            i = i + 1;
        }
        proof {
            let a = self.assignee_filter;
            if found {
                let c = current as int;
                assert(exists|i: int| 0 <= i < ov.len() && filter_key(#[trigger] ov[i]) == filter_key(a));
                let ch = choose|i: int|
                    0 <= i < ov.len() && filter_key(#[trigger] ov[i]) == filter_key(a) && forall|k: int|
                        0 <= k < i ==> filter_key(#[trigger] ov[k]) != filter_key(a);
                assert(0 <= c < ov.len() && filter_key(ov[c]) == filter_key(a) && forall|k: int|
                    0 <= k < c ==> filter_key(#[trigger] ov[k]) != filter_key(a));
                if ch < c {
                    assert(filter_key(ov[ch]) != filter_key(a));
                }
                if c < ch {
                    assert(filter_key(ov[c]) != filter_key(a));
                }
                assert(position_or_first(ov, a) == c);
            } else {
                assert(!(exists|i: int| 0 <= i < ov.len() && filter_key(#[trigger] ov[i]) == filter_key(a)));
            }
        }
        let n = options.len();
        let next = if forward {
            (current + 1) % n
        } else if current == 0 {
            n - 1
        } else {
            current - 1
        };
        self.assignee_filter = copy_filter(&options[next]);
        self.rebuild_issue_filter();
        self.preview_scroll = 0;
        self.status = assignee_status_text(&self.assignee_filter, self.filtered.len());
        assert(ov[cycled(position_or_first(ov, old(self).assignee_spec()), ov.len() as int, forward)] == self.assignee_filter);
    }

    /// Shows everyone's items again, and reports it.
    pub fn reset_assignee_filter(&mut self)
        requires
            old(self).wf(),
        ensures
            final(self).preview_max_spec() == old(self).preview_max_spec(),
            final(self).wf(),
            final(self).assignee_spec() == AssigneeFilter::All,
            final(self).status_view() == assignee_status(AssigneeFilter::All, final(self).listed().len()),
            final(self).preview_scroll_spec() == 0,
            final(self).issues_view() == old(self).issues_view(),
            final(self).filter_spec() == old(self).filter_spec(),
            final(self).mode_spec() == old(self).mode_spec(),
            final(self).query_view() == old(self).query_view(),
            final(self).search_mode_spec() == old(self).search_mode_spec(),
    {
        self.assignee_filter = AssigneeFilter::All;
        self.rebuild_issue_filter();
        self.preview_scroll = 0;
        self.status = assignee_status_text(&self.assignee_filter, self.filtered.len());
    }

    /// Sets the state of every item numbered `n`, and lists again.
    pub fn update_issue_state_by_number(&mut self, n: i64, state: &str)
        requires
            old(self).wf(),
        ensures
            final(self).preview_max_spec() == old(self).preview_max_spec(),
            final(self).wf(),
            final(self).issues_view().len() == old(self).issues_view().len(),
            forall|i: int|
                0 <= i < old(self).issues_view().len() ==> if old(self).issues_view()[i].number == n {
                    with_state(old(self).issues_view()[i], #[trigger] final(self).issues_view()[i], state@)
                } else {
                    final(self).issues_view()[i] == old(self).issues_view()[i]
                },
            final(self).filter_spec() == old(self).filter_spec(),
            final(self).mode_spec() == old(self).mode_spec(),
            final(self).assignee_spec() == old(self).assignee_spec(),
            final(self).query_view() == old(self).query_view(),
            final(self).search_mode_spec() == old(self).search_mode_spec(),
            final(self).preview_scroll_spec() == old(self).preview_scroll_spec(),
            final(self).status_view() == old(self).status_view(),
    {
        let mut updated: Vec<IssueRow> = Vec::new();
        let ghost iv = self.issues@;
        let mut i: usize = 0;
        while i < self.issues.len()
            invariant
                i <= self.issues.len(),
                iv == self.issues@,
                updated.len() == i,
                forall|k: int|
                    0 <= k < i ==> if iv[k].number == n {
                        with_state(iv[k], #[trigger] updated@[k], state@)
                    } else {
                        updated@[k] == iv[k]
                    },
            decreases self.issues.len() - i,
        {
            let mut row = copy_row(&self.issues[i]);
            if row.number == n {
                row.state = state.to_owned();
            }
            updated.push(row);
            i = i + 1;
        }
        self.issues = updated;
        self.rebuild_issue_filter();
    }

    /// Sets the labels of every item numbered `n`, and lists again.
    pub fn update_issue_labels_by_number(&mut self, n: i64, labels: &str)
        requires
            old(self).wf(),
        ensures
            final(self).preview_max_spec() == old(self).preview_max_spec(),
            final(self).wf(),
            final(self).issues_view().len() == old(self).issues_view().len(),
            forall|i: int|
                0 <= i < old(self).issues_view().len() ==> if old(self).issues_view()[i].number == n {
                    with_labels(old(self).issues_view()[i], #[trigger] final(self).issues_view()[i], labels@)
                } else {
                    final(self).issues_view()[i] == old(self).issues_view()[i]
                },
            final(self).filter_spec() == old(self).filter_spec(),
            final(self).mode_spec() == old(self).mode_spec(),
            final(self).assignee_spec() == old(self).assignee_spec(),
            final(self).query_view() == old(self).query_view(),
            final(self).search_mode_spec() == old(self).search_mode_spec(),
            final(self).preview_scroll_spec() == old(self).preview_scroll_spec(),
            final(self).status_view() == old(self).status_view(),
    {
        let mut updated: Vec<IssueRow> = Vec::new();
        let ghost iv = self.issues@;
        let mut i: usize = 0;
        while i < self.issues.len()
            invariant
                i <= self.issues.len(),
                iv == self.issues@,
                updated.len() == i,
                forall|k: int|
                    0 <= k < i ==> if iv[k].number == n {
                        with_labels(iv[k], #[trigger] updated@[k], labels@)
                    } else {
                        updated@[k] == iv[k]
                    },
            decreases self.issues.len() - i,
        {
            let mut row = copy_row(&self.issues[i]);
            if row.number == n {
                row.labels = labels.to_owned();
            }
            updated.push(row);
            i = i + 1;
        }
        self.issues = updated;
        self.rebuild_issue_filter();
    }

    /// Sets the assignees of every item numbered `n`, and lists again.
    pub fn update_issue_assignees_by_number(&mut self, n: i64, assignees: &str)
        requires
            old(self).wf(),
        ensures
            final(self).preview_max_spec() == old(self).preview_max_spec(),
            final(self).wf(),
            final(self).issues_view().len() == old(self).issues_view().len(),
            forall|i: int|
                0 <= i < old(self).issues_view().len() ==> if old(self).issues_view()[i].number == n {
                    with_assignees(old(self).issues_view()[i], #[trigger] final(self).issues_view()[i], assignees@)
                } else {
                    final(self).issues_view()[i] == old(self).issues_view()[i]
                },
            final(self).filter_spec() == old(self).filter_spec(),
            final(self).mode_spec() == old(self).mode_spec(),
            final(self).assignee_spec() == old(self).assignee_spec(),
            final(self).query_view() == old(self).query_view(),
            final(self).search_mode_spec() == old(self).search_mode_spec(),
            final(self).preview_scroll_spec() == old(self).preview_scroll_spec(),
            final(self).status_view() == old(self).status_view(),
    {
        let mut updated: Vec<IssueRow> = Vec::new();
        let ghost iv = self.issues@;
        let mut i: usize = 0;
        while i < self.issues.len()
            invariant
                i <= self.issues.len(),
                iv == self.issues@,
                updated.len() == i,
                forall|k: int|
                    0 <= k < i ==> if iv[k].number == n {
                        with_assignees(iv[k], #[trigger] updated@[k], assignees@)
                    } else {
                        updated@[k] == iv[k]
                    },
            decreases self.issues.len() - i,
        {
            let mut row = copy_row(&self.issues[i]);
            if row.number == n {
                row.assignees = assignees.to_owned();
            }
            updated.push(row);
            i = i + 1;
        }
        self.issues = updated;
        self.rebuild_issue_filter();
    }

    /// Sets the comment count of every item numbered `n`; the list itself
    /// does not change.
    pub fn update_issue_comments_count_by_number(&mut self, n: i64, count: i64)
        requires
            old(self).wf(),
        ensures
            final(self).preview_max_spec() == old(self).preview_max_spec(),
            final(self).wf(),
            final(self).issues_view().len() == old(self).issues_view().len(),
            forall|i: int|
                0 <= i < old(self).issues_view().len() ==> #[trigger] final(self).issues_view()[i] == if old(
                    self,
                ).issues_view()[i].number == n {
                    (IssueRow { comments_count: count, ..old(self).issues_view()[i] })
                } else {
                    old(self).issues_view()[i]
                },
            final(self).listed() == old(self).listed(),
            final(self).selected_spec() == old(self).selected_spec(),
            final(self).filter_spec() == old(self).filter_spec(),
            final(self).mode_spec() == old(self).mode_spec(),
            final(self).assignee_spec() == old(self).assignee_spec(),
            final(self).query_view() == old(self).query_view(),
            final(self).search_mode_spec() == old(self).search_mode_spec(),
            final(self).preview_scroll_spec() == old(self).preview_scroll_spec(),
            final(self).status_view() == old(self).status_view(),
    {
        let mut updated: Vec<IssueRow> = Vec::new();
        let ghost iv = self.issues@;
        let mut i: usize = 0;
        while i < self.issues.len()
            invariant
                i <= self.issues.len(),
                iv == self.issues@,
                updated.len() == i,
                forall|k: int|
                    0 <= k < i ==> #[trigger] updated@[k] == if iv[k].number == n {
                        (IssueRow { comments_count: count, ..iv[k] })
                    } else {
                        iv[k]
                    },
            decreases self.issues.len() - i,
        {
            let mut row = copy_row(&self.issues[i]);
            if row.number == n {
                row.comments_count = count;
            }
            updated.push(row);
            i = i + 1;
        }
        let ghost before = self.issues@;
        self.issues = updated;
        proof {
            lemma_comment_counts_keep_listing(
                before,
                self.issues@,
                self.work_item_mode,
                self.issue_filter,
                self.assignee_filter,
                self.query@,
                self.filtered@,
            );
        }
    }

    /// All cached items.
    pub fn issues(&self) -> (r: &[IssueRow])
        ensures
            r@ == self.issues_view(),
    {
        self.issues.as_slice()
    }

    /// The positions of the listed items, in list order.
    pub fn filtered_issue_indices(&self) -> (r: &[usize])
        ensures
            r@ == self.listed(),
    {
        self.filtered.as_slice()
    }

    /// The highlighted row.
    pub fn selected_issue(&self) -> (r: usize)
        ensures
            r == self.selected_spec(),
    {
        self.selected
    }

    /// The highlighted item, if a row is highlighted.
    pub fn selected_issue_row(&self) -> (r: Option<&IssueRow>)
        requires
            self.wf(),
        ensures
            r == if self.selected_spec() < self.listed().len() {
                Some(&self.issues_view()[self.listed()[self.selected_spec() as int] as int])
            } else {
                None::<&IssueRow>
            },
    {
        if self.selected < self.filtered.len() {
            let index = self.filtered[self.selected];
            assert(issues::issue_shown(
                self.issues@,
                self.work_item_mode,
                self.issue_filter,
                self.assignee_filter,
                self.query@,
                self.filtered@[self.selected as int] as int,
            ));
            Some(&self.issues[index])
        } else {
            None
        }
    }

    /// Open or closed items.
    pub fn issue_filter(&self) -> (r: IssueFilter)
        ensures
            r == self.filter_spec(),
    {
        self.issue_filter
    }

    /// Issues or pull requests.
    pub fn work_item_mode(&self) -> (r: WorkItemMode)
        ensures
            r == self.mode_spec(),
    {
        self.work_item_mode
    }

    /// The assignee filter's label.
    pub fn assignee_filter_label(&self) -> (r: String)
        ensures
            r@ == app_label(self.assignee_spec()),
    {
        self.assignee_filter.label()
    }

    /// Some assignee filter other than everyone is on.
    pub fn has_assignee_filter(&self) -> (r: bool)
        ensures
            r == !(self.assignee_spec() is All),
    {
        match self.assignee_filter {
            AssigneeFilter::All => false,
            _ => true,
        }
    }

    /// The search text.
    pub fn issue_query(&self) -> (r: &str)
        ensures
            r@ == self.query_view(),
    {
        self.query.as_str()
    }

    /// Typed keys go to the search box.
    pub fn issue_search_mode(&self) -> (r: bool)
        ensures
            r == self.search_mode_spec(),
    {
        self.search_mode
    }

    /// How far the preview is scrolled.
    pub fn issues_preview_scroll(&self) -> (r: u16)
        ensures
            r == self.preview_scroll_spec(),
    {
        self.preview_scroll
    }

    /// Sets how far the preview can scroll, pulling the scroll back within it.
    pub fn set_issues_preview_max_scroll(&mut self, max_scroll: u16)
        requires
            old(self).wf(),
        ensures
            final(self).wf(),
            final(self).preview_max_spec() == max_scroll,
            final(self).preview_scroll_spec() == if old(self).preview_scroll_spec() > max_scroll {
                max_scroll
            } else {
                old(self).preview_scroll_spec()
            },
            final(self).selected_spec() == old(self).selected_spec(),
            final(self).issues_view() == old(self).issues_view(),
            final(self).filter_spec() == old(self).filter_spec(),
            final(self).mode_spec() == old(self).mode_spec(),
            final(self).assignee_spec() == old(self).assignee_spec(),
            final(self).query_view() == old(self).query_view(),
            final(self).search_mode_spec() == old(self).search_mode_spec(),
            final(self).listed() == old(self).listed(),
            final(self).status_view() == old(self).status_view(),
    {
        self.preview_max = max_scroll;
        if self.preview_scroll > max_scroll {
            self.preview_scroll = max_scroll;
        }
    }

    /// A click on row `index` (or the last row, past the end) highlights it
    /// and shows its preview from the top.
    pub fn select_issue_row(&mut self, index: usize)
        requires
            old(self).wf(),
        ensures
            final(self).wf(),
            final(self).selected_spec() == if index < old(self).listed().len() {
                index
            } else if old(self).listed().len() > 0 {
                (old(self).listed().len() - 1) as usize
            } else {
                0
            },
            final(self).preview_scroll_spec() == 0,
            final(self).preview_max_spec() == old(self).preview_max_spec(),
            final(self).issues_view() == old(self).issues_view(),
            final(self).filter_spec() == old(self).filter_spec(),
            final(self).mode_spec() == old(self).mode_spec(),
            final(self).assignee_spec() == old(self).assignee_spec(),
            final(self).query_view() == old(self).query_view(),
            final(self).search_mode_spec() == old(self).search_mode_spec(),
            final(self).listed() == old(self).listed(),
            final(self).status_view() == old(self).status_view(),
    {
        let last = if self.filtered.len() > 0 { self.filtered.len() - 1 } else { 0 };
        self.selected = if index < self.filtered.len() { index } else { last };
        self.preview_scroll = 0;
    }

    /// Moves down: with the preview focused it scrolls one line, up to its
    /// limit; otherwise the highlight moves one row down (staying on the
    /// last listed row) and a moved highlight shows its preview from the top.
    pub fn move_issue_selection_down(&mut self, preview_focused: bool)
        requires
            old(self).wf(),
        ensures
            final(self).wf(),
            preview_focused ==> final(self).selected_spec() == old(self).selected_spec()
                && final(self).preview_scroll_spec() == if old(self).preview_scroll_spec() < old(self).preview_max_spec() {
                    (old(self).preview_scroll_spec() + 1) as u16
                } else {
                    old(self).preview_max_spec()
                },
            !preview_focused && old(self).selected_spec() + 1 < old(self).listed().len() ==> final(self).selected_spec()
                == old(self).selected_spec() + 1 && final(self).preview_scroll_spec() == 0,
            !preview_focused && old(self).selected_spec() + 1 >= old(self).listed().len() ==> final(self).selected_spec()
                == old(self).selected_spec() && final(self).preview_scroll_spec() == old(self).preview_scroll_spec(),
            final(self).preview_max_spec() == old(self).preview_max_spec(),
            final(self).issues_view() == old(self).issues_view(),
            final(self).filter_spec() == old(self).filter_spec(),
            final(self).mode_spec() == old(self).mode_spec(),
            final(self).assignee_spec() == old(self).assignee_spec(),
            final(self).query_view() == old(self).query_view(),
            final(self).search_mode_spec() == old(self).search_mode_spec(),
            final(self).listed() == old(self).listed(),
            final(self).status_view() == old(self).status_view(),
    {
        if preview_focused {
            let up = self.preview_scroll.saturating_add(1);
            self.preview_scroll = if up < self.preview_max { up } else { self.preview_max };
            return;
        }
        if self.selected < self.filtered.len() && self.selected + 1 < self.filtered.len() {
            self.selected = self.selected + 1;
            self.preview_scroll = 0;
        }
    }

    /// Moves up: with the preview focused it scrolls one line back;
    /// otherwise the highlight moves one row up (staying on the first row)
    /// and a moved highlight shows its preview from the top.
    pub fn move_issue_selection_up(&mut self, preview_focused: bool)
        requires
            old(self).wf(),
        ensures
            final(self).wf(),
            preview_focused ==> final(self).selected_spec() == old(self).selected_spec()
                && final(self).preview_scroll_spec() == if old(self).preview_scroll_spec() > 0 {
                    (old(self).preview_scroll_spec() - 1) as u16
                } else {
                    0
                },
            !preview_focused && old(self).selected_spec() > 0 ==> final(self).selected_spec() == old(self).selected_spec() - 1
                && final(self).preview_scroll_spec() == 0,
            !preview_focused && old(self).selected_spec() == 0 ==> final(self).selected_spec() == 0
                && final(self).preview_scroll_spec() == old(self).preview_scroll_spec(),
            final(self).preview_max_spec() == old(self).preview_max_spec(),
            final(self).issues_view() == old(self).issues_view(),
            final(self).filter_spec() == old(self).filter_spec(),
            final(self).mode_spec() == old(self).mode_spec(),
            final(self).assignee_spec() == old(self).assignee_spec(),
            final(self).query_view() == old(self).query_view(),
            final(self).search_mode_spec() == old(self).search_mode_spec(),
            final(self).listed() == old(self).listed(),
            final(self).status_view() == old(self).status_view(),
    {
        if preview_focused {
            self.preview_scroll = self.preview_scroll.saturating_sub(1);
            return;
        }
        if self.selected > 0 {
            self.selected = self.selected - 1;
            self.preview_scroll = 0;
        }
    }

    /// Goes to the top: of the preview when it is focused, else to the
    /// first row with its preview from the top.
    pub fn jump_issue_top(&mut self, preview_focused: bool)
        requires
            old(self).wf(),
        ensures
            final(self).wf(),
            final(self).preview_scroll_spec() == 0,
            final(self).selected_spec() == if preview_focused { old(self).selected_spec() } else { 0 },
            final(self).preview_max_spec() == old(self).preview_max_spec(),
            final(self).issues_view() == old(self).issues_view(),
            final(self).filter_spec() == old(self).filter_spec(),
            final(self).mode_spec() == old(self).mode_spec(),
            final(self).assignee_spec() == old(self).assignee_spec(),
            final(self).query_view() == old(self).query_view(),
            final(self).search_mode_spec() == old(self).search_mode_spec(),
            final(self).listed() == old(self).listed(),
            final(self).status_view() == old(self).status_view(),
    {
        if !preview_focused {
            self.selected = 0;
        }
        self.preview_scroll = 0;
    }

    /// Goes to the bottom: of the preview when it is focused, else to the
    /// last listed row (when any) with its preview from the top.
    pub fn jump_issue_bottom(&mut self, preview_focused: bool)
        requires
            old(self).wf(),
        ensures
            final(self).wf(),
            preview_focused ==> final(self).selected_spec() == old(self).selected_spec()
                && final(self).preview_scroll_spec() == old(self).preview_max_spec(),
            !preview_focused && old(self).listed().len() > 0 ==> final(self).selected_spec() == old(self).listed().len() - 1
                && final(self).preview_scroll_spec() == 0,
            !preview_focused && old(self).listed().len() == 0 ==> final(self).selected_spec() == old(self).selected_spec()
                && final(self).preview_scroll_spec() == old(self).preview_scroll_spec(),
            final(self).preview_max_spec() == old(self).preview_max_spec(),
            final(self).issues_view() == old(self).issues_view(),
            final(self).filter_spec() == old(self).filter_spec(),
            final(self).mode_spec() == old(self).mode_spec(),
            final(self).assignee_spec() == old(self).assignee_spec(),
            final(self).query_view() == old(self).query_view(),
            final(self).search_mode_spec() == old(self).search_mode_spec(),
            final(self).listed() == old(self).listed(),
            final(self).status_view() == old(self).status_view(),
    {
        if preview_focused {
            self.preview_scroll = self.preview_max;
            return;
        }
        if self.filtered.len() > 0 {
            self.selected = self.filtered.len() - 1;
            self.preview_scroll = 0;
        }
    }

    /// The status line.
    pub fn status(&self) -> (r: &str)
        ensures
            r@ == self.status_view(),
    {
        self.status.as_str()
    }
}

/// The assignee names of the items of `mode`.
fn assignee_names_of(issues: &Vec<IssueRow>, mode: WorkItemMode) -> (r: Vec<String>)
    ensures
        text::string_views(r@) == assignee_names(issues@, mode),
{
    let ghost iv = issues@;
    let mut names: Vec<String> = Vec::new();
    let mut i: usize = 0;
    while i < issues.len()
        invariant
            i <= issues.len(),
            iv == issues@,
            text::string_views(names@) == assignee_names(iv.take(i as int), mode),
        decreases issues.len() - i,
    {
        assert(iv.take(i + 1).drop_last() =~= iv.take(i as int));
        assert(iv.take(i + 1).last() == iv[i as int]);
        if mode.matches(&issues[i]) {
            let all = chars_of(issues[i].assignees.as_str());
            let parts = text::split_chars(all.as_slice(), ',');
            let ghost pv = text::views(parts@);
            let ghost base = text::string_views(names@);
            let mut j: usize = 0;
            while j < parts.len()
                invariant
                    j <= parts.len(),
                    pv == text::views(parts@),
                    text::string_views(names@) == base + crate::picker::nonblank_trimmed(pv.take(j as int)),
                decreases parts.len() - j,
            {
                assert(pv.take(j + 1).drop_last() =~= pv.take(j as int));
                assert(pv.take(j + 1).last() == parts@[j as int]@);
                let t = trim_chars(parts[j].as_slice());
                if t.len() > 0 {
                    let ghost before = names@;
                    names.push(string_of(t.as_slice()));
                    assert(text::string_views(names@) =~= text::string_views(before).push(t@));
                    assert(base + crate::picker::nonblank_trimmed(pv.take(j as int)).push(t@) =~= (base
                        + crate::picker::nonblank_trimmed(pv.take(j as int))).push(t@));
                }
                j = j + 1;
            }
            assert(pv.take(parts.len() as int) =~= pv);
        }
        i = i + 1;
    }
    assert(iv.take(issues.len() as int) =~= iv);
    names
}

/// Whether some item of `mode` has no assignee.
fn has_unassigned_of(issues: &Vec<IssueRow>, mode: WorkItemMode) -> (r: bool)
    ensures
        r == has_unassigned(issues@, mode),
{
    let mut i: usize = 0;
    while i < issues.len()
        invariant
            i <= issues.len(),
            forall|k: int| 0 <= k < i ==> !(issues::mode_admits(mode, #[trigger] issues@[k]) && text::trim(
                issues@[k].assignees@,
            ).len() == 0),
        decreases issues.len() - i,
    {
        if mode.matches(&issues[i]) {
            let a = chars_of(issues[i].assignees.as_str());
            let t = trim_chars(a.as_slice());
            if t.len() == 0 {
                assert(issues::mode_admits(mode, issues@[i as int]) && text::trim(issues@[i as int].assignees@).len() == 0);
                return true;
            }
        }
        i = i + 1;
    }
    false
}

/// Comment counts play no part in which items are listed or in what order.
proof fn lemma_comment_counts_keep_listing(
    before: Seq<IssueRow>,
    after: Seq<IssueRow>,
    mode: WorkItemMode,
    filter: IssueFilter,
    assignee: AssigneeFilter,
    query: Seq<char>,
    listed: Seq<usize>,
)
    requires
        before.len() == after.len(),
        forall|i: int| 0 <= i < before.len() ==> (#[trigger] after[i]) == (IssueRow { comments_count: after[i].comments_count, ..before[i] }),
        lists_exactly(before, mode, filter, assignee, query, listed),
    ensures
        lists_exactly(after, mode, filter, assignee, query, listed),
{
    assert forall|i: int| issues::issue_shown(after, mode, filter, assignee, query, i) == issues::issue_shown(before, mode, filter, assignee, query, i) by {
        if 0 <= i < before.len() {
            let (x, y) = (after[i], before[i]);
            assert(x == IssueRow { comments_count: x.comments_count, ..y });
            assert forall|t: Seq<char>| #[trigger] issues::token_holds(x, t) == issues::token_holds(y, t) by {
                assert(x.title == y.title && x.body == y.body && x.labels == y.labels);
                assert(x.assignees == y.assignees && x.number == y.number && x.state == y.state);
            }
            let q = issues::normalized_query(query);
            if q.len() > 0 {
                if issues::query_holds(x, q) {
                    assert forall|k: int| 0 <= k < text::words(q).len() implies #[trigger] issues::token_holds(
                        y,
                        text::words(q)[k],
                    ) by {
                        assert(issues::token_holds(x, text::words(q)[k]));
                    }
                }
                if issues::query_holds(y, q) {
                    assert forall|k: int| 0 <= k < text::words(q).len() implies #[trigger] issues::token_holds(
                        x,
                        text::words(q)[k],
                    ) by {
                        assert(issues::token_holds(y, text::words(q)[k]));
                    }
                }
            }
            assert(issues::query_holds(x, q) == issues::query_holds(y, q));
        }
    }
    assert forall|a: int, b: int| 0 <= a < before.len() && 0 <= b < before.len() implies issues::issue_precedes(after, filter, a, b) == issues::issue_precedes(before, filter, a, b) by {
        assert(after[a] == IssueRow { comments_count: after[a].comments_count, ..before[a] });
        assert(after[b] == IssueRow { comments_count: after[b].comments_count, ..before[b] });
    }
}

/// `Filter: <filter> | assignee: <assignee>`.
fn filter_status_text(f: IssueFilter, a: &AssigneeFilter) -> (r: String)
    ensures
        r@ == filter_status(f, *a),
{
    let mut out = chars_of("Filter: ");
    let fl = chars_of(f.label());
    append_chars(&mut out, fl.as_slice());
    let sep = chars_of(" | assignee: ");
    append_chars(&mut out, sep.as_slice());
    let al = a.label();
    let alc = chars_of(al.as_str());
    append_chars(&mut out, alc.as_slice());
    string_of(out.as_slice())
}

/// The status line of the search box.
fn search_status_text(query: &str, f: IssueFilter, a: &AssigneeFilter, results: usize) -> (r: String)
    ensures
        r@ == search_status(query@, f, *a, results as nat),
{
    let q = chars_of(query);
    let t = trim_chars(q.as_slice());
    if t.len() == 0 {
        return filter_status_text(f, a);
    }
    let mut out = chars_of("Search: ");
    append_chars(&mut out, q.as_slice());
    let sep = chars_of(" | assignee: ");
    append_chars(&mut out, sep.as_slice());
    let al = a.label();
    let alc = chars_of(al.as_str());
    append_chars(&mut out, alc.as_slice());
    let open = chars_of(" (");
    append_chars(&mut out, open.as_slice());
    let n = u64_text(results as u64);
    append_chars(&mut out, n.as_slice());
    let close = chars_of(" results)");
    append_chars(&mut out, close.as_slice());
    string_of(out.as_slice())
}

/// `Assignee: <assignee> (<n> items)`.
fn assignee_status_text(a: &AssigneeFilter, items: usize) -> (r: String)
    ensures
        r@ == assignee_status(*a, items as nat),
{
    let mut out = chars_of("Assignee: ");
    let al = a.label();
    let alc = chars_of(al.as_str());
    append_chars(&mut out, alc.as_slice());
    let open = chars_of(" (");
    append_chars(&mut out, open.as_slice());
    let n = u64_text(items as u64);
    append_chars(&mut out, n.as_slice());
    let close = chars_of(" items)");
    append_chars(&mut out, close.as_slice());
    string_of(out.as_slice())
}

/// A copy of an assignee filter.
fn copy_filter(a: &AssigneeFilter) -> (r: AssigneeFilter)
    ensures
        r == *a,
{
    match a {
        AssigneeFilter::All => AssigneeFilter::All,
        AssigneeFilter::Unassigned => AssigneeFilter::Unassigned,
        AssigneeFilter::User(u) => AssigneeFilter::User(u.clone()),
    }
}

/// Whether two assignee filters are the same.
fn same_filter(a: &AssigneeFilter, b: &AssigneeFilter) -> (r: bool)
    ensures
        r == (filter_key(*a) == filter_key(*b)),
{
    match (a, b) {
        (AssigneeFilter::All, AssigneeFilter::All) => true,
        (AssigneeFilter::Unassigned, AssigneeFilter::Unassigned) => true,
        (AssigneeFilter::User(x), AssigneeFilter::User(y)) => {
            let xc = chars_of(x.as_str());
            let yc = chars_of(y.as_str());
            text::chars_eq(xc.as_slice(), yc.as_slice())
        },
        _ => false,
    }
}

/// A copy of an optional string.
pub(crate) fn copy_opt(o: &Option<String>) -> (r: Option<String>)
    ensures
        r == *o,
{
    match o {
        Some(s) => Some(s.clone()),
        None => None,
    }
}

/// A copy of an item.
fn copy_row(r: &IssueRow) -> (c: IssueRow)
    ensures
        c == *r,
{
    IssueRow {
        id: r.id,
        repo_id: r.repo_id,
        number: r.number,
        state: r.state.clone(),
        title: r.title.clone(),
        body: r.body.clone(),
        labels: r.labels.clone(),
        assignees: r.assignees.clone(),
        comments_count: r.comments_count,
        updated_at: copy_opt(&r.updated_at),
        is_pr: r.is_pr,
    }
}

/// A position found in a prefix of the list is the position in the list.
proof fn lemma_listed_position_prefix(issues: Seq<IssueRow>, listed: Seq<usize>, n: i64, k: int)
    requires
        0 <= k <= listed.len(),
        listed_position(issues, listed.take(k), n) is Some,
    ensures
        listed_position(issues, listed, n) == listed_position(issues, listed.take(k), n),
    decreases listed.len(),
{
    if k < listed.len() {
        assert(listed.drop_last().take(k) =~= listed.take(k));
        lemma_listed_position_prefix(issues, listed.drop_last(), n, k);
    } else {
        assert(listed.take(k) =~= listed);
    }
}

} // verus!
