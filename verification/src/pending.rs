//! Issue changes that are on their way to GitHub, and the badge each
//! affected issue shows meanwhile.
use vstd::prelude::*;

use std::collections::HashMap;

use crate::app::PendingIssueAction;
use vstd::view::View as _;

verus! {

broadcast use vstd::std_specs::hash::group_hash_axioms;

/// The badge an issue shows while `action` is under way.
pub open spec fn badge_of(action: PendingIssueAction) -> Seq<char> {
    match action {
        PendingIssueAction::Closing => "closing"@,
        PendingIssueAction::Reopening => "reopening"@,
        PendingIssueAction::Merging => "merging"@,
        PendingIssueAction::UpdatingLabels => "updating labels"@,
        PendingIssueAction::UpdatingAssignees => "updating assignees"@,
    }
}

/// `r` is the badge of `action`.
pub open spec fn shows_badge(r: Option<&'static str>, action: PendingIssueAction) -> bool {
    match r {
        Some(b) => b@ == badge_of(action),
        None => false,
    }
}

/// The change under way for each issue number.
pub struct PendingIssueActions {
    actions: HashMap<i64, PendingIssueAction>,
}

impl PendingIssueActions {
    /// The change under way for each issue number.
    pub closed spec fn actions_view(&self) -> Map<i64, PendingIssueAction> {
        self.actions@
    }

    /// Nothing under way.
    pub fn new() -> (r: Self)
        ensures
            r.actions_view() == Map::<i64, PendingIssueAction>::empty(),
    {
        PendingIssueActions { actions: HashMap::new() }
    }

    /// Records that `action` is under way for issue `issue_number`,
    /// replacing any earlier one.
    pub fn set_pending_issue_action(&mut self, issue_number: i64, action: PendingIssueAction)
        ensures
            final(self).actions_view() == old(self).actions_view().insert(issue_number, action),
    {
        self.actions.insert(issue_number, action);
    }

    /// The change for issue `issue_number` is over.
    pub fn clear_pending_issue_action(&mut self, issue_number: i64)
        ensures
            final(self).actions_view() == old(self).actions_view().remove(issue_number),
    {
        self.actions.remove(&issue_number);
    }

    /// The badge issue `issue_number` shows, when a change is under way for it.
    pub fn pending_issue_badge(&self, issue_number: i64) -> (r: Option<&'static str>)
        ensures
            self.actions_view().contains_key(issue_number) ==> shows_badge(r, self.actions_view()[issue_number]),
            !self.actions_view().contains_key(issue_number) ==> r is None,
    {
        match self.actions.get(&issue_number) {
            Some(action) => Some(action.label()),
            None => None,
        }
    }
}

/// The badge of an issue shows the last change recorded for it until that
/// change is cleared; clearing one issue leaves the others' badges alone.
pub proof fn lemma_badge_follows_the_last_change(
    m: Map<i64, PendingIssueAction>,
    n: i64,
    other: i64,
    a: PendingIssueAction,
)
    requires
        n != other,
    ensures
        m.insert(n, a).contains_key(n) && m.insert(n, a)[n] == a,
        !m.insert(n, a).remove(n).contains_key(n),
        m.insert(n, a).remove(n).contains_key(other) == m.contains_key(other),
        m.contains_key(other) ==> m.insert(n, a).remove(n)[other] == m[other],
{
}

} // verus!
