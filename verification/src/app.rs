//! The TUI's state vocabulary: views, actions, filters, review targets and
//! the comment editor's buffer.
use vstd::prelude::*;
use vstd::view::View as _;



verus! {

/// `String::pop` removes and returns the last character, if any.
pub assume_specification[ String::pop ](s: &mut String) -> (r: Option<char>)
    ensures
        old(s)@.len() == 0 ==> r is None && final(s)@ == old(s)@,
        old(s)@.len() > 0 ==> r == Some(old(s)@.last()) && final(s)@ == old(s)@.drop_last(),
;

/// A screen of the TUI.
#[derive(Debug, Clone, Copy, PartialEq, Eq, Structural)]
pub enum View {
    RepoPicker,
    RemoteChooser,
    Issues,
    IssueDetail,
    IssueComments,
    PullRequestFiles,
    LabelPicker,
    AssigneePicker,
    CommentPresetPicker,
    CommentPresetName,
    CommentEditor,
    LinkedPicker,
}

/// Work the event loop is asked to do.
#[derive(Debug, Clone, Copy, PartialEq, Eq, Structural)]
pub enum AppAction {
    PickRepo,
    PickRemote,
    PickIssue,
    OpenInBrowser,
    CheckoutPullRequest,
    OpenLinkedPullRequestInBrowser,
    OpenLinkedPullRequestInTui,
    OpenLinkedIssueInBrowser,
    OpenLinkedIssueInTui,
    CloseIssue,
    ReopenIssue,
    AddIssueComment,
    SubmitIssueComment,
    EditIssueComment,
    DeleteIssueComment,
    SubmitEditedComment,
    AddPullRequestReviewComment,
    SubmitPullRequestReviewComment,
    EditPullRequestReviewComment,
    DeletePullRequestReviewComment,
    ResolvePullRequestReviewComment,
    TogglePullRequestFileViewed,
    SubmitEditedPullRequestReviewComment,
    EditLabels,
    EditAssignees,
    SubmitLabels,
    SubmitAssignees,
    PickPreset,
    PickLinkedItem,
    SavePreset,
    SubmitComment,
    /// Open the editor for a new issue.
    CreateIssue,
    /// Create the issue written in the editor.
    SubmitCreatedIssue,
}

/// Which side of a diff a review comment belongs to.
#[derive(Debug, Clone, Copy, PartialEq, Eq, Structural)]
pub enum ReviewSide {
    Left,
    Right,
}

impl ReviewSide {
    /// The side as the GitHub API names it.
    pub fn as_api_side(self) -> (r: &'static str)
        ensures
            r@ == match self {
                ReviewSide::Left => "LEFT"@,
                ReviewSide::Right => "RIGHT"@,
            },
    {
        match self {
            ReviewSide::Left => "LEFT",
            ReviewSide::Right => "RIGHT",
        }
    }
}

/// What a mouse click landed on.
#[derive(Debug, Clone, Copy, PartialEq, Eq, Structural)]
pub enum MouseTarget {
    RepoPicker,
    Back,
    RepoListPane,
    RepoRow(usize),
    RemoteListPane,
    RemoteRow(usize),
    IssueTabOpen,
    IssueTabClosed,
    IssueRow(usize),
    IssuesListPane,
    IssuesPreviewPane,
    IssueBodyPane,
    IssueSidePane,
    LinkedPullRequestTuiButton,
    LinkedPullRequestWebButton,
    LinkedIssueTuiButton,
    LinkedIssueWebButton,
    CommentRow(usize),
    CommentsPane,
    PullRequestFilesPane,
    PullRequestDiffPane,
    PullRequestFileRow(usize),
    PullRequestDiffRow(usize, ReviewSide),
    PullRequestFocusFiles,
    PullRequestFocusDiff,
    LabelOption(usize),
    LabelApply,
    LabelCancel,
    AssigneeOption(usize),
    AssigneeApply,
    AssigneeCancel,
    PresetOption(usize),
}

/// The choice made in the close-comment preset picker.
#[derive(Debug, Clone, Copy, PartialEq, Eq, Structural)]
pub enum PresetSelection {
    CloseWithoutComment,
    CustomMessage,
    Preset(usize),
    AddPreset,
}

/// The pane that has keyboard focus in the issue views.
#[derive(Debug, Clone, Copy, PartialEq, Eq, Structural)]
pub enum Focus {
    IssuesList,
    IssuesPreview,
    IssueBody,
    IssueRecentComments,
}

/// The pane that has keyboard focus in the pull request review.
#[derive(Debug, Clone, Copy, PartialEq, Eq, Structural)]
pub enum PullRequestReviewFocus {
    Files,
    Diff,
}

/// Open or closed items.
#[derive(Debug, Clone, Copy, PartialEq, Eq, Structural)]
pub enum IssueFilter {
    Open,
    Closed,
}

/// The other issue filter.
pub open spec fn next_filter(f: IssueFilter) -> IssueFilter {
    match f {
        IssueFilter::Open => IssueFilter::Closed,
        IssueFilter::Closed => IssueFilter::Open,
    }
}

/// Switching the issue filter twice gets back to where it was, and once
/// always changes it.
pub proof fn lemma_next_filter_involution(f: IssueFilter)
    ensures
        next_filter(next_filter(f)) == f,
        next_filter(f) != f,
{
}

/// The other work item mode.
pub open spec fn toggled_mode(m: WorkItemMode) -> WorkItemMode {
    match m {
        WorkItemMode::Issues => WorkItemMode::PullRequests,
        WorkItemMode::PullRequests => WorkItemMode::Issues,
    }
}

/// Toggling between issues and pull requests twice gets back to where it
/// was, and once always changes it.
pub proof fn lemma_toggled_mode_involution(m: WorkItemMode)
    ensures
        toggled_mode(toggled_mode(m)) == m,
        toggled_mode(m) != m,
{
}

/// Issues or pull requests.
#[derive(Debug, Clone, Copy, PartialEq, Eq, Structural)]
pub enum WorkItemMode {
    Issues,
    PullRequests,
}

/// A file a pull request changes.
#[derive(Debug, Clone, PartialEq, Eq)]
pub struct PullRequestFile {
    pub filename: String,
    pub status: String,
    pub additions: i64,
    pub deletions: i64,
    pub patch: Option<String>,
}

/// A review comment on a line of a pull request.
#[derive(Debug, Clone, PartialEq, Eq)]
pub struct PullRequestReviewComment {
    pub id: i64,
    pub thread_id: Option<String>,
    pub resolved: bool,
    pub anchored: bool,
    pub path: String,
    pub line: i64,
    pub side: ReviewSide,
    pub body: String,
    pub author: String,
    pub created_at: Option<String>,
}

/// The lines a new review comment is attached to.
#[derive(Debug, Clone, PartialEq, Eq)]
pub struct PullRequestReviewTarget {
    pub path: String,
    pub line: i64,
    pub side: ReviewSide,
    pub start_line: Option<i64>,
    pub start_side: Option<ReviewSide>,
}

/// Whose items are shown.
#[derive(Debug, Clone, PartialEq, Eq)]
pub enum AssigneeFilter {
    All,
    Unassigned,
    User(String),
}

/// An issue change that is on its way to GitHub.
#[derive(Debug, Clone, Copy, PartialEq, Eq, Structural)]
pub enum PendingIssueAction {
    Closing,
    Reopening,
    Merging,
    UpdatingLabels,
    UpdatingAssignees,
}

impl PendingIssueAction {
    /// The badge shown beside the issue.
    pub fn label(self) -> (r: &'static str)
        ensures
            r@ == match self {
                PendingIssueAction::Closing => "closing"@,
                PendingIssueAction::Reopening => "reopening"@,
                PendingIssueAction::Merging => "merging"@,
                PendingIssueAction::UpdatingLabels => "updating labels"@,
                PendingIssueAction::UpdatingAssignees => "updating assignees"@,
            },
    {
        match self {
            PendingIssueAction::Closing => "closing",
            PendingIssueAction::Reopening => "reopening",
            PendingIssueAction::Merging => "merging",
            PendingIssueAction::UpdatingLabels => "updating labels",
            PendingIssueAction::UpdatingAssignees => "updating assignees",
        }
    }
}

/// The text of an assignee filter.
pub open spec fn assignee_filter_text(f: AssigneeFilter) -> Seq<char> {
    match f {
        AssigneeFilter::All => "all"@,
        AssigneeFilter::Unassigned => "unassigned"@,
        AssigneeFilter::User(u) => u@,
    }
}

impl AssigneeFilter {
    /// `all`, `unassigned` or the user's name.
    pub fn label(&self) -> (r: String)
        ensures
            r@ == assignee_filter_text(*self),
    {
        match self {
            AssigneeFilter::All => "all".to_owned(),
            AssigneeFilter::Unassigned => "unassigned".to_owned(),
            AssigneeFilter::User(user) => user.clone(),
        }
    }
}

impl IssueFilter {
    /// The other filter.
    pub fn next(self) -> (r: IssueFilter)
        ensures
            r == next_filter(self),
    {
        match self {
            IssueFilter::Open => IssueFilter::Closed,
            IssueFilter::Closed => IssueFilter::Open,
        }
    }

    /// The filter a digit key selects: `1` open, `2` closed.
    pub fn from_key(ch: char) -> (r: Option<IssueFilter>)
        ensures
            r == if ch == '1' {
                Some(IssueFilter::Open)
            } else if ch == '2' {
                Some(IssueFilter::Closed)
            } else {
                None::<IssueFilter>
            },
    {
        if ch == '1' {
            Some(IssueFilter::Open)
        } else if ch == '2' {
            Some(IssueFilter::Closed)
        } else {
            None
        }
    }

    /// `OPEN` or `CLOSED`.
    pub fn label(self) -> (r: &'static str)
        ensures
            r@ == match self {
                IssueFilter::Open => "OPEN"@,
                IssueFilter::Closed => "CLOSED"@,
            },
    {
        match self {
            IssueFilter::Open => "OPEN",
            IssueFilter::Closed => "CLOSED",
        }
    }
}

impl WorkItemMode {
    /// The other mode.
    pub fn toggle(self) -> (r: WorkItemMode)
        ensures
            r == toggled_mode(self),
    {
        match self {
            WorkItemMode::Issues => WorkItemMode::PullRequests,
            WorkItemMode::PullRequests => WorkItemMode::Issues,
        }
    }

    /// `issues` or `pull requests`.
    pub fn label(self) -> (r: &'static str)
        ensures
            r@ == match self {
                WorkItemMode::Issues => "issues"@,
                WorkItemMode::PullRequests => "pull requests"@,
            },
    {
        match self {
            WorkItemMode::Issues => "issues",
            WorkItemMode::PullRequests => "pull requests",
        }
    }
}

/// What the comment editor is writing.
#[derive(Debug, Clone, Copy, PartialEq, Eq, Structural)]
pub enum EditorMode {
    CloseIssue,
    AddComment,
    EditComment,
    AddPullRequestReviewComment,
    EditPullRequestReviewComment,
    AddPreset,
    /// A new issue: a title and a body.
    CreateIssue,
}

impl EditorMode {
    /// Every editor mode takes multi-line text.
    pub fn allows_multiline(self) -> (r: bool)
        ensures
            r,
    {
        match self {
            EditorMode::CloseIssue | EditorMode::AddComment | EditorMode::EditComment
            | EditorMode::AddPullRequestReviewComment | EditorMode::EditPullRequestReviewComment
            | EditorMode::AddPreset | EditorMode::CreateIssue => true,
        }
    }
}

/// The comment editor's buffer: its mode, a name (a preset's name, or a
/// new issue's title) and the text; for a new issue also whether the title
/// has focus and whether the confirmation is shown with submit chosen.
#[derive(Debug, Clone)]
pub struct CommentEditorState {
    mode: EditorMode,
    name: String,
    text: String,
    title_focused: bool,
    confirm_visible: bool,
    confirm_submit: bool,
}

/// The model of the comment editor.
pub struct EditorView {
    pub mode: EditorMode,
    pub name: Seq<char>,
    pub text: Seq<char>,
    pub title_focused: bool,
    pub confirm_visible: bool,
    pub confirm_submit: bool,
}

/// The editor with the create-issue flags cleared.
pub open spec fn unflagged(v: EditorView) -> EditorView {
    EditorView { title_focused: false, confirm_visible: false, confirm_submit: false, ..v }
}

/// The editor with `ch` added to the preset name.
pub open spec fn with_name_char(v: EditorView, ch: char) -> EditorView {
    EditorView { name: v.name.push(ch), ..v }
}

/// The editor with the last character of the preset name deleted, if any.
pub open spec fn without_last_name_char(v: EditorView) -> EditorView {
    EditorView { name: if v.name.len() > 0 { v.name.drop_last() } else { v.name }, ..v }
}

/// The editor with `ch` added to the text.
pub open spec fn with_text_char(v: EditorView, ch: char) -> EditorView {
    EditorView { text: v.text.push(ch), ..v }
}

/// The editor with the last character of the text deleted, if any.
pub open spec fn without_last_text_char(v: EditorView) -> EditorView {
    EditorView { text: if v.text.len() > 0 { v.text.drop_last() } else { v.text }, ..v }
}

/// Typing a character into the text and deleting it again leaves the
/// editor as it was; the same holds of the preset name.
pub proof fn lemma_backspace_undoes_typing(v: EditorView, ch: char)
    ensures
        without_last_text_char(with_text_char(v, ch)) == v,
        without_last_name_char(with_name_char(v, ch)) == v,
{
    assert(v.text.push(ch).drop_last() =~= v.text);
    assert(v.name.push(ch).drop_last() =~= v.name);
}

impl vstd::view::View for CommentEditorState {
    type V = EditorView;

    closed spec fn view(&self) -> EditorView {
        EditorView {
            mode: self.mode,
            name: self.name@,
            text: self.text@,
            title_focused: self.title_focused,
            confirm_visible: self.confirm_visible,
            confirm_submit: self.confirm_submit,
        }
    }
}

impl CommentEditorState {
    /// An empty editor for closing an issue.
    pub fn new() -> (r: CommentEditorState)
        ensures
            r@ == (EditorView {
                mode: EditorMode::CloseIssue,
                name: Seq::<char>::empty(),
                text: Seq::<char>::empty(),
                title_focused: false,
                confirm_visible: false,
                confirm_submit: false,
            }),
    {
        CommentEditorState {
            mode: EditorMode::CloseIssue,
            name: String::new(),
            text: String::new(),
            title_focused: false,
            confirm_visible: false,
            confirm_submit: false,
        }
    }

    /// The editor's mode.
    pub fn mode(&self) -> (r: EditorMode)
        ensures
            r == self@.mode,
    {
        self.mode
    }

    /// The preset name typed so far.
    pub fn name(&self) -> (r: &str)
        ensures
            r@ == self@.name,
    {
        self.name.as_str()
    }

    /// The text typed so far.
    pub fn text(&self) -> (r: &str)
        ensures
            r@ == self@.text,
    {
        self.text.as_str()
    }

    /// Starts an empty closing comment.
    pub fn reset_for_close(&mut self)
        ensures
            final(self)@ == (EditorView { mode: EditorMode::CloseIssue, text: Seq::<char>::empty(), ..unflagged(old(self)@) }),
    {
        self.mode = EditorMode::CloseIssue;
        self.clear_flags();
        self.text = String::new();
    }

    /// Starts an empty issue comment.
    pub fn reset_for_comment(&mut self)
        ensures
            final(self)@ == (EditorView { mode: EditorMode::AddComment, text: Seq::<char>::empty(), ..unflagged(old(self)@) }),
    {
        self.mode = EditorMode::AddComment;
        self.clear_flags();
        self.text = String::new();
    }

    /// Starts editing an existing comment's body.
    pub fn reset_for_comment_edit(&mut self, body: &str)
        ensures
            final(self)@ == (EditorView { mode: EditorMode::EditComment, text: body@, ..unflagged(old(self)@) }),
    {
        self.mode = EditorMode::EditComment;
        self.clear_flags();
        self.text = body.to_owned();
    }

    /// Starts an empty review comment.
    pub fn reset_for_pull_request_review_comment(&mut self)
        ensures
            final(self)@ == (EditorView {
                mode: EditorMode::AddPullRequestReviewComment,
                text: Seq::<char>::empty(),
                ..unflagged(old(self)@)
            }),
    {
        self.mode = EditorMode::AddPullRequestReviewComment;
        self.clear_flags();
        self.text = String::new();
    }

    /// Starts editing an existing review comment's body.
    pub fn reset_for_pull_request_review_comment_edit(&mut self, body: &str)
        ensures
            final(self)@ == (EditorView { mode: EditorMode::EditPullRequestReviewComment, text: body@, ..unflagged(old(self)@) }),
    {
        self.mode = EditorMode::EditPullRequestReviewComment;
        self.clear_flags();
        self.text = body.to_owned();
    }

    /// Starts a new preset: empty name and text.
    pub fn reset_for_preset_name(&mut self)
        ensures
            final(self)@ == (EditorView {
                mode: EditorMode::AddPreset,
                name: Seq::<char>::empty(),
                text: Seq::<char>::empty(),
                title_focused: false,
                confirm_visible: false,
                confirm_submit: false,
            }),
    {
        self.mode = EditorMode::AddPreset;
        self.clear_flags();
        self.name = String::new();
        self.text = String::new();
    }

    /// Clears the create-issue flags.
    fn clear_flags(&mut self)
        ensures
            final(self)@ == unflagged(old(self)@),
    {
        self.title_focused = false;
        self.confirm_visible = false;
        self.confirm_submit = false;
    }

    /// Starts a new issue: empty title and body, the title focused.
    pub fn reset_for_issue_create(&mut self)
        ensures
            final(self)@ == (EditorView {
                mode: EditorMode::CreateIssue,
                name: Seq::<char>::empty(),
                text: Seq::<char>::empty(),
                title_focused: true,
                confirm_visible: false,
                confirm_submit: false,
            }),
    {
        self.mode = EditorMode::CreateIssue;
        self.name = String::new();
        self.text = String::new();
        self.title_focused = true;
        self.confirm_visible = false;
        self.confirm_submit = false;
    }

    /// Whether a new issue's title has focus.
    pub fn create_issue_title_focused(&self) -> (r: bool)
        ensures
            r == self@.title_focused,
    {
        self.title_focused
    }

    /// Whether the confirmation of a new issue is shown.
    pub fn create_issue_confirm_visible(&self) -> (r: bool)
        ensures
            r == self@.confirm_visible,
    {
        self.confirm_visible
    }

    /// Whether submit is chosen in the confirmation.
    pub fn create_issue_confirm_submit_selected(&self) -> (r: bool)
        ensures
            r == self@.confirm_submit,
    {
        self.confirm_submit
    }

    /// Moves the focus to the title (`true`) or the body.
    pub fn focus_create_issue_title(&mut self, title: bool)
        ensures
            final(self)@ == (EditorView { title_focused: title, ..old(self)@ }),
    {
        self.title_focused = title;
    }

    /// Shows the confirmation with submit chosen, or hides it.
    pub fn show_create_issue_confirm(&mut self, shown: bool)
        ensures
            final(self)@ == (EditorView { confirm_visible: shown, confirm_submit: shown, ..old(self)@ }),
    {
        self.confirm_visible = shown;
        self.confirm_submit = shown;
    }

    /// Chooses submit (`true`) or cancel in the confirmation.
    pub fn set_create_issue_confirm_submit_selected(&mut self, submit: bool)
        ensures
            final(self)@ == (EditorView { confirm_submit: submit, ..old(self)@ }),
    {
        self.confirm_submit = submit;
    }

    /// Types a character into the preset name.
    pub fn append_name(&mut self, ch: char)
        ensures
            final(self)@ == with_name_char(old(self)@, ch),
    {
        self.name.push(ch);
    }

    /// Deletes the last character of the preset name, if any.
    pub fn backspace_name(&mut self)
        ensures
            final(self)@ == without_last_name_char(old(self)@),
    {
        self.name.pop();
    }

    /// Types a character into the text.
    pub fn append_text(&mut self, ch: char)
        ensures
            final(self)@ == with_text_char(old(self)@, ch),
    {
        self.text.push(ch);
    }

    /// Starts a new line of text.
    pub fn newline(&mut self)
        ensures
            final(self)@ == with_text_char(old(self)@, '\n'),
    {
        self.text.push('\n');
    }

    /// Deletes the last character of the text, if any.
    pub fn backspace_text(&mut self)
        ensures
            final(self)@ == without_last_text_char(old(self)@),
    {
        self.text.pop();
    }
}

} // verus!
