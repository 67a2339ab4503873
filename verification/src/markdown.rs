//! Laying out markdown for the terminal: the events of parsed markdown
//! (headings, emphasis, quotes, lists, code, links, text and breaks) become
//! lines of styled spans, with links numbered and collected.
use vstd::prelude::*;

use crate::text;
use crate::text::{append_chars, chars_of, string_of, u64_text};
use pulldown_cmark::{Event as Ev, Options, Parser, Tag as Tg, TagEnd as Te};

verus! {

/// A colour as red, green and blue.
#[derive(Debug, Clone, Copy, PartialEq, Eq, Structural)]
pub struct Rgb {
    pub r: u8,
    pub g: u8,
    pub b: u8,
}

/// The style of a span: colours, when set, and text modifiers.
#[derive(Debug, Clone, Copy, PartialEq, Eq, Structural)]
pub struct SpanStyle {
    pub fg: Option<Rgb>,
    pub bg: Option<Rgb>,
    pub bold: bool,
    pub italic: bool,
    pub crossed_out: bool,
    pub underlined: bool,
}

/// A run of text in one style.
#[derive(Debug, Clone, PartialEq, Eq)]
pub struct StyledSpan {
    pub text: String,
    pub style: SpanStyle,
}

/// The model of a span.
pub struct SpanView {
    pub text: Seq<char>,
    pub style: SpanStyle,
}

impl View for StyledSpan {
    type V = SpanView;

    open spec fn view(&self) -> SpanView {
        SpanView { text: self.text@, style: self.style }
    }
}

/// The start of a markdown element.
#[derive(Debug, Clone, PartialEq, Eq)]
pub enum MdTag {
    /// A heading of the given level (1 to 6).
    Heading(u8),
    Emphasis,
    Strong,
    Strikethrough,
    BlockQuote,
    List,
    Item,
    CodeBlock,
    /// A link to the given address.
    Link(String),
    Paragraph,
    /// An element that is laid out as its contents alone.
    Other,
}

/// The end of a markdown element.
#[derive(Debug, Clone, Copy, PartialEq, Eq, Structural)]
pub enum MdTagEnd {
    Heading,
    Emphasis,
    Strong,
    Strikethrough,
    BlockQuote,
    List,
    Item,
    CodeBlock,
    Link,
    Paragraph,
    Other,
}

/// One event of parsed markdown.
#[derive(Debug, Clone, PartialEq, Eq)]
pub enum MdEvent {
    Start(MdTag),
    End(MdTagEnd),
    Text(String),
    /// Inline code.
    Code(String),
    SoftBreak,
    HardBreak,
    /// A horizontal rule.
    Rule,
    /// A task list checkbox, checked or not.
    TaskListMarker(bool),
    /// An event that adds nothing to the layout.
    Other,
}

/// The model of a tag.
pub enum MdTagView {
    /// A heading of the given level (1 to 6).
    Heading(u8),
    Emphasis,
    Strong,
    Strikethrough,
    BlockQuote,
    List,
    Item,
    CodeBlock,
    Link(Seq<char>),
    Paragraph,
    Other,
}

/// The model of an event.
pub enum MdEventView {
    Start(MdTagView),
    End(MdTagEnd),
    Text(Seq<char>),
    Code(Seq<char>),
    SoftBreak,
    HardBreak,
    Rule,
    TaskListMarker(bool),
    Other,
}

impl View for MdTag {
    type V = MdTagView;

    open spec fn view(&self) -> MdTagView {
        match self {
            MdTag::Heading(l) => MdTagView::Heading(*l),
            MdTag::Emphasis => MdTagView::Emphasis,
            MdTag::Strong => MdTagView::Strong,
            MdTag::Strikethrough => MdTagView::Strikethrough,
            MdTag::BlockQuote => MdTagView::BlockQuote,
            MdTag::List => MdTagView::List,
            MdTag::Item => MdTagView::Item,
            MdTag::CodeBlock => MdTagView::CodeBlock,
            MdTag::Link(url) => MdTagView::Link(url@),
            MdTag::Paragraph => MdTagView::Paragraph,
            MdTag::Other => MdTagView::Other,
        }
    }
}

impl View for MdEvent {
    type V = MdEventView;

    open spec fn view(&self) -> MdEventView {
        match self {
            MdEvent::Start(t) => MdEventView::Start(t@),
            MdEvent::End(t) => MdEventView::End(*t),
            MdEvent::Text(s) => MdEventView::Text(s@),
            MdEvent::Code(s) => MdEventView::Code(s@),
            MdEvent::SoftBreak => MdEventView::SoftBreak,
            MdEvent::HardBreak => MdEventView::HardBreak,
            MdEvent::Rule => MdEventView::Rule,
            MdEvent::TaskListMarker(c) => MdEventView::TaskListMarker(*c),
            MdEvent::Other => MdEventView::Other,
        }
    }
}

/// Laid-out markdown: its lines of spans and the addresses of its links,
/// numbered from 1 in the order they appear.
#[derive(Debug, Clone, PartialEq, Eq)]
pub struct RenderedMarkdown {
    pub lines: Vec<Vec<StyledSpan>>,
    pub links: Vec<String>,
}

// ---------------------------------------------------------------------------
// The layout, as a state machine over events
// ---------------------------------------------------------------------------

/// The style with nothing set.
pub open spec fn plain_style() -> SpanStyle {
    SpanStyle { fg: None, bg: None, bold: false, italic: false, crossed_out: false, underlined: false }
}

/// Body text.
pub open spec fn text_color() -> Rgb {
    Rgb { r: 226, g: 231, b: 238 }
}

/// Rules.
pub open spec fn muted_color() -> Rgb {
    Rgb { r: 119, g: 131, b: 149 }
}

/// First-level headings.
pub open spec fn purple_color() -> Rgb {
    Rgb { r: 212, g: 171, b: 255 }
}

/// Second-level headings.
pub open spec fn blue_color() -> Rgb {
    Rgb { r: 171, g: 229, b: 179 }
}

/// Third-level headings, inline code and links.
pub open spec fn cyan_color() -> Rgb {
    Rgb { r: 180, g: 223, b: 164 }
}

/// Code blocks.
pub open spec fn green_color() -> Rgb {
    Rgb { r: 129, g: 199, b: 132 }
}

/// The background of code.
pub open spec fn code_bg_color() -> Rgb {
    Rgb { r: 20, g: 26, b: 34 }
}

/// `fg` in the given colour, nothing else set.
pub open spec fn fg_style(c: Rgb) -> SpanStyle {
    SpanStyle { fg: Some(c), ..plain_style() }
}

/// The style of a heading: bold, coloured by level.
pub open spec fn heading_style(level: u8) -> SpanStyle {
    let c = if level == 1 {
        purple_color()
    } else if level == 2 {
        blue_color()
    } else if level == 3 {
        cyan_color()
    } else {
        text_color()
    };
    SpanStyle { fg: Some(c), bold: true, ..plain_style() }
}

/// `over` laid on `base`: its colours where it sets them, and the
/// modifiers of both.
pub open spec fn patched(base: SpanStyle, over: SpanStyle) -> SpanStyle {
    SpanStyle {
        fg: if over.fg is Some { over.fg } else { base.fg },
        bg: if over.bg is Some { over.bg } else { base.bg },
        bold: base.bold || over.bold,
        italic: base.italic || over.italic,
        crossed_out: base.crossed_out || over.crossed_out,
        underlined: base.underlined || over.underlined,
    }
}

/// `s` written `n` times.
pub open spec fn repeated(s: Seq<char>, n: nat) -> Seq<char>
    decreases n,
{
    if n == 0 {
        Seq::<char>::empty()
    } else {
        repeated(s, (n - 1) as nat) + s
    }
}

/// The layout between events.
pub struct MdState {
    pub lines: Seq<Seq<SpanView>>,
    pub styles: Seq<SpanStyle>,
    pub links: Seq<Seq<char>>,
    pub active_link: Option<nat>,
    pub list_depth: nat,
    pub quote_depth: nat,
    pub in_code: bool,
}

/// One empty line, the plain style, no links.
pub open spec fn md_start() -> MdState {
    MdState {
        lines: seq![Seq::<SpanView>::empty()],
        styles: seq![plain_style()],
        links: Seq::empty(),
        active_link: None,
        list_depth: 0,
        quote_depth: 0,
        in_code: false,
    }
}

/// The style text is written in: the innermost one open.
pub open spec fn current_style(st: MdState) -> SpanStyle {
    if st.styles.len() > 0 {
        st.styles.last()
    } else {
        plain_style()
    }
}

/// `sp` added to the end of the last line.
pub open spec fn with_span(st: MdState, sp: SpanView) -> MdState {
    if st.lines.len() > 0 {
        MdState { lines: st.lines.update(st.lines.len() - 1, st.lines.last().push(sp)), ..st }
    } else {
        MdState { lines: st.lines.push(seq![sp]), ..st }
    }
}

/// Text added in the current style; empty text adds nothing.
pub open spec fn with_text(st: MdState, t: Seq<char>) -> MdState {
    if t.len() == 0 {
        st
    } else {
        with_span(st, SpanView { text: t, style: current_style(st) })
    }
}

/// A new line, starting with the quote marks of the quotes open.
pub open spec fn with_new_line(st: MdState) -> MdState {
    let s1 = MdState { lines: st.lines.push(Seq::<SpanView>::empty()), ..st };
    if st.quote_depth > 0 {
        with_text(s1, repeated("| "@, st.quote_depth))
    } else {
        s1
    }
}

/// A new line unless the last one is empty already.
pub open spec fn with_blank_line(st: MdState) -> MdState {
    if st.lines.len() > 0 && st.lines.last().len() > 0 {
        with_new_line(st)
    } else {
        st
    }
}

/// A style opened on top of the current one.
pub open spec fn with_style(st: MdState, s: SpanStyle) -> MdState {
    MdState { styles: st.styles.push(patched(current_style(st), s)), ..st }
}

/// The innermost style closed; the outermost one stays.
pub open spec fn without_style(st: MdState) -> MdState {
    if st.styles.len() > 1 {
        MdState { styles: st.styles.drop_last(), ..st }
    } else {
        st
    }
}

/// The layout after the start of an element.
pub open spec fn md_start_tag(st: MdState, tag: MdTagView) -> MdState {
    match tag {
        MdTagView::Heading(l) => {
            let s1 = with_blank_line(st);
            MdState { styles: s1.styles.push(heading_style(l)), ..s1 }
        },
        MdTagView::Emphasis => with_style(st, SpanStyle { italic: true, ..plain_style() }),
        MdTagView::Strong => with_style(st, SpanStyle { bold: true, ..plain_style() }),
        MdTagView::Strikethrough => with_style(st, SpanStyle { crossed_out: true, ..plain_style() }),
        MdTagView::BlockQuote => {
            let s1 = MdState { quote_depth: st.quote_depth + 1, ..st };
            let s2 = with_new_line(s1);
            with_text(s2, repeated("| "@, s1.quote_depth))
        },
        MdTagView::List => with_new_line(MdState { list_depth: st.list_depth + 1, ..st }),
        MdTagView::Item => {
            let s1 = with_new_line(st);
            let indent = if st.list_depth > 0 { (st.list_depth - 1) as nat } else { 0 };
            with_text(s1, repeated("  "@, indent) + "- "@)
        },
        MdTagView::CodeBlock => with_style(
            with_new_line(MdState { in_code: true, ..st }),
            SpanStyle { fg: Some(green_color()), bg: Some(code_bg_color()), ..plain_style() },
        ),
        MdTagView::Link(url) => {
            let s1 = MdState { links: st.links.push(url), active_link: Some(st.links.len() + 1), ..st };
            with_style(s1, SpanStyle { fg: Some(cyan_color()), underlined: true, ..plain_style() })
        },
        MdTagView::Paragraph => with_blank_line(st),
        MdTagView::Other => st,
    }
}

/// The layout after the end of an element.
pub open spec fn md_end_tag(st: MdState, tag: MdTagEnd) -> MdState {
    match tag {
        MdTagEnd::Heading => with_new_line(without_style(st)),
        MdTagEnd::Emphasis | MdTagEnd::Strong | MdTagEnd::Strikethrough => without_style(st),
        MdTagEnd::BlockQuote => with_new_line(
            MdState { quote_depth: if st.quote_depth > 0 { (st.quote_depth - 1) as nat } else { 0 }, ..st },
        ),
        MdTagEnd::List => with_new_line(
            MdState { list_depth: if st.list_depth > 0 { (st.list_depth - 1) as nat } else { 0 }, ..st },
        ),
        MdTagEnd::CodeBlock => with_new_line(without_style(MdState { in_code: false, ..st })),
        MdTagEnd::Link => {
            let s1 = MdState { active_link: None, ..without_style(st) };
            match st.active_link {
                Some(n) => with_span(
                    s1,
                    SpanView { text: "["@ + text::nat_text(n) + "]"@, style: fg_style(cyan_color()) },
                ),
                None => s1,
            }
        },
        MdTagEnd::Paragraph => with_new_line(st),
        MdTagEnd::Item | MdTagEnd::Other => st,
    }
}

/// The rule drawn for a horizontal rule.
pub open spec fn rule_text() -> Seq<char> {
    repeated("-"@, 40)
}

/// The layout after one event.
pub open spec fn md_step(st: MdState, e: MdEventView) -> MdState {
    match e {
        MdEventView::Start(t) => md_start_tag(st, t),
        MdEventView::End(t) => md_end_tag(st, t),
        MdEventView::Text(t) => with_text(st, t),
        MdEventView::Code(t) => with_span(
            st,
            SpanView { text: t, style: SpanStyle { fg: Some(cyan_color()), bg: Some(code_bg_color()), ..plain_style() } },
        ),
        MdEventView::SoftBreak | MdEventView::HardBreak => with_new_line(st),
        MdEventView::Rule => with_new_line(
            with_span(with_new_line(st), SpanView { text: rule_text(), style: fg_style(muted_color()) }),
        ),
        MdEventView::TaskListMarker(checked) => with_text(st, if checked { "[x] "@ } else { "[ ] "@ }),
        MdEventView::Other => st,
    }
}

/// The layout after the given events.
pub open spec fn md_run(es: Seq<MdEventView>) -> MdState
    decreases es.len(),
{
    if es.len() == 0 {
        md_start()
    } else {
        md_step(md_run(es.drop_last()), es.last())
    }
}

/// The lines without their empty last lines (one line always stays).
pub open spec fn trimmed_lines(lines: Seq<Seq<SpanView>>) -> Seq<Seq<SpanView>>
    decreases lines.len(),
{
    if lines.len() > 1 && lines.last().len() == 0 {
        trimmed_lines(lines.drop_last())
    } else {
        lines
    }
}

/// The views of a line's spans.
pub open spec fn span_views(l: Seq<StyledSpan>) -> Seq<SpanView> {
    l.map_values(|s: StyledSpan| s@)
}

/// The views of lines of spans.
pub open spec fn line_views(ls: Seq<Vec<StyledSpan>>) -> Seq<Seq<SpanView>> {
    ls.map_values(|l: Vec<StyledSpan>| span_views(l@))
}

/// The views of events.
pub open spec fn event_views(es: Seq<MdEvent>) -> Seq<MdEventView> {
    es.map_values(|e: MdEvent| e@)
}


/// The layout bounds: every count grows by at most one per event.
pub proof fn lemma_md_bounds(es: Seq<MdEventView>)
    ensures
        md_run(es).quote_depth <= es.len(),
        md_run(es).list_depth <= es.len(),
        md_run(es).links.len() <= es.len(),
        md_run(es).lines.len() >= 1,
        md_run(es).styles.len() >= 1,
    decreases es.len(),
{
    if es.len() > 0 {
        lemma_md_bounds(es.drop_last());
    }
}

/// The address an event links to, when it starts a link.
pub open spec fn link_of(e: MdEventView) -> Option<Seq<char>> {
    match e {
        MdEventView::Start(MdTagView::Link(url)) => Some(url),
        _ => None,
    }
}

/// The links of laid-out markdown are the addresses of its links, in the
/// order they start, each once.
pub proof fn lemma_links_in_order(es: Seq<MdEventView>)
    ensures
        md_run(es).links == es.filter_map(|e: MdEventView| link_of(e)),
    decreases es.len(),
{
    if es.len() > 0 {
        lemma_md_links_step(md_run(es.drop_last()), es.last());
        lemma_links_in_order(es.drop_last());
        let f = |e: MdEventView| link_of(e);
        match link_of(es.last()) {
            Some(u) => {
                assert(md_run(es).links =~= es.filter_map(f));
            },
            None => {},
        }
    }
}

/// Each link is labelled with its own position in the links list: while a
/// link is open its number is the count of links started so far, that is
/// the 1-based position of its address among the laid-out links.
pub proof fn lemma_open_link_numbers_its_address(es: Seq<MdEventView>)
    ensures
        md_run(es).active_link matches Some(n) ==> {
            &&& 1 <= n
            &&& n == es.filter_map(|e: MdEventView| link_of(e)).len()
            &&& md_run(es).links[n - 1] == es.filter_map(|e: MdEventView| link_of(e)).last()
        },
    decreases es.len(),
{
    lemma_links_in_order(es);
    lemma_active_link_is_last(es);
}

/// The label written when a link ends is `[n]`, with `n` the number of
/// links started before it: the position of its address among the links.
pub proof fn lemma_link_label_is_its_position(es: Seq<MdEventView>)
    requires
        md_run(es).active_link is Some,
    ensures
        md_run(es.push(MdEventView::End(MdTagEnd::Link))).lines.last().last().text == "["@ + text::nat_text(
            es.filter_map(|e: MdEventView| link_of(e)).len(),
        ) + "]"@,
        md_run(es.push(MdEventView::End(MdTagEnd::Link))).links == es.filter_map(|e: MdEventView| link_of(e)),
{
    let es2 = es.push(MdEventView::End(MdTagEnd::Link));
    assert(es2.drop_last() =~= es);
    lemma_open_link_numbers_its_address(es);
    lemma_md_bounds(es);
    lemma_links_in_order(es);
}

proof fn lemma_active_link_is_last(es: Seq<MdEventView>)
    ensures
        md_run(es).active_link matches Some(n) ==> 1 <= n && n == md_run(es).links.len(),
    decreases es.len(),
{
    if es.len() > 0 {
        lemma_active_link_is_last(es.drop_last());
        lemma_md_active_step(md_run(es.drop_last()), es.last());
    }
}

proof fn lemma_md_active_step(st: MdState, e: MdEventView)
    requires
        st.active_link matches Some(n) ==> 1 <= n && n == st.links.len(),
    ensures
        md_step(st, e).active_link matches Some(n) ==> 1 <= n && n == md_step(st, e).links.len(),
{
}

proof fn lemma_md_links_step(st: MdState, e: MdEventView)
    ensures
        md_step(st, e).links == match link_of(e) {
            Some(u) => st.links.push(u),
            None => st.links,
        },
{
}

// ---------------------------------------------------------------------------
// The layout, executed
// ---------------------------------------------------------------------------

/// The layout in progress.
struct RenderState {
    lines: Vec<Vec<StyledSpan>>,
    styles: Vec<SpanStyle>,
    links: Vec<String>,
    active_link: Option<usize>,
    list_depth: usize,
    quote_depth: usize,
    in_code: bool,
}

/// An optional link number as a natural number.
spec fn opt_nat(o: Option<usize>) -> Option<nat> {
    match o {
        Some(n) => Some(n as nat),
        None => None,
    }
}

impl RenderState {
    spec fn model(&self) -> MdState {
        MdState {
            lines: line_views(self.lines@),
            styles: self.styles@,
            links: text::string_views(self.links@),
            active_link: opt_nat(self.active_link),
            list_depth: self.list_depth as nat,
            quote_depth: self.quote_depth as nat,
            in_code: self.in_code,
        }
    }

    fn new() -> (r: Self)
        ensures
            r.model() == md_start(),
    {
        let mut lines: Vec<Vec<StyledSpan>> = Vec::new();
        lines.push(Vec::new());
        let mut styles: Vec<SpanStyle> = Vec::new();
        styles.push(plain());
        let r = RenderState { lines, styles, links: Vec::new(), active_link: None, list_depth: 0, quote_depth: 0, in_code: false };
        assert(span_views(r.lines@[0]@) =~= Seq::<SpanView>::empty());
        assert(r.model().lines =~= md_start().lines);
        assert(r.model().styles =~= md_start().styles);
        assert(r.model().links =~= md_start().links);
        r
    }

    fn current(&self) -> (r: SpanStyle)
        ensures
            r == current_style(self.model()),
    {
        if self.styles.len() > 0 {
            self.styles[self.styles.len() - 1]
        } else {
            plain()
        }
    }

    fn push_span(&mut self, sp: StyledSpan)
        ensures
            final(self).model() == with_span(old(self).model(), sp@),
    {
        let ghost before = self.model();
        match self.lines.pop() {
            Some(mut line) => {
                let ghost lv = line@;
                line.push(sp);
                self.lines.push(line);
                proof {
                    assert(span_views(line@) =~= span_views(lv).push(sp@));
                    assert(line_views(self.lines@) =~= before.lines.update(before.lines.len() - 1, before.lines.last().push(sp@)));
                }
            },
            None => {
                let mut line: Vec<StyledSpan> = Vec::new();
                line.push(sp);
                self.lines.push(line);
                proof {
                    assert(span_views(line@) =~= seq![sp@]);
                    assert(line_views(self.lines@) =~= before.lines.push(seq![sp@]));
                }
            },
        }
    }

    fn push_text(&mut self, t: &[char])
        ensures
            final(self).model() == with_text(old(self).model(), t@),
    {
        if t.len() == 0 {
            return;
        }
        let style = self.current();
        self.push_span(StyledSpan { text: string_of(t), style });
    }

    fn new_line(&mut self)
        ensures
            final(self).model() == with_new_line(old(self).model()),
    {
        let ghost before = self.model();
        self.lines.push(Vec::new());
        proof {
            assert(span_views(Seq::<StyledSpan>::empty()) =~= Seq::<SpanView>::empty());
            assert(line_views(self.lines@) =~= before.lines.push(Seq::<SpanView>::empty()));
        }
        if self.quote_depth > 0 {
            let marks = repeat_chars("| ", self.quote_depth);
            self.push_text(marks.as_slice());
        }
    }

    fn ensure_blank_line(&mut self)
        ensures
            final(self).model() == with_blank_line(old(self).model()),
    {
        let n = self.lines.len();
        if n > 0 && self.lines[n - 1].len() > 0 {
            self.new_line();
        }
    }

    fn push_style(&mut self, s: SpanStyle)
        ensures
            final(self).model() == with_style(old(self).model(), s),
    {
        let merged = patch(self.current(), s);
        self.styles.push(merged);
    }

    fn pop_style(&mut self)
        ensures
            final(self).model() == without_style(old(self).model()),
    {
        if self.styles.len() > 1 {
            let _ = self.styles.pop();
        }
    }

    fn start_tag(&mut self, tag: &MdTag)
        requires
            old(self).quote_depth < usize::MAX,
            old(self).list_depth < usize::MAX,
            old(self).links.len() < usize::MAX,
        ensures
            final(self).model() == md_start_tag(old(self).model(), tag@),
    {
        match tag {
            MdTag::Heading(l) => {
                self.ensure_blank_line();
                self.styles.push(heading(*l));
            },
            MdTag::Emphasis => self.push_style(SpanStyle { italic: true, ..plain() }),
            MdTag::Strong => self.push_style(SpanStyle { bold: true, ..plain() }),
            MdTag::Strikethrough => self.push_style(SpanStyle { crossed_out: true, ..plain() }),
            MdTag::BlockQuote => {
                self.quote_depth = self.quote_depth + 1;
                self.new_line();
                let marks = repeat_chars("| ", self.quote_depth);
                self.push_text(marks.as_slice());
            },
            MdTag::List => {
                self.list_depth = self.list_depth + 1;
                self.new_line();
            },
            MdTag::Item => {
                let indent = if self.list_depth > 0 { self.list_depth - 1 } else { 0 };
                self.new_line();
                let mut marker = repeat_chars("  ", indent);
                let dash = chars_of("- ");
                append_chars(&mut marker, dash.as_slice());
                self.push_text(marker.as_slice());
            },
            MdTag::CodeBlock => {
                self.in_code = true;
                self.new_line();
                self.push_style(SpanStyle { fg: Some(green()), bg: Some(code_bg()), ..plain() });
            },
            MdTag::Link(url) => {
                self.links.push(url.clone());
                self.active_link = Some(self.links.len());
                proof {
                    assert(text::string_views(self.links@) =~= old(self).model().links.push(url@));
                }
                self.push_style(SpanStyle { fg: Some(cyan()), underlined: true, ..plain() });
            },
            MdTag::Paragraph => self.ensure_blank_line(),
            MdTag::Other => {},
        }
    }

    fn end_tag(&mut self, tag: MdTagEnd)
        ensures
            final(self).model() == md_end_tag(old(self).model(), tag),
    {
        match tag {
            MdTagEnd::Heading => {
                self.pop_style();
                self.new_line();
            },
            MdTagEnd::Emphasis | MdTagEnd::Strong | MdTagEnd::Strikethrough => self.pop_style(),
            MdTagEnd::BlockQuote => {
                if self.quote_depth > 0 {
                    self.quote_depth = self.quote_depth - 1;
                }
                self.new_line();
            },
            MdTagEnd::List => {
                if self.list_depth > 0 {
                    self.list_depth = self.list_depth - 1;
                }
                self.new_line();
            },
            MdTagEnd::CodeBlock => {
                self.in_code = false;
                self.pop_style();
                self.new_line();
            },
            MdTagEnd::Link => {
                self.pop_style();
                let active = self.active_link;
                self.active_link = None;
                if let Some(n) = active {
                    let mut t = chars_of("[");
                    let digits = u64_text(n as u64);
                    append_chars(&mut t, digits.as_slice());
                    let close = chars_of("]");
                    append_chars(&mut t, close.as_slice());
                    self.push_span(StyledSpan { text: string_of(t.as_slice()), style: SpanStyle { fg: Some(cyan()), ..plain() } });
                }
            },
            MdTagEnd::Paragraph => self.new_line(),
            MdTagEnd::Item | MdTagEnd::Other => {},
        }
    }

    fn handle(&mut self, e: &MdEvent)
        requires
            old(self).quote_depth < usize::MAX,
            old(self).list_depth < usize::MAX,
            old(self).links.len() < usize::MAX,
        ensures
            final(self).model() == md_step(old(self).model(), e@),
    {
        match e {
            MdEvent::Start(t) => self.start_tag(t),
            MdEvent::End(t) => self.end_tag(*t),
            MdEvent::Text(t) => {
                let cs = chars_of(t.as_str());
                self.push_text(cs.as_slice());
            },
            MdEvent::Code(t) => {
                self.push_span(StyledSpan { text: t.clone(), style: SpanStyle { fg: Some(cyan()), bg: Some(code_bg()), ..plain() } });
            },
            MdEvent::SoftBreak | MdEvent::HardBreak => self.new_line(),
            MdEvent::Rule => {
                self.new_line();
                let dashes = repeat_chars("-", 40);
                self.push_span(StyledSpan { text: string_of(dashes.as_slice()), style: SpanStyle { fg: Some(muted()), ..plain() } });
                self.new_line();
            },
            MdEvent::TaskListMarker(checked) => {
                let marker = if *checked { chars_of("[x] ") } else { chars_of("[ ] ") };
                self.push_text(marker.as_slice());
            },
            MdEvent::Other => {},
        }
    }
}

/// `s` written `n` times.
fn repeat_chars(s: &str, n: usize) -> (r: Vec<char>)
    ensures
        r@ == repeated(s@, n as nat),
{
    let cs = chars_of(s);
    let mut out: Vec<char> = Vec::new();
    let mut i: usize = 0;
    while i < n
        invariant
            i <= n,
            cs@ == s@,
            out@ == repeated(s@, i as nat),
        decreases n - i,
    {
        append_chars(&mut out, cs.as_slice());
        i = i + 1;
    }
    out
}

fn plain() -> (r: SpanStyle)
    ensures
        r == plain_style(),
{
    SpanStyle { fg: None, bg: None, bold: false, italic: false, crossed_out: false, underlined: false }
}

fn patch(base: SpanStyle, over: SpanStyle) -> (r: SpanStyle)
    ensures
        r == patched(base, over),
{
    SpanStyle {
        fg: if over.fg.is_some() { over.fg } else { base.fg },
        bg: if over.bg.is_some() { over.bg } else { base.bg },
        bold: base.bold || over.bold,
        italic: base.italic || over.italic,
        crossed_out: base.crossed_out || over.crossed_out,
        underlined: base.underlined || over.underlined,
    }
}

fn heading(level: u8) -> (r: SpanStyle)
    ensures
        r == heading_style(level),
{
    let c = if level == 1 {
        Rgb { r: 212, g: 171, b: 255 }
    } else if level == 2 {
        Rgb { r: 171, g: 229, b: 179 }
    } else if level == 3 {
        cyan()
    } else {
        Rgb { r: 226, g: 231, b: 238 }
    };
    SpanStyle { fg: Some(c), bold: true, ..plain() }
}

fn cyan() -> (r: Rgb)
    ensures
        r == cyan_color(),
{
    Rgb { r: 180, g: 223, b: 164 }
}

fn green() -> (r: Rgb)
    ensures
        r == green_color(),
{
    Rgb { r: 129, g: 199, b: 132 }
}

fn code_bg() -> (r: Rgb)
    ensures
        r == code_bg_color(),
{
    Rgb { r: 20, g: 26, b: 34 }
}

fn muted() -> (r: Rgb)
    ensures
        r == muted_color(),
{
    Rgb { r: 119, g: 131, b: 149 }
}

/// Lays out parsed markdown: the lines of styled spans (without trailing
/// empty lines, one line always staying) and the links' addresses, each
/// link followed in the text by its number in brackets.
pub fn render_events(events: &[MdEvent]) -> (r: RenderedMarkdown)
    ensures
        line_views(r.lines@) == trimmed_lines(md_run(event_views(events@)).lines),
        text::string_views(r.links@) == md_run(event_views(events@)).links,
{
    let ghost ev = event_views(events@);
    let mut st = RenderState::new();
    let mut i: usize = 0;
    while i < events.len()
        invariant
            i <= events.len(),
            ev == event_views(events@),
            st.model() == md_run(ev.take(i as int)),
        decreases events.len() - i,
    {
        proof {
            lemma_md_bounds(ev.take(i as int));
            assert(ev.take(i + 1).drop_last() =~= ev.take(i as int));
            assert(ev.take(i + 1).last() == events@[i as int]@);
        }
        st.handle(&events[i]);
        i = i + 1;
    }
    proof {
        assert(ev.take(events.len() as int) =~= ev);
    }
    let RenderState { mut lines, links, .. } = st;
    loop
        invariant
            trimmed_lines(line_views(lines@)) == trimmed_lines(md_run(ev).lines),
        ensures
            line_views(lines@) == trimmed_lines(md_run(ev).lines),
        decreases lines.len(),
    {
        let n = lines.len();
        if n > 1 && lines[n - 1].len() == 0 {
            let ghost before = line_views(lines@);
            proof {
                assert(before.last() == span_views(lines@[n - 1]@));
                assert(before.last().len() == 0);
            }
            let _ = lines.pop();
            proof {
                assert(line_views(lines@) =~= before.drop_last());
            }
        } else {
            break;
        }
    }
    RenderedMarkdown { lines, links }
}

// ---------------------------------------------------------------------------
// Parsing markdown text into events
// ---------------------------------------------------------------------------

/// The parser options the layout asks for: tables, footnotes,
/// strikethrough and task lists.
pub const MARKDOWN_OPTIONS: u32 = 30;

/// An event without the element it starts or ends.
#[derive(Debug, Clone, PartialEq, Eq)]
pub enum MdHead {
    Start,
    End,
    Text(String),
    Code(String),
    SoftBreak,
    HardBreak,
    Rule,
    TaskListMarker(bool),
    Other,
}

/// The model of an event head.
pub enum MdHeadView {
    Start,
    End,
    Text(Seq<char>),
    Code(Seq<char>),
    SoftBreak,
    HardBreak,
    Rule,
    TaskListMarker(bool),
    Other,
}

impl View for MdHead {
    type V = MdHeadView;

    open spec fn view(&self) -> MdHeadView {
        match self {
            MdHead::Start => MdHeadView::Start,
            MdHead::End => MdHeadView::End,
            MdHead::Text(t) => MdHeadView::Text(t@),
            MdHead::Code(t) => MdHeadView::Code(t@),
            MdHead::SoftBreak => MdHeadView::SoftBreak,
            MdHead::HardBreak => MdHeadView::HardBreak,
            MdHead::Rule => MdHeadView::Rule,
            MdHead::TaskListMarker(c) => MdHeadView::TaskListMarker(*c),
            MdHead::Other => MdHeadView::Other,
        }
    }
}

/// How many events the parser gives for `input` with option bits `bits`.
pub uninterp spec fn markdown_event_count(input: Seq<char>, bits: u32) -> nat;

/// The head of the `i`-th event the parser gives, if there is one.
pub uninterp spec fn markdown_head(input: Seq<char>, bits: u32, i: int) -> Option<MdHeadView>;

/// The element the `i`-th event starts, if it starts one.
pub uninterp spec fn markdown_start_tag(input: Seq<char>, bits: u32, i: int) -> Option<MdTagView>;

/// The element the `i`-th event ends, if it ends one.
pub uninterp spec fn markdown_end_tag(input: Seq<char>, bits: u32, i: int) -> Option<MdTagEnd>;

/// `pulldown_cmark::Parser::new_ext(input, options).count()`: how many
/// events the parser gives. The value is named, not stated.
#[verifier::external_body]
fn event_count(input: &str, bits: u32) -> (r: usize)
    ensures
        r == markdown_event_count(input@, bits),
{
    Parser::new_ext(input, Options::from_bits_truncate(bits)).count()
}

/// `pulldown_cmark::Parser::new_ext(input, options).nth(i)`, told apart by
/// variant: text and code with their text, a task marker with its check,
/// and the kinds the layout reads; the value is named, not stated.
#[verifier::external_body]
fn event_head_at(input: &str, bits: u32, i: usize) -> (r: Option<MdHead>)
    ensures
        match r {
            Some(h) => markdown_head(input@, bits, i as int) == Some(h@),
            None => markdown_head(input@, bits, i as int) is None,
        },
{
    Parser::new_ext(input, Options::from_bits_truncate(bits)).nth(i).map(|e| match e {
        Ev::Start(_) => MdHead::Start,
        Ev::End(_) => MdHead::End,
        Ev::Text(t) => MdHead::Text(t.to_string()),
        Ev::Code(t) => MdHead::Code(t.to_string()),
        Ev::SoftBreak => MdHead::SoftBreak,
        Ev::HardBreak => MdHead::HardBreak,
        Ev::Rule => MdHead::Rule,
        Ev::TaskListMarker(c) => MdHead::TaskListMarker(c),
        _ => MdHead::Other,
    })
}

/// `pulldown_cmark::Parser::new_ext(input, options).nth(i)` when it is a
/// start event: the element it starts, told apart by variant (a heading
/// with its level, a link with its address); the value is named, not stated.
#[verifier::external_body]
fn start_tag_at(input: &str, bits: u32, i: usize) -> (r: Option<MdTag>)
    ensures
        match r {
            Some(t) => markdown_start_tag(input@, bits, i as int) == Some(t@),
            None => markdown_start_tag(input@, bits, i as int) is None,
        },
{
    match Parser::new_ext(input, Options::from_bits_truncate(bits)).nth(i) {
        Some(Ev::Start(t)) => Some(match t {
            Tg::Heading { level, .. } => MdTag::Heading(level as u8),
            Tg::Emphasis => MdTag::Emphasis, Tg::Strong => MdTag::Strong,
            Tg::Strikethrough => MdTag::Strikethrough, Tg::BlockQuote(_) => MdTag::BlockQuote,
            Tg::List(_) => MdTag::List, Tg::Item => MdTag::Item, Tg::CodeBlock(_) => MdTag::CodeBlock,
            Tg::Link { dest_url, .. } => MdTag::Link(dest_url.to_string()),
            Tg::Paragraph => MdTag::Paragraph, _ => MdTag::Other,
        }),
        _ => None,
    }
}

/// `pulldown_cmark::Parser::new_ext(input, options).nth(i)` when it is an
/// end event: the element it ends, told apart by variant; the value is
/// named, not stated.
#[verifier::external_body]
fn end_tag_at(input: &str, bits: u32, i: usize) -> (r: Option<MdTagEnd>)
    ensures
        r == markdown_end_tag(input@, bits, i as int),
{
    match Parser::new_ext(input, Options::from_bits_truncate(bits)).nth(i) {
        Some(Ev::End(t)) => Some(match t {
            Te::Heading(_) => MdTagEnd::Heading, Te::Emphasis => MdTagEnd::Emphasis,
            Te::Strong => MdTagEnd::Strong, Te::Strikethrough => MdTagEnd::Strikethrough,
            Te::BlockQuote(_) => MdTagEnd::BlockQuote, Te::List(_) => MdTagEnd::List,
            Te::Item => MdTagEnd::Item, Te::CodeBlock => MdTagEnd::CodeBlock, Te::Link => MdTagEnd::Link,
            Te::Paragraph => MdTagEnd::Paragraph, _ => MdTagEnd::Other,
        }),
        _ => None,
    }
}

/// The `i`-th event of parsed markdown, put together from its head and the
/// element it starts or ends (an unknown element when none is given).
pub open spec fn markdown_event(input: Seq<char>, i: int) -> MdEventView {
    let b = MARKDOWN_OPTIONS;
    match markdown_head(input, b, i) {
        Some(MdHeadView::Start) => MdEventView::Start(
            match markdown_start_tag(input, b, i) {
                Some(t) => t,
                None => MdTagView::Other,
            },
        ),
        Some(MdHeadView::End) => MdEventView::End(
            match markdown_end_tag(input, b, i) {
                Some(t) => t,
                None => MdTagEnd::Other,
            },
        ),
        Some(MdHeadView::Text(t)) => MdEventView::Text(t),
        Some(MdHeadView::Code(t)) => MdEventView::Code(t),
        Some(MdHeadView::SoftBreak) => MdEventView::SoftBreak,
        Some(MdHeadView::HardBreak) => MdEventView::HardBreak,
        Some(MdHeadView::Rule) => MdEventView::Rule,
        Some(MdHeadView::TaskListMarker(c)) => MdEventView::TaskListMarker(c),
        _ => MdEventView::Other,
    }
}

/// The events of markdown text, in order.
pub open spec fn markdown_events(input: Seq<char>) -> Seq<MdEventView> {
    Seq::new(markdown_event_count(input, MARKDOWN_OPTIONS), |i: int| markdown_event(input, i))
}

/// The events of markdown text, in order.
pub fn parse_markdown(input: &str) -> (r: Vec<MdEvent>)
    ensures
        event_views(r@) == markdown_events(input@),
{
    let n = event_count(input, MARKDOWN_OPTIONS);
    let mut out: Vec<MdEvent> = Vec::new();
    let mut i: usize = 0;
    while i < n
        invariant
            i <= n,
            n == markdown_event_count(input@, MARKDOWN_OPTIONS),
            out.len() == i,
            forall|k: int| 0 <= k < i ==> (#[trigger] out@[k])@ == markdown_event(input@, k),
        decreases n - i,
    {
        let e = match event_head_at(input, MARKDOWN_OPTIONS, i) {
            Some(MdHead::Start) => match start_tag_at(input, MARKDOWN_OPTIONS, i) {
                Some(t) => MdEvent::Start(t),
                None => MdEvent::Start(MdTag::Other),
            },
            Some(MdHead::End) => match end_tag_at(input, MARKDOWN_OPTIONS, i) {
                Some(t) => MdEvent::End(t),
                None => MdEvent::End(MdTagEnd::Other),
            },
            Some(MdHead::Text(t)) => MdEvent::Text(t),
            Some(MdHead::Code(t)) => MdEvent::Code(t),
            Some(MdHead::SoftBreak) => MdEvent::SoftBreak,
            Some(MdHead::HardBreak) => MdEvent::HardBreak,
            Some(MdHead::Rule) => MdEvent::Rule,
            Some(MdHead::TaskListMarker(c)) => MdEvent::TaskListMarker(c),
            _ => MdEvent::Other,
        };
        out.push(e);
        i = i + 1;
    }
    assert(event_views(out@) =~= markdown_events(input@));
    out
}

/// Lays out markdown text: its events (see `markdown_events`) as lines of
/// styled spans with numbered links (see `render_events`).
pub fn render(input: &str) -> (r: RenderedMarkdown)
    ensures
        line_views(r.lines@) == trimmed_lines(md_run(markdown_events(input@)).lines),
        text::string_views(r.links@) == md_run(markdown_events(input@)).links,
{
    let events = parse_markdown(input);
    render_events(events.as_slice())
}
} // verus!
