use blippy::markdown::{parse_markdown, render, render_events, MdEvent, MdTag, MdTagEnd, RenderedMarkdown};

fn text(s: &str) -> MdEvent {
    MdEvent::Text(s.to_string())
}

fn lines(r: &RenderedMarkdown) -> Vec<String> {
    r.lines.iter().map(|l| l.iter().map(|s| s.text.clone()).collect::<String>()).collect()
}

#[test]
fn headings_and_list_items_are_laid_out() {
    // "# Title\n\n- one\n- two"
    let events = vec![
        MdEvent::Start(MdTag::Heading(1)),
        text("Title"),
        MdEvent::End(MdTagEnd::Heading),
        MdEvent::Start(MdTag::List),
        MdEvent::Start(MdTag::Item),
        text("one"),
        MdEvent::End(MdTagEnd::Item),
        MdEvent::Start(MdTag::Item),
        text("two"),
        MdEvent::End(MdTagEnd::Item),
        MdEvent::End(MdTagEnd::List),
    ];
    let r = render_events(&events);
    assert_eq!(lines(&r), vec!["Title", "", "", "- one", "- two"]);
    let title = &r.lines[0][0];
    assert!(title.style.bold);
    assert_eq!(title.style.fg.map(|c| (c.r, c.g, c.b)), Some((212, 171, 255)));
}

#[test]
fn links_are_numbered_and_collected() {
    // "See [docs](https://example.com)"
    let events = vec![
        MdEvent::Start(MdTag::Paragraph),
        text("See "),
        MdEvent::Start(MdTag::Link("https://example.com".to_string())),
        text("docs"),
        MdEvent::End(MdTagEnd::Link),
        MdEvent::End(MdTagEnd::Paragraph),
    ];
    let r = render_events(&events);
    assert_eq!(r.links, vec!["https://example.com".to_string()]);
    assert_eq!(lines(&r), vec!["See docs[1]"]);
    assert!(r.lines[0][1].style.underlined);
    assert!(!r.lines[0][2].style.underlined);
}

#[test]
fn quotes_rules_code_and_tasks() {
    let events = vec![
        MdEvent::Start(MdTag::BlockQuote),
        text("q"),
        MdEvent::End(MdTagEnd::BlockQuote),
        MdEvent::Rule,
        MdEvent::TaskListMarker(true),
        MdEvent::Code("x()".to_string()),
        MdEvent::SoftBreak,
        MdEvent::Start(MdTag::Emphasis),
        text("it"),
        MdEvent::End(MdTagEnd::Emphasis),
        text("plain"),
    ];
    let r = render_events(&events);
    assert_eq!(
        lines(&r),
        vec![
            "".to_string(),
            "| | q".to_string(),
            "".to_string(),
            "-".repeat(40),
            "[x] x()".to_string(),
            "itplain".to_string(),
        ]
    );
    let last = &r.lines[5];
    assert!(last[0].style.italic);
    assert!(!last[1].style.italic);
    assert_eq!(last.len(), 2);
}

#[test]
fn nothing_gives_one_empty_line() {
    let r = render_events(&[]);
    assert_eq!(r.lines.len(), 1);
    assert!(r.lines[0].is_empty());
    assert!(r.links.is_empty());
}

#[test]
fn renders_heading_and_list() {
    let markdown = "# Title\n\n- one\n- two";
    let rendered = render(markdown);
    let text = lines(&rendered).join("\n");

    assert!(text.contains("Title"));
    assert!(text.contains("- one"));
    assert!(text.contains("- two"));
}

#[test]
fn captures_link_references() {
    let markdown = "See [docs](https://example.com)";
    let rendered = render(markdown);
    assert_eq!(rendered.links, vec!["https://example.com".to_string()]);
}

#[test]
fn parsed_markdown_gives_the_layout_events() {
    let events = parse_markdown("## Sub *it* `x`\n\n> q\n\n- [x] done\n\n---\n");
    assert_eq!(events[0], MdEvent::Start(MdTag::Heading(2)));
    assert!(events.contains(&MdEvent::Start(MdTag::Emphasis)));
    assert!(events.contains(&MdEvent::Code("x".to_string())));
    assert!(events.contains(&MdEvent::Start(MdTag::BlockQuote)));
    assert!(events.contains(&MdEvent::TaskListMarker(true)));
    assert!(events.contains(&MdEvent::Rule));
    let rendered = render("## Sub *it*");
    assert_eq!(lines(&rendered), vec!["Sub it"]);
    assert!(rendered.lines[0][0].style.bold);
    assert!(rendered.lines[0][1].style.italic);
}
