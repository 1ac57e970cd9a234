use mq_task::errors::ParseError;
use mq_task::parser::{list, parse};

#[test]
fn single_section_with_description_and_code() {
    let doc = "## Build\n\nCompiles the project.\n\n```bash\necho building\n```";
    let sections = parse(doc, 2).unwrap();
    assert_eq!(sections.len(), 1);
    assert_eq!(sections[0].title, "Build");
    assert_eq!(sections[0].description.as_deref(), Some("Compiles the project."));
    assert_eq!(sections[0].codes.len(), 1);
    assert_eq!(sections[0].codes[0].lang, "bash");
    assert_eq!(sections[0].codes[0].body, "echo building\n");
}

#[test]
fn titles_in_document_order() {
    let doc = "# Top\n\n## First\n\ntext\n\n## Second\n\n### Deeper\n\n## Third\n";
    let sections = parse(doc, 2).unwrap();
    let titles: Vec<&str> = sections.iter().map(|s| s.title.as_str()).collect();
    assert_eq!(titles, vec!["First", "Second", "Third"]);
}

#[test]
fn deeper_headings_are_plain_content() {
    let doc = "## Task\n\n### Not a task\n\nmore\n";
    let sections = parse(doc, 2).unwrap();
    assert_eq!(sections.len(), 1);
    assert_eq!(sections[0].title, "Task");
    assert_eq!(
        sections[0].description.as_deref(),
        Some("### Not a task\n\nmore")
    );
}

#[test]
fn heading_inside_fence_is_not_structural() {
    let doc = "## Task\n\n```text\n## Not a heading\n```\n\n## Next\n";
    let sections = parse(doc, 2).unwrap();
    assert_eq!(sections.len(), 2);
    assert_eq!(sections[0].title, "Task");
    assert_eq!(sections[0].codes[0].body, "## Not a heading\n");
    assert_eq!(sections[1].title, "Next");
}

#[test]
fn body_is_byte_exact() {
    let doc = "## T\n```python\n  indented\n\n\ttabbed  \nlast\n```\n";
    let sections = parse(doc, 2).unwrap();
    assert_eq!(sections[0].codes[0].body, "  indented\n\n\ttabbed  \nlast\n");
}

#[test]
fn lang_is_trimmed_and_lowercased() {
    let doc = "## T\n``` BASH \nx\n```\n";
    let sections = parse(doc, 2).unwrap();
    assert_eq!(sections[0].codes[0].lang, "bash");
}

#[test]
fn empty_document_yields_no_sections() {
    let sections = parse("", 2).unwrap();
    assert!(sections.is_empty());
}

#[test]
fn no_matching_heading_yields_empty_not_error() {
    let doc = "# Only level one\n\nsome text\n\n### and level three\n";
    let sections = parse(doc, 2).unwrap();
    assert!(sections.is_empty());
    let listed = list(&sections);
    assert!(listed.is_empty());
}

#[test]
fn section_without_codes_is_legal() {
    let doc = "## Notes\n\nJust a description.\n";
    let sections = parse(doc, 2).unwrap();
    assert_eq!(sections.len(), 1);
    assert!(sections[0].codes.is_empty());
    assert_eq!(sections[0].description.as_deref(), Some("Just a description."));
}

#[test]
fn description_is_none_when_blank() {
    let doc = "## Bare\n\n\n```sh\nx\n```\n";
    let sections = parse(doc, 2).unwrap();
    assert_eq!(sections[0].description, None);
}

#[test]
fn description_stops_at_first_fence() {
    let doc = "## T\nbefore\n```sh\nx\n```\nafter\n";
    let sections = parse(doc, 2).unwrap();
    assert_eq!(sections[0].description.as_deref(), Some("before"));
    assert_eq!(sections[0].codes.len(), 1);
}

#[test]
fn duplicate_titles_are_all_listed() {
    let doc = "## Same\na\n\n## Same\nb\n";
    let sections = parse(doc, 2).unwrap();
    assert_eq!(sections.len(), 2);
    assert_eq!(sections[0].title, "Same");
    assert_eq!(sections[1].title, "Same");
    assert_eq!(sections[0].description.as_deref(), Some("a"));
    assert_eq!(sections[1].description.as_deref(), Some("b"));
}

#[test]
fn multiple_codes_keep_source_order() {
    let doc = "## T\n```sh\nfirst\n```\n```python\nsecond\n```\n```sh\nthird\n```\n";
    let sections = parse(doc, 2).unwrap();
    let bodies: Vec<&str> = sections[0].codes.iter().map(|c| c.body.as_str()).collect();
    assert_eq!(bodies, vec!["first\n", "second\n", "third\n"]);
    let langs: Vec<&str> = sections[0].codes.iter().map(|c| c.lang.as_str()).collect();
    assert_eq!(langs, vec!["sh", "python", "sh"]);
}

#[test]
fn level_one_headings_parse_at_depth_one() {
    let doc = "# Alpha\n\n```sh\na\n```\n# Beta\n";
    let sections = parse(doc, 1).unwrap();
    assert_eq!(sections.len(), 2);
    assert_eq!(sections[0].title, "Alpha");
    assert_eq!(sections[1].title, "Beta");
}

#[test]
fn invalid_heading_level_is_rejected() {
    assert_eq!(parse("## X\n", 0), Err(ParseError::InvalidHeadingLevel(0)));
    assert_eq!(parse("## X\n", 7), Err(ParseError::InvalidHeadingLevel(7)));
}

#[test]
fn unterminated_fence_is_an_error() {
    let doc = "## T\n```sh\necho never closed\n";
    assert_eq!(parse(doc, 2), Err(ParseError::UnterminatedFence));
}

#[test]
fn empty_fence_body() {
    let doc = "## T\n```sh\n```\n";
    let sections = parse(doc, 2).unwrap();
    assert_eq!(sections[0].codes[0].body, "");
}

#[test]
fn content_before_first_heading_is_ignored() {
    let doc = "stray text\n```sh\nstray code\n```\n## Real\n```sh\nkept\n```\n";
    let sections = parse(doc, 2).unwrap();
    assert_eq!(sections.len(), 1);
    assert_eq!(sections[0].title, "Real");
    assert_eq!(sections[0].codes.len(), 1);
    assert_eq!(sections[0].codes[0].body, "kept\n");
}
