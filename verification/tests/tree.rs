// Tree construction: opening, closing, self-closing, classification,
// markers, the round-trip shape, the fatal tag errors, and diagnostics.

use rustle::diag::Diagnostic;
use rustle::diag::ErrorCode;
use rustle::document::parse;
use rustle::node::NodeKind;
use rustle::parser::Parser;
use rustle::tag::parent_is_head;
use rustle::tag::read_tag_name;
use rustle::tag::tag;
use rustle::tag::StateReturn;

#[test]
fn balanced_input_returns_to_root_and_closes_every_node() {
    let p = parse("<div><span>text</span><b/></div><svelte:self />x").unwrap();
    assert_eq!(p.stack, vec![0]);
    assert_eq!(p.diagnostics.len(), 0);
    for k in 1..p.nodes.len() {
        let n = &p.nodes[k];
        let end = n.end.expect("every non-root node is closed");
        assert!(end > n.start);
    }
}

#[test]
fn classification_by_initial_letter() {
    let p = parse("<div></div><Widget/><my-element/>").unwrap();
    assert_eq!(p.nodes[1].kind, NodeKind::Element);
    assert_eq!(p.nodes[2].kind, NodeKind::InlineComponent);
    assert_eq!(p.nodes[3].kind, NodeKind::Element);
}

#[test]
fn markers_reclassify_the_node() {
    let p = parse("<svelte:self/><svelte:component/><svelte:fragment></svelte:fragment><svelte:element/>")
        .unwrap();
    assert_eq!(p.nodes[1].kind, NodeKind::SelfRef);
    assert_eq!(p.nodes[2].kind, NodeKind::ComponentRef);
    assert_eq!(p.nodes[3].kind, NodeKind::Slot);
    assert_eq!(p.nodes[4].kind, NodeKind::DynamicElement);
    let name: String = p.nodes[1].name.iter().collect();
    assert_eq!(name, "svelte:self");
    assert_eq!(p.diagnostics.len(), 0);
}

#[test]
fn meta_tags_get_their_canonical_kinds() {
    let p = parse("<svelte:head></svelte:head>").unwrap();
    assert_eq!(p.nodes[1].kind, NodeKind::Head);
    let p = parse("<svelte:window/>").unwrap();
    assert_eq!(p.nodes[1].kind, NodeKind::Window);
}

#[test]
fn offsets_span_the_whole_element() {
    let p = parse("<div><b>x</b></div>").unwrap();
    assert_eq!(p.nodes[1].start, 0);
    assert_eq!(p.nodes[1].end, Some(19));
    assert_eq!(p.nodes[2].start, 5);
    assert_eq!(p.nodes[2].end, Some(13));
}

#[test]
fn unmatched_closing_tag_is_fatal() {
    let e = parse("<div></span>").unwrap_err();
    assert_eq!(e, Diagnostic { code: ErrorCode::UnmatchedClosingTag, offset: 5 });
}

#[test]
fn missing_tag_name_is_fatal() {
    let e = parse("<1>").unwrap_err();
    assert_eq!(e, Diagnostic { code: ErrorCode::InvalidTagName, offset: 0 });
    let e = parse("< div>").unwrap_err();
    assert_eq!(e.code, ErrorCode::InvalidTagName);
}

#[test]
fn closing_tag_auto_closes_open_descendants() {
    let p = parse("<div><b></div>").unwrap();
    assert_eq!(p.stack, vec![0]);
    // the <b> was auto-closed at the closing tag's start
    assert_eq!(p.nodes[2].end, Some(8));
    assert_eq!(p.nodes[1].end, Some(14));
}

#[test]
fn self_closing_requests_the_text_state() {
    let mut p = Parser::new("<br/><div>");
    assert_eq!(tag(&mut p).unwrap(), StateReturn::ResumeText);
    p.index = 5;
    assert_eq!(tag(&mut p).unwrap(), StateReturn::Fallback);
}

#[test]
fn read_tag_name_takes_the_longest_match() {
    let mut p = Parser::new("svelte:my-element2 rest");
    let name = read_tag_name(&mut p).unwrap();
    let name: String = name.iter().collect();
    assert_eq!(name, "svelte:my-element2");
    assert_eq!(p.index, 18);

    let mut p = Parser::new("!doctype html");
    let name = read_tag_name(&mut p).unwrap();
    let name: String = name.iter().collect();
    assert_eq!(name, "!doctype");

    let mut p = Parser::new(">");
    let e = read_tag_name(&mut p).unwrap_err();
    assert_eq!(e.code, ErrorCode::InvalidTagName);
    assert_eq!(p.index, 0);
}

#[test]
fn parent_is_head_sees_through_non_elements() {
    let mut p = Parser::new("<svelte:head><title>");
    tag(&mut p).unwrap();
    assert!(parent_is_head(&p));
    p.index = 13;
    tag(&mut p).unwrap();
    // the nearest enclosing element is now the <title>
    assert!(!parent_is_head(&p));

    let q = Parser::new("x");
    assert!(!parent_is_head(&q));
}

#[test]
fn closing_tag_without_a_name_is_fatal() {
    let e = parse("<div></").unwrap_err();
    assert_eq!(e, Diagnostic { code: ErrorCode::InvalidTagName, offset: 5 });
}

#[test]
fn closing_meta_tag_with_nothing_open_is_unmatched() {
    let e = parse("</svelte:window>").unwrap_err();
    assert_eq!(e, Diagnostic { code: ErrorCode::UnmatchedClosingTag, offset: 0 });
}

#[test]
fn bang_names_are_ordinary_elements() {
    let p = parse("<!doctype html>x").unwrap();
    assert_eq!(p.nodes[1].kind, NodeKind::Element);
    let name: String = p.nodes[1].name.iter().collect();
    assert_eq!(name, "!doctype");
}

#[test]
fn whitespace_before_the_closing_bracket_is_skipped() {
    let p = parse("<div  ></div \t>").unwrap();
    assert_eq!(p.stack, vec![0]);
    assert_eq!(p.nodes[1].end, Some(15));
    let p = parse("<svelte:self />").unwrap();
    assert_eq!(p.nodes[1].end, Some(15));
    assert_eq!(p.diagnostics.len(), 0);
}

#[test]
fn diagnostics_carry_messages_and_severity() {
    let d = Diagnostic::new(ErrorCode::UnclosedComment, 3);
    assert!(d.code.is_fatal());
    assert!(!d.message().is_empty());
    assert!(!ErrorCode::DuplicateElement.is_fatal());
    assert!(!ErrorCode::InvalidElementContent.is_fatal());
    assert!(!ErrorCode::InvalidElementPlacement.is_fatal());
    assert!(ErrorCode::InvalidTagName.is_fatal());
    assert!(ErrorCode::UnmatchedClosingTag.is_fatal());
}
