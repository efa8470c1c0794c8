// Comment recognition: the happy path and the unterminated fatal case.

use rustle::diag::ErrorCode;
use rustle::document::parse;
use rustle::node::NodeKind;
use rustle::parser::Parser;
use rustle::tag::tag;

#[test]
fn comment_becomes_one_leaf_with_raw_text() {
    let p = parse("<!-- note -->").unwrap();
    // exactly one Comment node, appended to the root
    assert_eq!(p.nodes.len(), 2);
    assert_eq!(p.nodes[0].children, vec![1]);
    assert_eq!(p.nodes[1].kind, NodeKind::Comment);
    let data: String = p.nodes[1].data.iter().collect();
    assert_eq!(data, " note ");
    assert!(p.nodes[1].ignores.is_empty());
    assert!(p.nodes[1].children.is_empty());
    // the node spans the raw text between the delimiters
    assert_eq!(p.nodes[1].start, 4);
    assert_eq!(p.nodes[1].end, Some(10));
    assert_eq!(p.diagnostics.len(), 0);
}

#[test]
fn comment_between_tags_hangs_off_current_parent() {
    let p = parse("<div><!--x--></div>").unwrap();
    assert_eq!(p.nodes.len(), 3);
    // the comment is a child of the div, not of the root
    assert_eq!(p.nodes[1].kind, NodeKind::Element);
    assert_eq!(p.nodes[1].children, vec![2]);
    assert_eq!(p.nodes[2].kind, NodeKind::Comment);
    let data: String = p.nodes[2].data.iter().collect();
    assert_eq!(data, "x");
}

#[test]
fn empty_comment_is_accepted() {
    let p = parse("<!---->").unwrap();
    assert_eq!(p.nodes.len(), 2);
    assert_eq!(p.nodes[1].start, 4);
    assert_eq!(p.nodes[1].end, Some(4));
    assert!(p.nodes[1].data.is_empty());
}

#[test]
fn unterminated_comment_is_fatal() {
    let e = parse("<!-- unterminated").unwrap_err();
    assert_eq!(e.code, ErrorCode::UnclosedComment);
    assert_eq!(e.offset, 0);
}

#[test]
fn unterminated_comment_appends_no_partial_node() {
    let mut p = Parser::new("<!-- x");
    let r = tag(&mut p);
    assert!(r.is_err());
    assert_eq!(r.unwrap_err().code, ErrorCode::UnclosedComment);
    // no partial Comment node was appended
    assert_eq!(p.nodes.len(), 1);
    assert!(p.nodes[0].children.is_empty());
    assert_eq!(p.diagnostics.len(), 0);
}
