// The singleton, placement and content rules of the four meta tags.

use rustle::diag::ErrorCode;
use rustle::document::parse;

#[test]
fn each_meta_tag_once_is_clean() {
    for name in ["svelte:head", "svelte:options", "svelte:window", "svelte:body"] {
        let doc = format!("<{}></{}>", name, name);
        let p = parse(&doc).unwrap();
        assert_eq!(p.diagnostics.len(), 0);
        match name {
            "svelte:head" => assert!(p.meta_tags.head),
            "svelte:options" => assert!(p.meta_tags.options),
            "svelte:window" => assert!(p.meta_tags.window),
            _ => assert!(p.meta_tags.body),
        }
    }
}

#[test]
fn second_occurrence_is_duplicate_at_its_start() {
    for name in ["svelte:head", "svelte:options", "svelte:window", "svelte:body"] {
        let pair = format!("<{}></{}>", name, name);
        let doc = format!("{}{}", pair, pair);
        let p = parse(&doc).unwrap();
        assert_eq!(p.diagnostics.len(), 1);
        assert_eq!(p.diagnostics[0].code, ErrorCode::DuplicateElement);
        // positioned at the second opening tag's start offset
        assert_eq!(p.diagnostics[0].offset, pair.len());
    }
}

#[test]
fn window_with_child_is_invalid_content() {
    let p = parse("<svelte:window><div/></svelte:window>").unwrap();
    assert_eq!(p.diagnostics.len(), 1);
    assert_eq!(p.diagnostics[0].code, ErrorCode::InvalidElementContent);
    // positioned at the <div> start offset
    assert_eq!(p.diagnostics[0].offset, 15);
}

#[test]
fn nested_meta_is_invalid_placement() {
    let p = parse("<div><svelte:options/></div>").unwrap();
    assert_eq!(p.diagnostics.len(), 1);
    assert_eq!(p.diagnostics[0].code, ErrorCode::InvalidElementPlacement);
    assert_eq!(p.diagnostics[0].offset, 5);
}

#[test]
fn nested_closing_meta_is_invalid_placement() {
    let p = parse("<div><svelte:head></svelte:head></div>").unwrap();
    assert_eq!(p.diagnostics.len(), 1);
    assert_eq!(p.diagnostics[0].code, ErrorCode::InvalidElementPlacement);
    assert_eq!(p.diagnostics[0].offset, 5);
    assert!(!p.meta_tags.head);
}

#[test]
fn content_and_duplicate_are_independent() {
    let doc = "<svelte:window></svelte:window><svelte:window><div/></svelte:window>";
    let p = parse(doc).unwrap();
    assert_eq!(p.diagnostics.len(), 2);
    assert_eq!(p.diagnostics[0].code, ErrorCode::InvalidElementContent);
    assert_eq!(p.diagnostics[0].offset, 46);
    assert_eq!(p.diagnostics[1].code, ErrorCode::DuplicateElement);
    assert_eq!(p.diagnostics[1].offset, 31);
}

#[test]
fn all_three_checks_fire_on_one_closing_tag() {
    let doc = "<svelte:window></svelte:window><div><svelte:window><b/></svelte:window></div>";
    let p = parse(doc).unwrap();
    assert_eq!(p.diagnostics.len(), 3);
    assert_eq!(p.diagnostics[0].code, ErrorCode::InvalidElementContent);
    assert_eq!(p.diagnostics[0].offset, 51);
    assert_eq!(p.diagnostics[1].code, ErrorCode::DuplicateElement);
    assert_eq!(p.diagnostics[1].offset, 36);
    assert_eq!(p.diagnostics[2].code, ErrorCode::InvalidElementPlacement);
    assert_eq!(p.diagnostics[2].offset, 36);
}

#[test]
fn violating_occurrence_is_not_marked_seen() {
    // the nested occurrence raises a violation, so the name stays unseen and
    // a later top-level occurrence is clean
    let p = parse("<div><svelte:body/></div><svelte:body></svelte:body>").unwrap();
    assert_eq!(p.diagnostics.len(), 1);
    assert_eq!(p.diagnostics[0].code, ErrorCode::InvalidElementPlacement);
    assert!(p.meta_tags.body);
}
