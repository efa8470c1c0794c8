// The lexical recognizers: the tag-name grammar and the four reserved
// component markers with their required boundary character.

use rustle::grammar::valid_tag_name_match;
use rustle::markers::component_marker_match;
use rustle::markers::element_marker_match;
use rustle::markers::self_marker_match;
use rustle::markers::slot_marker_match;

#[test]
fn test_valid_tag_name_regex() {
    let samples = vec![
        "svelte:options",
        "svelte:component",
        "my-element",
        "svelte:my-element",
        "!svelte:element",
        "element-multiple-dashes",
        "!svelte:multiple-dashes-element",
    ];

    for s in samples {
        assert!(valid_tag_name_match(s));
    }
}

#[test]
fn test_self_regex() {
    let samples = vec!["svelte:self ", "svelte:self/", "svelte:self>"];

    for s in samples {
        assert!(self_marker_match(s));
    }
}

#[test]
fn test_component_regex() {
    let samples = vec![
        "svelte:component ",
        "svelte:component/",
        "svelte:component>",
    ];

    for s in samples {
        assert!(component_marker_match(s));
    }
}

#[test]
fn test_slot_regex() {
    let samples = vec!["svelte:fragment ", "svelte:fragment/", "svelte:fragment>"];

    for s in samples {
        assert!(slot_marker_match(s));
    }
}

#[test]
fn test_element_regex() {
    let samples = vec!["svelte:element ", "svelte:element/", "svelte:element>"];

    for s in samples {
        assert!(element_marker_match(s));
    }
}

#[test]
fn tag_name_rejects_bad_heads() {
    assert!(!valid_tag_name_match(""));
    assert!(!valid_tag_name_match("1abc"));
    assert!(!valid_tag_name_match("!1abc"));
    assert!(!valid_tag_name_match("!"));
    assert!(!valid_tag_name_match(" div"));
    assert!(!valid_tag_name_match("-div"));
}

#[test]
fn marker_needs_boundary() {
    assert!(!self_marker_match("svelte:self"));
    assert!(!self_marker_match("svelte:selfish "));
    assert!(!component_marker_match("svelte:componentX>"));
    assert!(!slot_marker_match("svelte:fragmen t"));
    assert!(!element_marker_match("svelte:elements "));
    assert!(self_marker_match("svelte:self\t"));
    assert!(self_marker_match("svelte:self\n"));
}
