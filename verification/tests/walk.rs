use link_checker::walk::{ends_with_extension, WalkRules};

#[test]
fn a_path_with_a_document_extension_is_taken() {
    assert!(ends_with_extension("docs/guide.md"));
    assert!(ends_with_extension("docs/guide.markdown"));
    assert!(ends_with_extension(".md"));
}

#[test]
fn a_path_without_a_document_extension_is_left() {
    assert!(!ends_with_extension("docs/guide.txt"));
    assert!(!ends_with_extension("docs/guide.md.orig"));
    assert!(!ends_with_extension("docs/cmd"));
    assert!(!ends_with_extension("md"));
    assert!(!ends_with_extension(""));
}

#[test]
fn the_standard_rules_hold_the_standard_lists() {
    let rules = WalkRules::standard();
    assert_eq!(rules.extensions, vec![".md".to_string(), ".markdown".to_string()]);
    assert_eq!(
        rules.ignored_directories,
        vec![
            "archive".to_string(),
            "embedded".to_string(),
            "embedded-hal".to_string(),
            "atmel".to_string(),
            "node_modules".to_string(),
            "STM32".to_string(),
            "legacy".to_string(),
        ]
    );
}

#[test]
fn the_standard_rules_agree_with_ends_with_extension() {
    let rules = WalkRules::standard();
    for path in ["a.md", "a.markdown", "a.txt", "md", "x/y.md", "x.mdx"] {
        assert_eq!(rules.has_extension(path), ends_with_extension(path));
    }
}

#[test]
fn a_document_under_an_ignored_directory_is_left() {
    let rules = WalkRules::standard();
    assert!(rules.is_ignored("./node_modules/pkg/readme.md"));
    assert!(rules.is_ignored("./docs/archive/old.md"));
    assert!(rules.is_ignored("./boards/STM32/readme.md"));
    assert!(!rules.accepts("./node_modules/pkg/readme.md"));
    assert!(!rules.accepts("./docs/legacy/readme.md"));
}

#[test]
fn an_ignored_name_counts_wherever_it_stands_in_the_path() {
    let rules = WalkRules::standard();
    assert!(rules.is_ignored("./docs/archived-notes.md"));
    assert!(!rules.is_ignored("./docs/stm32.md"));
}

#[test]
fn a_document_elsewhere_is_taken() {
    let rules = WalkRules::standard();
    assert!(rules.accepts("./docs/guide.md"));
    assert!(rules.accepts("README.markdown"));
    assert!(!rules.accepts("./docs/guide.rst"));
}

#[test]
fn rules_of_ones_own_are_followed() {
    let rules = WalkRules {
        extensions: vec![".txt".to_string()],
        ignored_directories: vec!["tmp".to_string()],
    };
    assert!(rules.accepts("notes/a.txt"));
    assert!(!rules.accepts("notes/a.md"));
    assert!(!rules.accepts("tmp/a.txt"));
}

#[test]
fn rules_without_extensions_take_nothing() {
    let rules = WalkRules { extensions: Vec::new(), ignored_directories: Vec::new() };
    assert!(!rules.has_extension("a.md"));
    assert!(!rules.is_ignored("a.md"));
    assert!(!rules.accepts("a.md"));
}
