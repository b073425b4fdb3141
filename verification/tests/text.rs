use link_checker::text::{chars_of, has_part, has_prefix, has_suffix};

fn starts_with(s: &str, prefix: &str) -> bool {
    has_prefix(&chars_of(s), prefix)
}

fn ends_with(s: &str, suffix: &str) -> bool {
    has_suffix(&chars_of(s), suffix)
}

fn contains(s: &str, needle: &str) -> bool {
    has_part(&chars_of(s), needle)
}

#[test]
fn chars_of_keeps_every_character_in_order() {
    assert_eq!(chars_of("a/é#"), vec!['a', '/', 'é', '#']);
    assert_eq!(chars_of(""), Vec::<char>::new());
}

#[test]
fn starts_with_compares_the_first_characters() {
    assert!(starts_with("https://example.com", "https://"));
    assert!(!starts_with("http://example.com", "https://"));
    assert!(!starts_with("ttps://example.com", "https://"));
}

#[test]
fn starts_with_takes_the_whole_string_as_its_own_prefix() {
    assert!(starts_with("abc", "abc"));
    assert!(!starts_with("ab", "abc"));
}

#[test]
fn every_string_starts_and_ends_with_the_empty_string() {
    assert!(starts_with("abc", ""));
    assert!(ends_with("abc", ""));
    assert!(contains("abc", ""));
    assert!(starts_with("", ""));
    assert!(ends_with("", ""));
    assert!(contains("", ""));
}

#[test]
fn ends_with_compares_the_last_characters() {
    assert!(ends_with("docs/readme.md", ".md"));
    assert!(!ends_with("docs/readme.md.bak", ".md"));
    assert!(!ends_with("md", ".md"));
}

#[test]
fn contains_finds_a_needle_at_the_start_in_the_middle_and_at_the_end() {
    assert!(contains("localhost:8080/x", "localhost"));
    assert!(contains("http://localhost/x", "localhost"));
    assert!(contains("http://x/localhost", "localhost"));
    assert!(!contains("http://localhos/t", "localhost"));
    assert!(!contains("local", "localhost"));
}

#[test]
fn contains_goes_on_after_a_match_that_breaks_off() {
    assert!(contains("aab", "ab"));
    assert!(contains("lolocalhost", "localhost"));
}

#[test]
fn text_tests_count_characters_not_bytes() {
    assert!(starts_with("éa", "é"));
    assert!(ends_with("aé", "é"));
    assert!(contains("aéb", "éb"));
    assert!(!starts_with("éa", "a"));
}
