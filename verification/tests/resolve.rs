use link_checker::classify::Route;
use link_checker::link::LinkTag;
use link_checker::resolve::{internal_target, resolve_internal, settle};
use link_checker::verdict::LinkVerdict;

fn from(path: &str, url: &str) -> LinkTag {
    LinkTag::new(url.to_string(), "t".to_string(), path.to_string())
}

#[test]
fn a_path_is_read_from_the_directory_of_its_document() {
    assert_eq!(internal_target(&from("docs/a.md", "../missing.md")), "docs/../missing.md");
    assert_eq!(internal_target(&from("./docs/sub/a.md", "../b.md")), "./docs/sub/../b.md");
}

#[test]
fn a_document_without_a_directory_adds_nothing() {
    assert_eq!(internal_target(&from("a.md", "../b.md")), "../b.md");
    assert_eq!(internal_target(&from("", "../b.md")), "../b.md");
}

#[test]
fn a_document_in_the_root_directory_keeps_the_root() {
    assert_eq!(internal_target(&from("/a.md", "../b.md")), "/../b.md");
}

#[test]
fn a_path_that_starts_with_a_slash_is_read_as_it_stands() {
    assert_eq!(internal_target(&from("docs/a.md", "/etc/hosts")), "/etc/hosts");
    assert_eq!(internal_target(&from("docs/a.md", "/")), "/");
}

#[test]
fn a_directory_as_document_path_is_taken_whole() {
    assert_eq!(internal_target(&from("docs/", "../b.md")), "docs/../b.md");
}

#[test]
fn a_path_that_is_not_found_is_a_dead_internal_link() {
    let link = from("docs/a.md", "../missing.md");
    assert_eq!(
        resolve_internal(link.clone(), false),
        LinkVerdict::DeadInternal { link }
    );
}

#[test]
fn a_path_that_is_found_is_alive_without_a_status() {
    let link = from("docs/a.md", "../missing.md");
    assert_eq!(
        resolve_internal(link.clone(), true),
        LinkVerdict::Alive { link, status: None }
    );
}

#[test]
fn settle_gives_each_route_its_verdict() {
    let link = from("docs/a.md", "x");
    assert_eq!(
        settle(link.clone(), Route::Ignored, true),
        Some(LinkVerdict::Ignored { link: link.clone() })
    );
    assert_eq!(
        settle(link.clone(), Route::ShouldBeRelative, true),
        Some(LinkVerdict::ShouldBeRelative { link: link.clone() })
    );
    assert_eq!(
        settle(link.clone(), Route::Forbidden, true),
        Some(LinkVerdict::DeadInternal { link: link.clone() })
    );
    assert_eq!(
        settle(link.clone(), Route::Internal, true),
        Some(LinkVerdict::Alive { link: link.clone(), status: None })
    );
    assert_eq!(
        settle(link.clone(), Route::Internal, false),
        Some(LinkVerdict::DeadInternal { link: link.clone() })
    );
}

#[test]
fn settle_gives_a_remote_link_no_verdict() {
    let link = from("docs/a.md", "https://example.com");
    assert_eq!(settle(link.clone(), Route::External, true), None);
    assert_eq!(settle(link, Route::External, false), None);
}

#[test]
fn settle_reads_found_for_a_path_only() {
    let link = from("docs/a.md", "x");
    for route in [Route::Ignored, Route::ShouldBeRelative, Route::Forbidden] {
        assert_eq!(settle(link.clone(), route, true), settle(link.clone(), route, false));
    }
}
