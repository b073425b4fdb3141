use link_checker::extract::{collect_links, get_document_link, MarkupEvent};
use link_checker::link::LinkTag;

fn tag(url: &str, title: &str, path: &str) -> LinkTag {
    LinkTag::new(url.to_string(), title.to_string(), path.to_string())
}

#[test]
fn new_keeps_its_three_arguments() {
    let link = LinkTag::new("u".to_string(), "t".to_string(), "p".to_string());
    assert_eq!(link.url, "u");
    assert_eq!(link.title, "t");
    assert_eq!(link.path, "p");
}

#[test]
fn a_copy_of_a_link_equals_it() {
    let link = tag("../a.md", "A", "docs/b.md");
    assert_eq!(link.clone(), link);
}

#[test]
fn an_inline_link_is_found_with_its_title() {
    let links = get_document_link(
        "See [the guide](https://example.com/guide \"The Guide\").",
        "docs/a.md".to_string(),
    );
    assert_eq!(links, vec![tag("https://example.com/guide", "The Guide", "docs/a.md")]);
}

#[test]
fn a_link_without_a_title_has_an_empty_title() {
    let links = get_document_link("[b](../b.md)", "docs/a.md".to_string());
    assert_eq!(links, vec![tag("../b.md", "", "docs/a.md")]);
}

#[test]
fn links_come_in_the_order_of_the_document() {
    let text = "[one](#first)\n\nSome text with [two](../two.md) and [three](http://three.test).\n\n* [four](/four)\n";
    let links = get_document_link(text, "a.md".to_string());
    let urls: Vec<&str> = links.iter().map(|l| l.url.as_str()).collect();
    assert_eq!(urls, vec!["#first", "../two.md", "http://three.test", "/four"]);
}

#[test]
fn a_link_that_stands_twice_is_found_twice() {
    let links = get_document_link("[a](http://x.test) [b](http://x.test)", "a.md".to_string());
    assert_eq!(links.len(), 2);
    assert_eq!(links[0], links[1]);
}

#[test]
fn a_reference_link_is_found_with_its_definition() {
    let text = "Read [this][ref].\n\n[ref]: ../target.md \"Target\"\n";
    let links = get_document_link(text, "docs/a.md".to_string());
    assert_eq!(links, vec![tag("../target.md", "Target", "docs/a.md")]);
}

#[test]
fn an_autolink_is_found() {
    let links = get_document_link("<https://example.com/auto>", "a.md".to_string());
    assert_eq!(links, vec![tag("https://example.com/auto", "", "a.md")]);
}

#[test]
fn an_image_is_no_link() {
    let links = get_document_link("![logo](../logo.png)", "a.md".to_string());
    assert_eq!(links, Vec::<LinkTag>::new());
}

#[test]
fn a_link_in_a_code_span_is_no_link() {
    let links = get_document_link("`[a](http://x.test)`", "a.md".to_string());
    assert_eq!(links, Vec::<LinkTag>::new());
}

#[test]
fn a_document_without_links_gives_none() {
    assert_eq!(get_document_link("", "a.md".to_string()), Vec::<LinkTag>::new());
    assert_eq!(get_document_link("# Title\n\nplain text\n", "a.md".to_string()), Vec::<LinkTag>::new());
}

#[test]
fn broken_markup_gives_the_links_that_are_whole() {
    let text = "[open](http://broken.test\n\n[whole](http://whole.test)\n\n[dangling][nowhere] **bold";
    let links = get_document_link(text, "a.md".to_string());
    assert_eq!(links, vec![tag("http://whole.test", "", "a.md")]);
}

#[test]
fn the_links_differ_from_the_text_they_were_read_from() {
    let text = "[a](http://x.test)";
    let links = get_document_link(text, "a.md".to_string());
    assert_eq!(links.len(), 1);
    assert_ne!(links[0].url, text);
}

#[test]
fn collect_links_takes_the_links_and_leaves_the_rest() {
    let events = vec![
        MarkupEvent::Other,
        MarkupEvent::LinkStart { url: "#a".to_string(), title: "".to_string() },
        MarkupEvent::Other,
        MarkupEvent::Other,
        MarkupEvent::LinkStart { url: "../b.md".to_string(), title: "B".to_string() },
    ];
    let links = collect_links(&events, "docs/x.md");
    assert_eq!(links, vec![tag("#a", "", "docs/x.md"), tag("../b.md", "B", "docs/x.md")]);
}

#[test]
fn collect_links_gives_nothing_for_no_events() {
    assert_eq!(collect_links(&Vec::new(), "x.md"), Vec::<LinkTag>::new());
    assert_eq!(collect_links(&vec![MarkupEvent::Other], "x.md"), Vec::<LinkTag>::new());
}
