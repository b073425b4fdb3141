use link_checker::link::LinkTag;
use link_checker::report::Report;
use link_checker::verdict::LinkVerdict;

fn named(url: &str) -> LinkTag {
    LinkTag::new(url.to_string(), "t".to_string(), "docs/a.md".to_string())
}

#[test]
fn no_verdicts_make_an_empty_report() {
    let report = Report::from_verdicts(&Vec::new());
    assert_eq!(report.visited, Vec::<LinkTag>::new());
    assert_eq!(report.dead_internal, Vec::<LinkTag>::new());
    assert_eq!(report.dead_external, Vec::<LinkTag>::new());
    assert_eq!(report.should_be_relative, Vec::<LinkTag>::new());
}

#[test]
fn each_verdict_goes_to_its_list() {
    let verdicts = vec![
        LinkVerdict::Ignored { link: named("#a") },
        LinkVerdict::DeadInternal { link: named("../gone.md") },
        LinkVerdict::Alive { link: named("../here.md"), status: None },
        LinkVerdict::ShouldBeRelative { link: named("https://repo.test/a.md") },
        LinkVerdict::Alive { link: named("https://up.test"), status: Some(200) },
        LinkVerdict::DeadExternal { link: named("https://down.test"), status: Some(500) },
        LinkVerdict::DeadExternal { link: named("https://nowhere.test"), status: None },
    ];
    let report = Report::from_verdicts(&verdicts);
    assert_eq!(
        report.visited,
        vec![named("https://up.test"), named("https://down.test"), named("https://nowhere.test")]
    );
    assert_eq!(report.dead_internal, vec![named("../gone.md")]);
    assert_eq!(
        report.dead_external,
        vec![named("https://down.test"), named("https://nowhere.test")]
    );
    assert_eq!(report.should_be_relative, vec![named("https://repo.test/a.md")]);
}

#[test]
fn the_lists_keep_the_order_of_the_verdicts() {
    let verdicts = vec![
        LinkVerdict::DeadInternal { link: named("../c.md") },
        LinkVerdict::DeadInternal { link: named("../a.md") },
        LinkVerdict::Ignored { link: named("x") },
        LinkVerdict::DeadInternal { link: named("../b.md") },
    ];
    let report = Report::from_verdicts(&verdicts);
    assert_eq!(report.dead_internal, vec![named("../c.md"), named("../a.md"), named("../b.md")]);
}

#[test]
fn ignored_links_and_paths_that_were_found_are_on_no_list() {
    let verdicts = vec![
        LinkVerdict::Ignored { link: named("#a") },
        LinkVerdict::Alive { link: named("../here.md"), status: None },
    ];
    let report = Report::from_verdicts(&verdicts);
    assert_eq!(report, Report::from_verdicts(&Vec::new()));
}

#[test]
fn the_same_verdicts_make_the_same_report() {
    let verdicts = vec![
        LinkVerdict::DeadInternal { link: named("../gone.md") },
        LinkVerdict::DeadExternal { link: named("https://down.test"), status: Some(404) },
    ];
    assert_eq!(Report::from_verdicts(&verdicts), Report::from_verdicts(&verdicts.clone()));
}
