use link_checker::link::LinkTag;
use link_checker::probe::{external_verdict, judge_response, LinkCheckError};
use link_checker::verdict::LinkVerdict;

fn remote() -> LinkTag {
    LinkTag::new("https://example.com/x".to_string(), "X".to_string(), "docs/a.md".to_string())
}

#[test]
fn a_status_from_200_to_399_is_handed_back() {
    assert_eq!(judge_response(Some(200)), Ok(200));
    assert_eq!(judge_response(Some(204)), Ok(204));
    assert_eq!(judge_response(Some(301)), Ok(301));
    assert_eq!(judge_response(Some(399)), Ok(399));
}

#[test]
fn a_status_outside_200_to_399_cannot_get_the_link() {
    assert_eq!(judge_response(Some(199)), Err(LinkCheckError::CannotGetLink));
    assert_eq!(judge_response(Some(400)), Err(LinkCheckError::CannotGetLink));
    assert_eq!(judge_response(Some(404)), Err(LinkCheckError::CannotGetLink));
    assert_eq!(judge_response(Some(500)), Err(LinkCheckError::CannotGetLink));
    assert_eq!(judge_response(Some(0)), Err(LinkCheckError::CannotGetLink));
    assert_eq!(judge_response(Some(u16::MAX)), Err(LinkCheckError::CannotGetLink));
}

#[test]
fn no_answer_cannot_get_the_link() {
    assert_eq!(judge_response(None), Err(LinkCheckError::CannotGetLink));
}

#[test]
fn status_200_is_alive_with_code_200() {
    assert_eq!(
        external_verdict(remote(), Some(200)),
        LinkVerdict::Alive { link: remote(), status: Some(200) }
    );
}

#[test]
fn status_404_is_dead_with_code_404() {
    let verdict = external_verdict(remote(), Some(404));
    assert_eq!(verdict, LinkVerdict::DeadExternal { link: remote(), status: Some(404) });
    assert!(verdict.is_dead());
    assert_eq!(verdict.status(), Some(404));
}

#[test]
fn a_refused_connection_is_dead_without_a_status() {
    let verdict = external_verdict(remote(), None);
    assert_eq!(verdict, LinkVerdict::DeadExternal { link: remote(), status: None });
    assert_eq!(verdict.status(), None);
}

#[test]
fn the_bounds_of_success_are_200_and_399() {
    assert!(external_verdict(remote(), Some(199)).is_dead());
    assert!(!external_verdict(remote(), Some(200)).is_dead());
    assert!(!external_verdict(remote(), Some(399)).is_dead());
    assert!(external_verdict(remote(), Some(400)).is_dead());
}

#[test]
fn a_verdict_names_its_link_and_its_status() {
    let alive = LinkVerdict::Alive { link: remote(), status: Some(302) };
    assert_eq!(alive.link(), &remote());
    assert_eq!(alive.status(), Some(302));
    assert!(!alive.is_dead());
    let ignored = LinkVerdict::Ignored { link: remote() };
    assert_eq!(ignored.link(), &remote());
    assert_eq!(ignored.status(), None);
    assert!(!ignored.is_dead());
    let flagged = LinkVerdict::ShouldBeRelative { link: remote() };
    assert_eq!(flagged.status(), None);
    assert!(!flagged.is_dead());
    let dead = LinkVerdict::DeadInternal { link: remote() };
    assert_eq!(dead.status(), None);
    assert!(dead.is_dead());
}

#[test]
fn a_copy_of_a_verdict_equals_it() {
    let verdict = LinkVerdict::DeadExternal { link: remote(), status: Some(503) };
    assert_eq!(verdict.clone(), verdict);
}
