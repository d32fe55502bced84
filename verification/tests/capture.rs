use tcap::capture::Capture;
use tcap::failure::Failure;

#[test]
fn a_new_capture_knows_only_its_output() {
    let c = Capture::new("out".into(), "tmux");
    assert_eq!((c.output.as_str(), c.source.as_str()), ("out", "tmux"));
    assert!(!c.has_metadata());
    assert!(!c.approximate);
}

#[test]
fn any_fact_is_metadata() {
    let bare = Capture::new("".into(), "x");
    let mut c = bare.clone();
    c.command = Some("".into());
    assert!(c.has_metadata());
    let mut c = bare.clone();
    c.exit_code = Some(0);
    assert!(c.has_metadata());
    let mut c = bare.clone();
    c.cwd = Some("/".into());
    assert!(c.has_metadata());
    let mut c = bare;
    c.duration_ms = Some(0);
    assert!(c.has_metadata());
}

#[test]
fn a_failure_tells_its_causes() {
    assert_eq!(Failure::because("no").chain(), "no");
    assert_eq!(
        Failure::caused_by("no".into(), "why".into()).chain(),
        "no: why"
    );
    let deep = Failure {
        message: "a".into(),
        causes: vec!["b".into(), "c".into()],
    };
    assert_eq!(deep.copy().chain(), "a: b: c");
}
