use motionlens_core::report::{report_gate_facts, GateInputError};

#[test]
fn report_fields_are_read_with_defaults() {
    let f = report_gate_facts(r#"{"passes": true, "verdict": "pass", "contract_url": "http://x/"}"#, None).unwrap();
    assert!(f.passes);
    assert_eq!(f.verdict, "pass");
    assert_eq!(f.contract_url.as_deref(), Some("http://x/"));
    assert_eq!(f.config_url, None);
    assert!(!f.viewport_differs);
    let d = report_gate_facts(r#"{"passes": "yes"}"#, None).unwrap();
    assert!(!d.passes);
    assert_eq!(d.verdict, "");
    assert_eq!(d.contract_url, None);
}

#[test]
fn config_url_and_viewports() {
    let report = r#"{"passes": true, "verdict": "pass", "contract_viewport": {"width": 800, "height": 600}}"#;
    let same = report_gate_facts(report, Some(r#"{"url": "http://a/", "viewport": {"height": 600, "width": 800}}"#)).unwrap();
    assert_eq!(same.config_url.as_deref(), Some("http://a/"));
    assert!(!same.viewport_differs);
    let other = report_gate_facts(report, Some(r#"{"viewport": {"width": 1280, "height": 600}}"#)).unwrap();
    assert_eq!(other.config_url.as_deref(), Some(""));
    assert!(other.viewport_differs);
}

#[test]
fn unparsable_texts_are_told_apart() {
    assert!(matches!(report_gate_facts("{", None), Err(GateInputError::Report(_))));
    assert!(matches!(report_gate_facts("{}", Some("nope")), Err(GateInputError::Config(_))));
}
