use motionlens_core::error::Error;
use motionlens_core::js::{build_seeded_rng_preload, iframe_action_js, trigger_script, Target, TriggerAction, TriggerScript};
use motionlens_core::model::SourceKind;
use motionlens_core::sources::{
    ambient_source_names, audit_reason, selector_hint, strip_ambient, union_active_sources, with_selector_hints,
    ActiveSource, AmbientSample, RunningElement,
};

fn src(id: &str, name: Option<&str>) -> ActiveSource<f64> {
    ActiveSource {
        id: id.to_string(),
        kind: SourceKind::CssAnimation,
        target_selector: None,
        name: name.map(|n| n.to_string()),
        target_selector_hint: None,
        measures: 1.5,
    }
}

#[test]
fn union_keeps_first_per_id() {
    let a = vec![src("1", Some("spin")), src("2", None)];
    let mut b2 = src("2", Some("other"));
    b2.measures = 9.0;
    let b = vec![b2, src("3", None)];
    let u = union_active_sources(a, b);
    let ids: Vec<&str> = u.iter().map(|s| s.id.as_str()).collect();
    assert_eq!(ids, vec!["1", "2", "3"]);
    assert_eq!(u[1].measures, 1.5);
    assert!(u[1].name.is_none());
}

fn sample(key: &str, long: bool) -> AmbientSample {
    AmbientSample { key: key.to_string(), outlasts_window: long }
}

#[test]
fn ambient_sources_are_sorted_and_everywhere() {
    let ivs = vec![
        vec![sample("orb", true), sample("marquee", true), sample("fade-up", false), sample("orb", true)],
        vec![sample("marquee", false), sample("orb", false), sample("fade-up", false)],
        vec![sample("orb", false), sample("marquee", false), sample("fade-up", false)],
    ];
    assert_eq!(ambient_source_names(&ivs, false), vec!["marquee".to_string(), "orb".to_string()]);
    assert!(ambient_source_names(&ivs, true).is_empty());
    assert!(ambient_source_names(&ivs[..1].to_vec(), false).is_empty());
    let kept = strip_ambient(vec![src("a", Some("orb")), src("b", Some("fade-up")), src("marquee", None)], &vec!["marquee".to_string(), "orb".to_string()]);
    let ids: Vec<&str> = kept.iter().map(|s| s.id.as_str()).collect();
    assert_eq!(ids, vec!["b"]);
}

fn run(sel: &str, anims: &[&str]) -> RunningElement {
    RunningElement { selector: sel.to_string(), running_animations: anims.iter().map(|s| s.to_string()).collect() }
}

#[test]
fn selector_hint_only_when_unique() {
    let frames = vec![vec![run("#a", &["spin"]), run("#b", &["wave"])], vec![run("#a", &["spin"]), run("#c", &["wave"])]];
    assert_eq!(selector_hint(&frames, &"spin".to_string()), Some("#a".to_string()));
    assert_eq!(selector_hint(&frames, &"wave".to_string()), None);
    assert_eq!(selector_hint(&frames, &"none".to_string()), None);
    let mut hinted = src("x", None);
    hinted.target_selector_hint = Some("#keep".to_string());
    let out = with_selector_hints(vec![src("1", Some("spin")), src("2", Some("wave")), hinted], &frames);
    assert_eq!(out[0].target_selector_hint.as_deref(), Some("#a"));
    assert_eq!(out[1].target_selector_hint, None);
    assert_eq!(out[2].target_selector_hint.as_deref(), Some("#keep"));
}

#[test]
fn audit_reasons() {
    assert_eq!(
        audit_reason(0, 0, false, 0, 0),
        "No CSS animations / transitions / WAAPI / rAF / scroll-driven / media elements detected."
    );
    assert_eq!(
        audit_reason(3, 0, true, 12, 1),
        "Motion detected: 3 CSS / WAAPI animations, rAF active (12 registrations), 1 <video>/<audio> elements."
    );
}

fn expected_preload(seed: u64, pin_crypto: bool) -> String {
    let seed32 = ((seed as u32) ^ ((seed >> 32) as u32)).max(1);
    format!(
        "(function () {{\nif (window.__motionlens_rng) return;\nlet s = {seed} >>> 0;\nconst rng = function () {{ s ^= s << 13; s >>>= 0; s ^= s >>> 17; s ^= s << 5; s >>>= 0; return (s & 0xfffffff) / 0xfffffff; }};\nwindow.__motionlens_rng = {{ seed: {seed}, next: rng }};\ntry {{ Math.random = rng; }} catch (_) {{}}\nif ({pin_crypto}) {{\ntry {{\nconst c = window.crypto;\nif (c) {{\nc.getRandomValues = function (buf) {{\nfor (let i = 0; i < buf.length; i++) {{\nconst r = rng();\nif (buf instanceof Float32Array || buf instanceof Float64Array) {{ buf[i] = r; }}\nelse if (buf instanceof BigUint64Array || buf instanceof BigInt64Array) {{ buf[i] = BigInt(Math.floor(r * Number.MAX_SAFE_INTEGER)); }}\nelse {{ buf[i] = Math.floor(r * 0x100000000) & 0xffffffff; }}\n}}\nreturn buf;\n}};\n}}\n}} catch (_) {{}}\n}}\n}})();",
        seed = seed32,
        pin_crypto = if pin_crypto { "true" } else { "false" },
    )
}

#[test]
fn seeded_preload_folds_seed() {
    assert_eq!(build_seeded_rng_preload(0, false), expected_preload(0, false));
    assert!(build_seeded_rng_preload(0, false).contains("let s = 1 >>> 0;"));
    let seed = (5u64 << 32) | 3;
    assert!(build_seeded_rng_preload(seed, true).contains("seed: 6, next: rng"));
    assert_eq!(build_seeded_rng_preload(seed, true), expected_preload(seed, true));
    assert_eq!(build_seeded_rng_preload(u64::MAX, true), expected_preload(u64::MAX, true));
}

#[test]
fn iframe_script_quotes_path_and_selector() {
    let js = iframe_action_js(&vec!["outer".to_string(), "in\"ner".to_string()], "#b\"tn", "el.click();");
    let path = serde_json::to_string(&vec!["outer", "in\"ner"]).unwrap();
    let sel = serde_json::to_string("#b\"tn").unwrap();
    let expect = format!(
        "(function(){{ let doc = document; const path = {path}; for (const name of path) {{ const ifr = doc.querySelector('iframe[name=\"' + name + '\"]') || doc.querySelector('iframe#' + name); if (!ifr || !ifr.contentDocument) throw new Error('iframe not accessible: ' + name); doc = ifr.contentDocument; }} const el = doc.querySelector({sel}); if (!el) throw new Error('selector not found in iframe: ' + {sel}); {action} }})()",
        path = path,
        sel = sel,
        action = "el.click();"
    );
    assert_eq!(js, expect);
}

fn target(sel: &str, path: &[&str]) -> Target {
    Target { selector: sel.to_string(), frame_path: path.iter().map(|s| s.to_string()).collect() }
}

#[test]
fn trigger_scripts() {
    match trigger_script(TriggerAction::Click { target: target("#go", &[]) }).unwrap() {
        TriggerScript::CallOnElement { selector, function } => {
            assert_eq!(selector, "#go");
            assert_eq!(function, "function() { this.click(); }");
        }
        _ => panic!("expected call on element"),
    }
    match trigger_script(TriggerAction::Type { target: target("#q", &[]), text: "say \"hi\"".into() }).unwrap() {
        TriggerScript::CallOnElement { function, .. } => assert_eq!(
            function,
            "function() { this.focus(); this.value = \"say \\\"hi\\\"\"; this.dispatchEvent(new Event('input', { bubbles: true })); this.dispatchEvent(new Event('change', { bubbles: true })); }"
        ),
        _ => panic!("expected call on element"),
    }
    match trigger_script(TriggerAction::Scroll { target: None, frame_path: vec![], x: "0".into(), y: "400".into() }).unwrap() {
        TriggerScript::Evaluate { js } => assert_eq!(js, "window.scrollTo({ left: 0, top: 400, behavior: 'instant' })"),
        _ => panic!("expected evaluate"),
    }
    match trigger_script(TriggerAction::Scroll { target: Some(target("#list", &[])), frame_path: vec![], x: "1.5".into(), y: "2".into() }).unwrap() {
        TriggerScript::Evaluate { js } => assert_eq!(
            js,
            "(() => { const el = document.querySelector(\"#list\"); if (el) { el.scrollTo({ left: 1.5, top: 2, behavior: 'instant' }); } else { throw new Error('selector not found: ' + \"#list\"); } })()"
        ),
        _ => panic!("expected evaluate"),
    }
    match trigger_script(TriggerAction::Scroll { target: None, frame_path: vec!["f".into()], x: "0".into(), y: "0".into() }) {
        Err(Error::InvalidArgument(m)) => {
            assert_eq!(m, "trigger.scroll with frame_path requires a selector to identify the scroll container")
        }
        _ => panic!("expected refusal"),
    }
    match trigger_script(TriggerAction::Hover { target: target("#m", &["f"]) }).unwrap() {
        TriggerScript::Evaluate { js } => assert_eq!(
            js,
            iframe_action_js(&vec!["f".to_string()], "#m", "el.dispatchEvent(new MouseEvent('mouseenter', { bubbles: true })); el.dispatchEvent(new MouseEvent('mouseover', { bubbles: true }));")
        ),
        _ => panic!("expected evaluate"),
    }
    match trigger_script(TriggerAction::Evaluate { js: "go()".into(), frame_path: vec![] }).unwrap() {
        TriggerScript::Evaluate { js } => assert_eq!(js, "go()"),
        _ => panic!("expected evaluate"),
    }
    match trigger_script(TriggerAction::Evaluate { js: "go()".into(), frame_path: vec!["f".into()] }).unwrap() {
        TriggerScript::Evaluate { js } => {
            assert!(js.starts_with("(function(){ const doc = (function(){ let d = document; const path = [\"f\"];"));
            assert!(js.ends_with("(function(window, document){ go() }).call(w, w, doc); })()"));
        }
        _ => panic!("expected evaluate"),
    }
}
