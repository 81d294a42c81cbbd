//! The JavaScript the toolkit hands the page: the seeded random-number
//! preload, and the scripts that fire a trigger (click, hover, typing,
//! scrolling, evaluation) in the main document or inside nested iframes.
//!
//! Selectors, frame paths and typed text are embedded as JSON string
//! literals.  Scroll offsets are floating-point values; they arrive already
//! rendered as the JavaScript number literals to embed.

use vstd::prelude::*;
use crate::error::Error;
use crate::text::{decimal, json_quote, json_quote_list, json_quoted, json_string_array, string_views, u64_decimal};

verus! {

/// The 32-bit xorshift state a 64-bit seed folds to: the exclusive-or of
/// its two halves, with the degenerate zero state replaced by one.
pub open spec fn fold_seed(seed: u64) -> u32 {
    let x = (seed as u32) ^ ((seed >> 32u64) as u32);
    if x == 0 {
        1
    } else {
        x
    }
}

pub open spec fn rng_preload_text(seed: u64, pin_crypto: bool) -> Seq<char> {
    let s = decimal(fold_seed(seed) as nat);
    "(function () {\nif (window.__motionlens_rng) return;\nlet s = "@ + s
        + " >>> 0;\nconst rng = function () { s ^= s << 13; s >>>= 0; s ^= s >>> 17; s ^= s << 5; s >>>= 0; return (s & 0xfffffff) / 0xfffffff; };\nwindow.__motionlens_rng = { seed: "@
        + s + ", next: rng };\ntry { Math.random = rng; } catch (_) {}\nif ("@ + (if pin_crypto {
        "true"@
    } else {
        "false"@
    })
        + ") {\ntry {\nconst c = window.crypto;\nif (c) {\nc.getRandomValues = function (buf) {\nfor (let i = 0; i < buf.length; i++) {\nconst r = rng();\nif (buf instanceof Float32Array || buf instanceof Float64Array) { buf[i] = r; }\nelse if (buf instanceof BigUint64Array || buf instanceof BigInt64Array) { buf[i] = BigInt(Math.floor(r * Number.MAX_SAFE_INTEGER)); }\nelse { buf[i] = Math.floor(r * 0x100000000) & 0xffffffff; }\n}\nreturn buf;\n};\n}\n} catch (_) {}\n}\n})();"@
}

/// The preload script that swaps `Math.random` (and, when `pin_crypto`,
/// `crypto.getRandomValues`) for a xorshift generator seeded from `seed`,
/// and records the seed on `window.__motionlens_rng`.
pub fn build_seeded_rng_preload(seed: u64, pin_crypto: bool) -> (js: String)
    ensures
        js@ == rng_preload_text(seed, pin_crypto),
{
    let x: u32 = (seed as u32) ^ ((seed >> 32u64) as u32);
    let folded: u32 = if x == 0 {
        1
    } else {
        x
    };
    let s = u64_decimal(folded as u64);
    let mut js = String::from_str("(function () {\nif (window.__motionlens_rng) return;\nlet s = ");
    js.append(s.as_str());
    js.append(
        " >>> 0;\nconst rng = function () { s ^= s << 13; s >>>= 0; s ^= s >>> 17; s ^= s << 5; s >>>= 0; return (s & 0xfffffff) / 0xfffffff; };\nwindow.__motionlens_rng = { seed: ",
    );
    js.append(s.as_str());
    js.append(", next: rng };\ntry { Math.random = rng; } catch (_) {}\nif (");
    js.append(
        if pin_crypto {
            "true"
        } else {
            "false"
        },
    );
    js.append(
        ") {\ntry {\nconst c = window.crypto;\nif (c) {\nc.getRandomValues = function (buf) {\nfor (let i = 0; i < buf.length; i++) {\nconst r = rng();\nif (buf instanceof Float32Array || buf instanceof Float64Array) { buf[i] = r; }\nelse if (buf instanceof BigUint64Array || buf instanceof BigInt64Array) { buf[i] = BigInt(Math.floor(r * Number.MAX_SAFE_INTEGER)); }\nelse { buf[i] = Math.floor(r * 0x100000000) & 0xffffffff; }\n}\nreturn buf;\n};\n}\n} catch (_) {}\n}\n})();",
    );
    js
}

/// A script that walks the iframe chain `path` (each step an iframe found
/// by `name=` or `id`), finds `selector` in the innermost document, and
/// runs `action` with the element bound as `el`.
pub open spec fn iframe_action_text(path: Seq<Seq<char>>, selector: Seq<char>, action: Seq<char>) -> Seq<char> {
    let p = json_string_array(path);
    let s = json_quoted(selector);
    "(function(){ let doc = document; const path = "@ + p
        + "; for (const name of path) { const ifr = doc.querySelector('iframe[name=\"' + name + '\"]') || doc.querySelector('iframe#' + name); if (!ifr || !ifr.contentDocument) throw new Error('iframe not accessible: ' + name); doc = ifr.contentDocument; } const el = doc.querySelector("@
        + s + "); if (!el) throw new Error('selector not found in iframe: ' + "@ + s + "); "@ + action + " })()"@
}

pub fn iframe_action_js(frame_path: &Vec<String>, selector: &str, action: &str) -> (js: String)
    ensures
        js@ == iframe_action_text(string_views(frame_path@), selector@, action@),
{
    let p = json_quote_list(frame_path);
    let s = json_quote(selector);
    let mut js = String::from_str("(function(){ let doc = document; const path = ");
    js.append(p.as_str());
    js.append(
        "; for (const name of path) { const ifr = doc.querySelector('iframe[name=\"' + name + '\"]') || doc.querySelector('iframe#' + name); if (!ifr || !ifr.contentDocument) throw new Error('iframe not accessible: ' + name); doc = ifr.contentDocument; } const el = doc.querySelector(",
    );
    js.append(s.as_str());
    js.append("); if (!el) throw new Error('selector not found in iframe: ' + ");
    js.append(s.as_str());
    js.append("); ");
    js.append(action);
    js.append(" })()");
    js
}

/// Where a trigger acts: a selector in the document reached through
/// `frame_path` (empty: the main document).
pub struct Target {
    pub selector: String,
    pub frame_path: Vec<String>,
}

/// A trigger to fire.  Scroll offsets are the rendered JavaScript numbers.
pub enum TriggerAction {
    Click { target: Target },
    Hover { target: Target },
    Type { target: Target, text: String },
    Scroll { target: Option<Target>, frame_path: Vec<String>, x: String, y: String },
    Evaluate { js: String, frame_path: Vec<String> },
}

/// How a trigger reaches the page: a function called on the element a
/// main-document selector finds (`this` is the element), or a script
/// evaluated in the page.
pub enum TriggerScript {
    CallOnElement { selector: String, function: String },
    Evaluate { js: String },
}

pub enum TriggerScriptView {
    CallOnElement { selector: Seq<char>, function: Seq<char> },
    Evaluate { js: Seq<char> },
}

impl View for TriggerScript {
    type V = TriggerScriptView;

    open spec fn view(&self) -> TriggerScriptView {
        match self {
            TriggerScript::CallOnElement { selector, function } => TriggerScriptView::CallOnElement {
                selector: selector@,
                function: function@,
            },
            TriggerScript::Evaluate { js } => TriggerScriptView::Evaluate { js: js@ },
        }
    }
}

pub open spec fn hover_function() -> Seq<char> {
    "function() { this.dispatchEvent(new MouseEvent('mouseenter', { bubbles: true })); this.dispatchEvent(new MouseEvent('mouseover', { bubbles: true })); }"@
}

pub open spec fn hover_action() -> Seq<char> {
    "el.dispatchEvent(new MouseEvent('mouseenter', { bubbles: true })); el.dispatchEvent(new MouseEvent('mouseover', { bubbles: true }));"@
}

pub open spec fn type_function(text: Seq<char>) -> Seq<char> {
    "function() { this.focus(); this.value = "@ + json_quoted(text)
        + "; this.dispatchEvent(new Event('input', { bubbles: true })); this.dispatchEvent(new Event('change', { bubbles: true })); }"@
}

pub open spec fn type_action(text: Seq<char>) -> Seq<char> {
    "el.focus(); el.value = "@ + json_quoted(text)
        + "; el.dispatchEvent(new Event('input', { bubbles: true })); el.dispatchEvent(new Event('change', { bubbles: true }));"@
}

pub open spec fn scroll_action(x: Seq<char>, y: Seq<char>) -> Seq<char> {
    "el.scrollTo({ left: "@ + x + ", top: "@ + y + ", behavior: 'instant' });"@
}

pub open spec fn scroll_selector_text(selector: Seq<char>, x: Seq<char>, y: Seq<char>) -> Seq<char> {
    let s = json_quoted(selector);
    "(() => { const el = document.querySelector("@ + s + "); if (el) { el.scrollTo({ left: "@ + x + ", top: "@ + y
        + ", behavior: 'instant' }); } else { throw new Error('selector not found: ' + "@ + s + "); } })()"@
}

pub open spec fn scroll_window_text(x: Seq<char>, y: Seq<char>) -> Seq<char> {
    "window.scrollTo({ left: "@ + x + ", top: "@ + y + ", behavior: 'instant' })"@
}

pub open spec fn evaluate_in_frame_text(path: Seq<Seq<char>>, body: Seq<char>) -> Seq<char> {
    "(function(){ const doc = (function(){ let d = document; const path = "@ + json_string_array(path)
        + "; for (const name of path) { const ifr = d.querySelector('iframe[name=\"' + name + '\"]') || d.querySelector('iframe#' + name); if (!ifr || !ifr.contentDocument) throw new Error('iframe not accessible: ' + name); d = ifr.contentDocument; } return d; })(); const w = doc.defaultView; (function(window, document){ "@
        + body + " }).call(w, w, doc); })()"@
}

pub open spec fn scroll_needs_selector_text() -> Seq<char> {
    "trigger.scroll with frame_path requires a selector to identify the scroll container"@
}

/// On an element of the main document, `function`; inside iframes, the
/// iframe-walking script running `action`.
pub open spec fn element_script(t: Target, function: Seq<char>, action: Seq<char>) -> TriggerScriptView {
    if t.frame_path@.len() == 0 {
        TriggerScriptView::CallOnElement { selector: t.selector@, function }
    } else {
        TriggerScriptView::Evaluate { js: iframe_action_text(string_views(t.frame_path@), t.selector@, action) }
    }
}

/// The script that fires `action`.  A scroll inside an iframe chain (its
/// own, or its target's when it has none) needs a target selector for the
/// scroll container; without one it is refused (`None`).
pub open spec fn spec_trigger_script(action: TriggerAction) -> Option<TriggerScriptView> {
    match action {
        TriggerAction::Click { target } => Some(element_script(target, "function() { this.click(); }"@, "el.click();"@)),
        TriggerAction::Hover { target } => Some(element_script(target, hover_function(), hover_action())),
        TriggerAction::Type { target, text } => Some(element_script(target, type_function(text@), type_action(text@))),
        TriggerAction::Scroll { target, frame_path, x, y } => {
            let path = if frame_path@.len() == 0 {
                match target {
                    Some(t) => string_views(t.frame_path@),
                    None => Seq::empty(),
                }
            } else {
                string_views(frame_path@)
            };
            if path.len() > 0 {
                match target {
                    Some(t) => Some(TriggerScriptView::Evaluate { js: iframe_action_text(path, t.selector@, scroll_action(x@, y@)) }),
                    None => None,
                }
            } else {
                match target {
                    Some(t) => Some(TriggerScriptView::Evaluate { js: scroll_selector_text(t.selector@, x@, y@) }),
                    None => Some(TriggerScriptView::Evaluate { js: scroll_window_text(x@, y@) }),
                }
            }
        },
        TriggerAction::Evaluate { js, frame_path } => if frame_path@.len() == 0 {
            Some(TriggerScriptView::Evaluate { js: js@ })
        } else {
            Some(TriggerScriptView::Evaluate { js: evaluate_in_frame_text(string_views(frame_path@), js@) })
        },
    }
}

fn element_trigger(target: Target, function: &str, action: String) -> (s: TriggerScript)
    ensures
        s@ == element_script(target, function@, action@),
{
    if target.frame_path.len() == 0 {
        TriggerScript::CallOnElement { selector: target.selector, function: String::from_str(function) }
    } else {
        TriggerScript::Evaluate { js: iframe_action_js(&target.frame_path, target.selector.as_str(), action.as_str()) }
    }
}

/// The script that fires a trigger.
pub fn trigger_script(action: TriggerAction) -> (r: Result<TriggerScript, Error>)
    ensures
        match r {
            Ok(s) => spec_trigger_script(action) == Some(s@),
            Err(e) => spec_trigger_script(action) is None && (e matches Error::InvalidArgument(m) && m@
                == scroll_needs_selector_text()),
        },
{
    match action {
        TriggerAction::Click { target } => Ok(element_trigger(target, "function() { this.click(); }", String::from_str("el.click();"))),
        TriggerAction::Hover { target } => Ok(element_trigger(
            target,
            "function() { this.dispatchEvent(new MouseEvent('mouseenter', { bubbles: true })); this.dispatchEvent(new MouseEvent('mouseover', { bubbles: true })); }",
            String::from_str(
                "el.dispatchEvent(new MouseEvent('mouseenter', { bubbles: true })); el.dispatchEvent(new MouseEvent('mouseover', { bubbles: true }));",
            ),
        )),
        TriggerAction::Type { target, text } => {
            let t = json_quote(text.as_str());
            let mut f = String::from_str("function() { this.focus(); this.value = ");
            f.append(t.as_str());
            f.append(
                "; this.dispatchEvent(new Event('input', { bubbles: true })); this.dispatchEvent(new Event('change', { bubbles: true })); }",
            );
            let mut act = String::from_str("el.focus(); el.value = ");
            act.append(t.as_str());
            act.append(
                "; el.dispatchEvent(new Event('input', { bubbles: true })); el.dispatchEvent(new Event('change', { bubbles: true }));",
            );
            if target.frame_path.len() == 0 {
                Ok(TriggerScript::CallOnElement { selector: target.selector, function: f })
            } else {
                Ok(TriggerScript::Evaluate { js: iframe_action_js(&target.frame_path, target.selector.as_str(), act.as_str()) })
            }
        },
        TriggerAction::Scroll { target, frame_path, x, y } => {
            let path: Vec<String> = if frame_path.len() == 0 {
                match &target {
                    Some(t) => t.frame_path.clone(),
                    None => Vec::new(),
                }
            } else {
                frame_path
            };
            if path.len() > 0 {
                match target {
                    Some(t) => {
                        let mut act = String::from_str("el.scrollTo({ left: ");
                        act.append(x.as_str());
                        act.append(", top: ");
                        act.append(y.as_str());
                        act.append(", behavior: 'instant' });");
                        Ok(TriggerScript::Evaluate { js: iframe_action_js(&path, t.selector.as_str(), act.as_str()) })
                    },
                    None => Err(
                        Error::invalid(
                            String::from_str(
                                "trigger.scroll with frame_path requires a selector to identify the scroll container",
                            ),
                        ),
                    ),
                }
            } else {
                match target {
                    Some(t) => {
                        let s = json_quote(t.selector.as_str());
                        let mut js = String::from_str("(() => { const el = document.querySelector(");
                        js.append(s.as_str());
                        js.append("); if (el) { el.scrollTo({ left: ");
                        js.append(x.as_str());
                        js.append(", top: ");
                        js.append(y.as_str());
                        js.append(", behavior: 'instant' }); } else { throw new Error('selector not found: ' + ");
                        js.append(s.as_str());
                        js.append("); } })()");
                        Ok(TriggerScript::Evaluate { js })
                    },
                    None => {
                        let mut js = String::from_str("window.scrollTo({ left: ");
                        js.append(x.as_str());
                        js.append(", top: ");
                        js.append(y.as_str());
                        js.append(", behavior: 'instant' })");
                        Ok(TriggerScript::Evaluate { js })
                    },
                }
            }
        },
        TriggerAction::Evaluate { js, frame_path } => {
            if frame_path.len() == 0 {
                Ok(TriggerScript::Evaluate { js })
            } else {
                let p = json_quote_list(&frame_path);
                let mut w = String::from_str("(function(){ const doc = (function(){ let d = document; const path = ");
                w.append(p.as_str());
                w.append(
                    "; for (const name of path) { const ifr = d.querySelector('iframe[name=\"' + name + '\"]') || d.querySelector('iframe#' + name); if (!ifr || !ifr.contentDocument) throw new Error('iframe not accessible: ' + name); d = ifr.contentDocument; } return d; })(); const w = doc.defaultView; (function(window, document){ ",
                );
                w.append(js.as_str());
                w.append(" }).call(w, w, doc); })()");
                Ok(TriggerScript::Evaluate { js: w })
            }
        },
    }
}

} // verus!
