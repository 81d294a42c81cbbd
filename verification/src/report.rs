//! The facts the CI check reads from a written report and from the
//! project's configuration file.  Both are JSON texts parsed by
//! `serde_json`; the defaults for absent fields are the library's.

use vstd::prelude::*;
use serde_json::Value;

verus! {

/// What parsing `report` as JSON yields for its `passes` (a boolean),
/// `verdict` and `contract_url` (strings) fields, each `None` when absent
/// or of another type; `None` as a whole when the text is not JSON.
pub uninterp spec fn report_json_fields(report: Seq<char>) -> Option<(Option<bool>, Option<Seq<char>>, Option<Seq<char>>)>;

/// What parsing `config` as JSON yields for its `url` field (a string,
/// `None` when absent or of another type); `None` as a whole when the text
/// is not JSON.
pub uninterp spec fn config_json_url(config: Seq<char>) -> Option<Option<Seq<char>>>;

/// Whether the `viewport` value of `config` differs from the
/// `contract_viewport` value of `report`, both parsed as JSON; `None`
/// when either text is not JSON or either value is absent.
pub uninterp spec fn json_viewports_differ(report: Seq<char>, config: Seq<char>) -> Option<bool>;

/// Reads the report fields.
///
/// Calls `serde_json::from_str::<serde_json::Value>` and then `get` with
/// `Value::as_bool` or `Value::as_str` for each field.  The contract ties
/// the result to `report_json_fields` of the text; the error is the
/// parser's message.
#[verifier::external_body]
fn report_fields(report: &str) -> (r: Result<(Option<bool>, Option<String>, Option<String>), String>)
    ensures
        match r {
            Ok((p, v, u)) => report_json_fields(report@) == Some(
                (
                    p,
                    match v {
                        Some(t) => Some(t@),
                        None => None,
                    },
                    match u {
                        Some(t) => Some(t@),
                        None => None,
                    },
                ),
            ),
            Err(_) => report_json_fields(report@) is None,
        },
{
    let v: Value = serde_json::from_str(report).map_err(|e| e.to_string())?;
    let passes = v.get("passes").and_then(Value::as_bool);
    let verdict = v.get("verdict").and_then(Value::as_str).map(String::from);
    let url = v.get("contract_url").and_then(Value::as_str).map(String::from);
    Ok((passes, verdict, url))
}

/// Reads the configuration's `url`.
///
/// Calls `serde_json::from_str::<serde_json::Value>`, then `get("url")`
/// and `Value::as_str`.  The contract ties the result to
/// `config_json_url` of the text; the error is the parser's message.
#[verifier::external_body]
fn config_url(config: &str) -> (r: Result<Option<String>, String>)
    ensures
        match r {
            Ok(u) => config_json_url(config@) == Some(
                match u {
                    Some(t) => Some(t@),
                    None => None,
                },
            ),
            Err(_) => config_json_url(config@) is None,
        },
{
    let c: Value = serde_json::from_str(config).map_err(|e| e.to_string())?;
    Ok(c.get("url").and_then(Value::as_str).map(String::from))
}

/// Compares the two viewports.
///
/// Parses both texts with `serde_json::from_str::<serde_json::Value>` and
/// compares `config["viewport"]` with `report["contract_viewport"]` by
/// `Value`'s `!=`.  The contract ties the result to
/// `json_viewports_differ` of the texts.
#[verifier::external_body]
fn viewports_differ(report: &str, config: &str) -> (r: Option<bool>)
    ensures
        r == json_viewports_differ(report@, config@),
{
    let r: Value = serde_json::from_str(report).ok()?;
    let c: Value = serde_json::from_str(config).ok()?;
    Some(c.get("viewport")? != r.get("contract_viewport")?)
}

/// The facts of a report that the CI check judges.
#[derive(Debug)]
pub struct GateFacts {
    /// `passes`, false when absent.
    pub passes: bool,
    /// `verdict`, empty when absent.
    pub verdict: String,
    /// `contract_url` of the report, when it has one.
    pub contract_url: Option<String>,
    /// `url` of the configuration (empty when absent), when a
    /// configuration was given.
    pub config_url: Option<String>,
    /// The configuration's viewport differs from the report's.
    pub viewport_differs: bool,
}

pub struct GateFactsView {
    pub passes: bool,
    pub verdict: Seq<char>,
    pub contract_url: Option<Seq<char>>,
    pub config_url: Option<Seq<char>>,
    pub viewport_differs: bool,
}

pub open spec fn opt_view(o: Option<String>) -> Option<Seq<char>> {
    match o {
        Some(s) => Some(s@),
        None => None,
    }
}

impl View for GateFacts {
    type V = GateFactsView;

    open spec fn view(&self) -> GateFactsView {
        GateFactsView {
            passes: self.passes,
            verdict: self.verdict@,
            contract_url: opt_view(self.contract_url),
            config_url: opt_view(self.config_url),
            viewport_differs: self.viewport_differs,
        }
    }
}

/// Which text did not parse, with the parser's message.
#[derive(Debug)]
pub enum GateInputError {
    Report(String),
    Config(String),
}

/// The facts the CI check reads from `report` and, when given, the
/// configuration text `config`.
pub open spec fn spec_gate_facts(
    fields: (Option<bool>, Option<Seq<char>>, Option<Seq<char>>),
    config: Option<(Option<Seq<char>>, Option<bool>)>,
) -> GateFactsView {
    GateFactsView {
        passes: match fields.0 {
            Some(b) => b,
            None => false,
        },
        verdict: match fields.1 {
            Some(v) => v,
            None => Seq::empty(),
        },
        contract_url: fields.2,
        config_url: match config {
            Some((u, _)) => Some(
                match u {
                    Some(t) => t,
                    None => Seq::empty(),
                },
            ),
            None => None,
        },
        viewport_differs: match config {
            Some((_, Some(d))) => d,
            _ => false,
        },
    }
}

/// Reads what the CI check judges from a report text and an optional
/// configuration text.  Fails when the report is not JSON, then when the
/// configuration is not JSON; absent fields take their defaults (not
/// passed, an empty verdict, an empty configured URL, equal viewports).
pub fn report_gate_facts(report_json: &str, config_json: Option<&str>) -> (r: Result<GateFacts, GateInputError>)
    ensures
        match report_json_fields(report_json@) {
            None => r matches Err(GateInputError::Report(_)),
            Some(fields) => match config_json {
                None => r matches Ok(f) && f@ == spec_gate_facts(fields, None),
                Some(c) => match config_json_url(c@) {
                    None => r matches Err(GateInputError::Config(_)),
                    Some(u) => r matches Ok(f) && f@ == spec_gate_facts(
                        fields,
                        Some((u, json_viewports_differ(report_json@, c@))),
                    ),
                },
            },
        },
{
    let (passes, verdict, contract_url) = match report_fields(report_json) {
        Ok(f) => f,
        Err(m) => {
            return Err(GateInputError::Report(m));
        },
    };
    let passes = match passes {
        Some(b) => b,
        None => false,
    };
    let verdict = match verdict {
        Some(v) => v,
        None => String::new(),
    };
    let (cfg_url, viewport_differs) = match config_json {
        None => (None, false),
        Some(c) => {
            let u = match config_url(c) {
                Ok(u) => u,
                Err(m) => {
                    return Err(GateInputError::Config(m));
                },
            };
            let u = match u {
                Some(t) => t,
                None => String::new(),
            };
            let d = match viewports_differ(report_json, c) {
                Some(d) => d,
                None => false,
            };
            (Some(u), d)
        },
    };
    Ok(GateFacts { passes, verdict, contract_url, config_url: cfg_url, viewport_differs })
}

} // verus!
