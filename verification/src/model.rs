//! Plain-valued model types shared by the toolkit.
//!
//! Types whose fields are all integers, booleans, strings or other model
//! types live here.  Wire types that carry floating-point samples are kept
//! by the application crate, which converts to and from these.

use vstd::prelude::*;
use crate::text::{join_seqs, join_strings, string_views};

verus! {

/// Default viewport width in CSS pixels.
pub fn default_viewport_w() -> (w: u32)
    ensures
        w == 1280,
{
    1280
}

/// Default viewport height in CSS pixels.
pub fn default_viewport_h() -> (h: u32)
    ensures
        h == 800,
{
    800
}

/// Default for boolean options that are on unless switched off.
pub fn default_true() -> (b: bool)
    ensures
        b,
{
    true
}

/// Wait outcome recorded before any wait policy was honoured.
pub fn default_wait_outcome() -> (o: WaitOutcome)
    ensures
        o == WaitOutcome::NotRequested,
{
    WaitOutcome::NotRequested
}

#[derive(Debug, Clone, Copy, PartialEq, Eq, Structural)]
pub enum DriverKind {
    VirtualTime,
    InjectedClock,
}

#[derive(Debug, Clone, Copy, PartialEq, Eq, Structural)]
pub enum SeekBackStrategy {
    /// Backward seeks are not possible.
    NoSeekBack,
    /// Backward seeks replay the episode on a scratch page; the live page
    /// is never rewound.
    ReplayScratch,
}

/// How the session handles one source of external state during replay.
#[derive(Debug, Clone, Copy, PartialEq, Eq, Structural)]
pub enum ExternalSourceMode {
    /// Passed through to the real environment; replay may differ.
    Live,
    /// Recorded on first capture and replayed.
    Recorded,
    /// Pinned to a deterministic synthetic value.
    Pinned,
    /// Unavailable in this configuration.
    Disabled,
}

/// Determinism policy: one mode per external source.
#[derive(Debug, Clone, Copy, PartialEq, Eq, Structural)]
pub struct ExternalStatePolicy {
    pub network: ExternalSourceMode,
    pub service_worker: ExternalSourceMode,
    pub web_socket: ExternalSourceMode,
    pub storage: ExternalSourceMode,
    pub random: ExternalSourceMode,
    pub crypto: ExternalSourceMode,
    pub timezone: ExternalSourceMode,
    pub locale: ExternalSourceMode,
    pub user_agent: ExternalSourceMode,
    pub third_party_iframes: ExternalSourceMode,
    pub media_devices: ExternalSourceMode,
}

/// Everything live except media devices, which are disabled.
pub open spec fn default_external_state() -> ExternalStatePolicy {
    ExternalStatePolicy {
        network: ExternalSourceMode::Live,
        service_worker: ExternalSourceMode::Live,
        web_socket: ExternalSourceMode::Live,
        storage: ExternalSourceMode::Live,
        random: ExternalSourceMode::Live,
        crypto: ExternalSourceMode::Live,
        timezone: ExternalSourceMode::Live,
        locale: ExternalSourceMode::Live,
        user_agent: ExternalSourceMode::Live,
        third_party_iframes: ExternalSourceMode::Live,
        media_devices: ExternalSourceMode::Disabled,
    }
}

impl Default for ExternalStatePolicy {
    fn default() -> (p: Self)
        ensures
            p == default_external_state(),
    {
        ExternalStatePolicy {
            network: ExternalSourceMode::Live,
            service_worker: ExternalSourceMode::Live,
            web_socket: ExternalSourceMode::Live,
            storage: ExternalSourceMode::Live,
            random: ExternalSourceMode::Live,
            crypto: ExternalSourceMode::Live,
            timezone: ExternalSourceMode::Live,
            locale: ExternalSourceMode::Live,
            user_agent: ExternalSourceMode::Live,
            third_party_iframes: ExternalSourceMode::Live,
            media_devices: ExternalSourceMode::Disabled,
        }
    }
}

#[derive(Debug, Clone, Copy, PartialEq, Eq, Structural)]
pub enum ClockPolicy {
    Pause,
    Advance,
}

#[derive(Debug, Clone, Copy, PartialEq, Eq, Structural)]
pub enum AdvanceOutcome {
    Advanced,
    StarvationHit,
    NetworkPending,
}

/// What a trigger waits for after dispatch.
#[derive(Debug, Clone, Copy, PartialEq, Eq, Structural)]
pub enum WaitPolicy {
    /// No explicit wait after dispatch.
    NoWait,
    UntilNetworkIdle,
    UntilNextFrame,
}

impl Default for WaitPolicy {
    fn default() -> (p: Self)
        ensures
            p == WaitPolicy::NoWait,
    {
        WaitPolicy::NoWait
    }
}

/// How a click / hover reaches the page: DOM dispatch or compositor input.
#[derive(Debug, Clone, Copy, PartialEq, Eq, Structural)]
pub enum InputMode {
    Js,
    Cdp,
}

impl Default for InputMode {
    fn default() -> (m: Self)
        ensures
            m == InputMode::Js,
    {
        InputMode::Js
    }
}

/// Truthful result of honouring a wait policy.
#[derive(Debug, Clone, Copy, PartialEq, Eq, Structural)]
pub enum WaitOutcome {
    NotRequested,
    Satisfied,
    TimedOut,
}

#[derive(Debug, Clone, Copy, PartialEq, Eq, Structural)]
pub enum ImageFormat {
    Png,
    Jpeg,
}

impl Default for ImageFormat {
    fn default() -> (f: Self)
        ensures
            f == ImageFormat::Png,
    {
        ImageFormat::Png
    }
}

#[derive(Debug, Clone, Copy, PartialEq, Eq, Structural)]
pub enum SourceKind {
    CssAnimation,
    CssTransition,
    WebAnimation,
    Raf,
    Timer,
    Media,
    ScrollDriven,
}

#[derive(Debug, Clone, Copy, PartialEq, Eq, Structural)]
pub enum LayoutAnomalyKind {
    HorizontalViewportOverflow,
    VerticalViewportOverflow,
    ContentClipped,
    OffScreen,
    OverlapStacking,
    TextEllipsisTruncated,
}

/// Options forwarded to the in-page layout probe.
#[derive(Debug, Clone)]
pub struct LayoutProbeOptions {
    pub selectors: Option<Vec<String>>,
    pub ignore_selectors: Option<Vec<String>>,
    pub match_selectors: Option<Vec<String>>,
    pub ignore_anomalies: Option<Vec<LayoutAnomalyKind>>,
    pub max_elements: Option<u32>,
}

impl Default for LayoutProbeOptions {
    fn default() -> (o: Self)
        ensures
            o.selectors is None,
            o.ignore_selectors is None,
            o.match_selectors is None,
            o.ignore_anomalies is None,
            o.max_elements is None,
    {
        LayoutProbeOptions {
            selectors: None,
            ignore_selectors: None,
            match_selectors: None,
            ignore_anomalies: None,
            max_elements: None,
        }
    }
}

#[derive(Debug, Clone, Copy, PartialEq, Eq, Structural)]
pub enum BisectReplayKind {
    /// The midpoint was ahead of the live clock; no replay was needed.
    NoReplay,
    Scratch,
}

#[derive(Debug, Clone, Copy, PartialEq, Eq, Structural)]
pub enum DetectionMethod {
    CdpAnimation,
    PreloadInstrumentation,
    Heuristic,
    NotSupported,
}

#[derive(Debug, Clone)]
pub struct ScrollDrivenSource {
    pub target_selector: Option<String>,
    pub axis: String,
    pub range_description: Option<String>,
}

/// Timer registrations counted by the preload instrumentation.
#[derive(Debug, Clone, Copy, PartialEq, Eq, Structural)]
pub struct TimerCounts {
    pub set_timeout_count: u32,
    pub set_interval_count: u32,
    pub set_timeout_active: u32,
    pub set_interval_active: u32,
    pub set_timeout_cancel_count: u32,
    pub set_interval_cancel_count: u32,
}

impl Default for TimerCounts {
    fn default() -> (c: Self)
        ensures
            c.set_timeout_count == 0 && c.set_interval_count == 0,
            c.set_timeout_active == 0 && c.set_interval_active == 0,
            c.set_timeout_cancel_count == 0 && c.set_interval_cancel_count == 0,
    {
        TimerCounts {
            set_timeout_count: 0,
            set_interval_count: 0,
            set_timeout_active: 0,
            set_interval_active: 0,
            set_timeout_cancel_count: 0,
            set_interval_cancel_count: 0,
        }
    }
}

/// A style property of one element that changed between two frames.
#[derive(Debug, Clone)]
pub struct StyleChange {
    pub selector: String,
    pub property: String,
    pub from: String,
    pub to: String,
}

pub struct StyleChangeView {
    pub selector: Seq<char>,
    pub property: Seq<char>,
    pub from: Seq<char>,
    pub to: Seq<char>,
}

impl View for StyleChange {
    type V = StyleChangeView;

    open spec fn view(&self) -> StyleChangeView {
        StyleChangeView { selector: self.selector@, property: self.property@, from: self.from@, to: self.to@ }
    }
}

/// Which detector produced a jank event.
#[derive(Debug, Clone, Copy, PartialEq, Eq, Structural)]
pub enum JankKind {
    PixelCvOutlier,
    PositionalTeleport,
}

/// Declared easing versus the majority of the fitted easings.
#[derive(Debug, Clone)]
pub struct EasingMatch {
    pub expected: String,
    pub observed: String,
    pub passes: bool,
}

pub struct EasingMatchView {
    pub expected: Seq<char>,
    pub observed: Seq<char>,
    pub passes: bool,
}

impl View for EasingMatch {
    type V = EasingMatchView;

    open spec fn view(&self) -> EasingMatchView {
        EasingMatchView { expected: self.expected@, observed: self.observed@, passes: self.passes }
    }
}

#[derive(Debug, Clone, Copy, PartialEq, Eq, Hash, Structural)]
pub enum EasingHint {
    Linear,
    Ease,
    EaseIn,
    EaseOut,
    EaseInOut,
    EaseInCubic,
    EaseOutCubic,
    EaseInOutCubic,
}

#[derive(Debug, Clone, Copy, PartialEq, Eq, Hash, Structural)]
pub enum MotionCategory {
    Fade,
    Translate,
    Scale,
    Rotate,
    ColorChange,
    Layout,
    Appearance,
    Disappearance,
    TextChange,
}

#[derive(Debug, Clone, Copy, PartialEq, Eq, Structural)]
pub enum VideoFormat {
    Gif,
    Apng,
}

impl Default for VideoFormat {
    fn default() -> (f: Self)
        ensures
            f == VideoFormat::Gif,
    {
        VideoFormat::Gif
    }
}

/// Full-page screenshot of the settled page.
#[derive(Debug, Clone)]
pub struct FullpageScreenshot {
    pub artifact_uri: String,
    pub artifact_local_path: String,
    pub width: u32,
    pub height: u32,
}

#[derive(Debug, Clone, Copy, PartialEq, Eq, Structural)]
pub enum RecipeInclude {
    Series,
    ContactSheet,
    Assessment,
}

/// How much a failed gate should be trusted.
#[derive(Debug, Clone, Copy, PartialEq, Eq, Structural)]
pub enum GateReliability {
    Correctness,
    Advisory,
}

/// One gate that a failing verdict is attributable to.
#[derive(Debug, Clone)]
pub struct FailedGate {
    pub gate: String,
    pub reliability: GateReliability,
    pub detail: String,
}

/// Canonical kebab-case label of a motion category.
pub open spec fn spec_motion_category_label(c: MotionCategory) -> Seq<char> {
    match c {
        MotionCategory::Fade => "fade"@,
        MotionCategory::Translate => "translate"@,
        MotionCategory::Scale => "scale"@,
        MotionCategory::Rotate => "rotate"@,
        MotionCategory::ColorChange => "color-change"@,
        MotionCategory::Layout => "layout"@,
        MotionCategory::Appearance => "appearance"@,
        MotionCategory::Disappearance => "disappearance"@,
        MotionCategory::TextChange => "text-change"@,
    }
}

pub fn motion_category_label(c: &MotionCategory) -> (s: &'static str)
    ensures
        s@ == spec_motion_category_label(*c),
{
    match c {
        MotionCategory::Fade => "fade",
        MotionCategory::Translate => "translate",
        MotionCategory::Scale => "scale",
        MotionCategory::Rotate => "rotate",
        MotionCategory::ColorChange => "color-change",
        MotionCategory::Layout => "layout",
        MotionCategory::Appearance => "appearance",
        MotionCategory::Disappearance => "disappearance",
        MotionCategory::TextChange => "text-change",
    }
}

/// Label of the easing template an easing hint is matched against.
/// `Ease` is fitted with the ease-in-out template.
pub open spec fn spec_easing_hint_label(h: EasingHint) -> Seq<char> {
    match h {
        EasingHint::Linear => "linear"@,
        EasingHint::Ease => "ease-in-out"@,
        EasingHint::EaseIn => "ease-in"@,
        EasingHint::EaseOut => "ease-out"@,
        EasingHint::EaseInOut => "ease-in-out"@,
        EasingHint::EaseInCubic => "ease-in-cubic"@,
        EasingHint::EaseOutCubic => "ease-out-cubic"@,
        EasingHint::EaseInOutCubic => "ease-in-out-cubic"@,
    }
}

pub fn easing_hint_label(h: EasingHint) -> (s: &'static str)
    ensures
        s@ == spec_easing_hint_label(h),
{
    match h {
        EasingHint::Linear => "linear",
        EasingHint::Ease => "ease-in-out",
        EasingHint::EaseIn => "ease-in",
        EasingHint::EaseOut => "ease-out",
        EasingHint::EaseInOut => "ease-in-out",
        EasingHint::EaseInCubic => "ease-in-cubic",
        EasingHint::EaseOutCubic => "ease-out-cubic",
        EasingHint::EaseInOutCubic => "ease-in-out-cubic",
    }
}


/// The variant name of a motion category, as `{:?}` prints it.
pub open spec fn spec_motion_category_name(c: MotionCategory) -> Seq<char> {
    match c {
        MotionCategory::Fade => "Fade"@,
        MotionCategory::Translate => "Translate"@,
        MotionCategory::Scale => "Scale"@,
        MotionCategory::Rotate => "Rotate"@,
        MotionCategory::ColorChange => "ColorChange"@,
        MotionCategory::Layout => "Layout"@,
        MotionCategory::Appearance => "Appearance"@,
        MotionCategory::Disappearance => "Disappearance"@,
        MotionCategory::TextChange => "TextChange"@,
    }
}

pub fn motion_category_name(c: MotionCategory) -> (s: &'static str)
    ensures
        s@ == spec_motion_category_name(c),
{
    match c {
        MotionCategory::Fade => "Fade",
        MotionCategory::Translate => "Translate",
        MotionCategory::Scale => "Scale",
        MotionCategory::Rotate => "Rotate",
        MotionCategory::ColorChange => "ColorChange",
        MotionCategory::Layout => "Layout",
        MotionCategory::Appearance => "Appearance",
        MotionCategory::Disappearance => "Disappearance",
        MotionCategory::TextChange => "TextChange",
    }
}

/// `{:?}` rendering of a list of motion categories: `[Fade, Translate]`.
pub open spec fn kinds_debug_text(kinds: Seq<MotionCategory>) -> Seq<char> {
    seq!['['] + join_seqs(kinds.map_values(|c: MotionCategory| spec_motion_category_name(c)), seq![',', ' ']) + seq![']']
}

pub fn debug_kind_list(kinds: &Vec<MotionCategory>) -> (r: String)
    ensures
        r@ == kinds_debug_text(kinds@),
{
    let mut names: Vec<String> = Vec::new();
    let n = kinds.len();
    let mut i: usize = 0;
    while i < n
        invariant
            n == kinds@.len(),
            i <= n,
            names@.len() == i,
            forall|j: int| 0 <= j < i ==> #[trigger] names@[j]@ == spec_motion_category_name(kinds@[j]),
        decreases n - i,
    {
        names.push(String::from_str(motion_category_name(kinds[i])));
        i = i + 1;
    }
    let inner = join_strings(&names, ", ");
    let mut r = String::from_str("[");
    r.append(inner.as_str());
    r.append("]");
    proof {
        reveal_strlit("[");
        reveal_strlit("]");
        reveal_strlit(", ");
        assert(string_views(names@) =~= kinds@.map_values(|c: MotionCategory| spec_motion_category_name(c)));
        assert(", "@ =~= seq![',', ' ']);
        assert(r@ =~= kinds_debug_text(kinds@));
    }
    r
}

} // verus!
