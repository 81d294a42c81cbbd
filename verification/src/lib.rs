//! Verified core of the motionlens animation-evidence toolkit.
//!
//! The library holds the decision logic of the toolkit: identifiers,
//! artifact naming and URI resolution, the per-session episode ledger,
//! intent matching, transition classification, gate evaluation, the
//! diagnosis hints, frame comparison and export, and the reading of CSS
//! transform text.  Everything that drives a browser, touches the file
//! system or computes on floating-point samples lives in the companion
//! application crate, which hands plain values to these functions.

pub mod ids;
pub mod model;
pub mod text;
pub mod error;
pub mod paths;
pub mod artifact;
pub mod ledger;
pub mod intent;
pub mod classify;
pub mod gate;
pub mod sources;
pub mod js;
pub mod assess;
pub mod diagnosis;
pub mod pixels;
pub mod scroll;
pub mod video;
pub mod transform;
pub mod sheet;
pub mod report;
