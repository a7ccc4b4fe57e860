//! Core of an asset-acquisition pipeline: given a remote archive URL and a
//! logical asset identifier, the pipeline resolves a deterministic storage
//! directory, streams the download to a file while reporting fractional
//! progress, and optionally unpacks the archive into that directory.
//!
//! All decision logic lives here and is verified; the surrounding process
//! performs the actual network and filesystem effects.

pub mod archive;
pub mod fsmodel;
pub mod llm;
pub mod orchestrator;
pub mod paths;
pub mod presence;
pub mod progress;
pub mod text;

pub use llm::extract_think_to_end;
pub use paths::resolve;
