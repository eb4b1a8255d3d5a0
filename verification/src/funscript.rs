//! The parts of a funscript that the library reads.

use vstd::prelude::*;

verus! {

/// A haptic script: positions over time.
#[derive(Debug, Clone, PartialEq)]
pub struct Funscript {
    pub actions: Vec<FunscriptAction>,
    pub inverted: bool,
    pub metadata: Option<FunscriptMetadata>,
    pub range: u64,
    pub version: String,
}

/// One position of the script.
#[derive(Debug, Clone, Copy, PartialEq, Eq)]
pub struct FunscriptAction {
    /// When, in milliseconds from the start.
    pub at: u64,
    /// Where.
    pub pos: u64,
}

/// What a script says of itself.
#[derive(Debug, Clone, PartialEq)]
pub struct FunscriptMetadata {
    pub creator: String,
    pub description: String,
    pub duration: u64,
    pub license: String,
    pub notes: String,
    pub performers: Vec<String>,
    pub script_url: String,
    pub tags: Vec<String>,
    pub title: String,
    /// The field `type` of the script.
    pub script_type: String,
    pub video_url: String,
}

} // verus!
