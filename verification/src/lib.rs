//! Renders diagram code blocks found in documentation markup through an
//! external rendering service, caching the rendered images on disk and
//! rewriting the surrounding event stream to reference the rendered output.
use vstd::prelude::*;

pub mod cache;
pub mod client;
pub mod classify;
pub mod config;
pub mod rewrite;

verus! {

/// The preprocessor as the host documentation pipeline sees it: a unit
/// value whose behaviour lives in the component modules.
#[derive(Debug, Default)]
pub struct DiagramsPreprocessor;

impl DiagramsPreprocessor {
    /// The preprocessor's stable name, as announced to the host pipeline.
    pub fn name(&self) -> (r: &'static str)
        ensures
            r@ == "diagrams"@,
    {
        "diagrams"
    }

    /// Every downstream renderer target is supported: a target other than
    /// the primary HTML renderer falls back to plain image references.
    pub fn supports_renderer(&self, _renderer: &str) -> (r: bool)
        ensures
            r,
    {
        true
    }
}

} // verus!
