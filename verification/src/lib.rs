//! Recover the one human-readable plain-text body of a mail message, detect
//! its language, and choose the matching reply-attribution configuration.
//!
//! The heart of the crate is the body extractor in [`extract`]: a walk over a
//! parsed [`message::MessageTree`] that decides, with fixed preference and
//! fallback rules, which leaf's text is "the body".  HTML leaves are reduced
//! to plain text by [`html::unhtml`].  The language of the extracted body
//! picks one of two fixed attribution templates in [`language`], and
//! [`pipeline`] ties the stages together over raw message bytes.

use vstd::prelude::*;

pub mod extract;
pub mod html;
pub mod language;
pub mod message;
pub mod parse;
pub mod pipeline;

verus! {

/// How the pipeline can fail.  Each failure is classified once, where it
/// arises, and propagated unchanged.
#[derive(Clone, Copy, Debug, PartialEq, Eq, Structural)]
pub enum PipelineError {
    /// Every extraction rule was exhausted without finding a body, the
    /// message could not be parsed at all, or the input was empty.
    BodyUndetermined,
    /// The language classifier returned no confident answer for the body.
    LanguageUndetected,
}

} // verus!
