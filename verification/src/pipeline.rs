//! The full pipeline over raw message bytes: parse, extract the body,
//! detect its language, select the attribution template.
//!
//! A failure at any stage aborts the rest: a body whose language cannot be
//! detected never reaches a template, and the caller writes no output file
//! on any failure.

use vstd::prelude::*;
use crate::PipelineError;
use crate::extract::extract_body;
use crate::extract::spec_extract;
use crate::language::body_attribution;
use crate::language::spec_body_attribution;
use crate::parse::parse_message;
use crate::parse::parsed_message;

verus! {

/// What body extraction yields for raw input bytes: the extracted body,
/// or an undetermined-body failure when the input is empty, unparseable,
/// or exhausts every extraction rule.
pub open spec fn spec_email_body(bytes: Seq<u8>) -> Result<Seq<char>, PipelineError> {
    if bytes.len() == 0 {
        Err(PipelineError::BodyUndetermined)
    } else {
        match parsed_message(bytes) {
            Some(tree) => match spec_extract(tree) {
                Some(body) => Ok(body),
                None => Err(PipelineError::BodyUndetermined),
            },
            None => Err(PipelineError::BodyUndetermined),
        }
    }
}

/// Extract the one plain-text body from a raw email.
///
/// Empty input is rejected at once; anything else is parsed and walked by
/// the extractor, exactly as [`spec_email_body`] says.
pub fn get_email_body(email: &[u8]) -> (r: Result<String, PipelineError>)
    ensures
        r matches Ok(body) ==> spec_email_body(email@) == Ok::<Seq<char>, PipelineError>(body@),
        r matches Err(e) ==> spec_email_body(email@) == Err::<Seq<char>, PipelineError>(e),
{
    if email.len() == 0 {
        return Err(PipelineError::BodyUndetermined);
    }
    match parse_message(email) {
        Some(tree) => extract_body(&tree),
        None => Err(PipelineError::BodyUndetermined),
    }
}

/// What the whole pipeline yields for raw input bytes: the attribution
/// template of the extracted body's language, or the first failure.
pub open spec fn spec_attribution(bytes: Seq<u8>) -> Result<Seq<char>, PipelineError> {
    match spec_email_body(bytes) {
        Ok(body) => spec_body_attribution(body),
        Err(e) => Err(e),
    }
}

/// The exec outcome `r` is the one the specification assigns to `bytes`.
pub open spec fn outcome_matches(r: Result<String, PipelineError>, bytes: Seq<u8>) -> bool {
    match r {
        Ok(text) => spec_attribution(bytes) == Ok::<Seq<char>, PipelineError>(text@),
        Err(e) => spec_attribution(bytes) == Err::<Seq<char>, PipelineError>(e),
    }
}

/// Run the whole pipeline on a raw email: the selected attribution
/// configuration for its body's language, or the first failure on the
/// way there.
pub fn attribution_for_email(email: &[u8]) -> (r: Result<String, PipelineError>)
    ensures
        outcome_matches(r, email@),
{
    match get_email_body(email) {
        Ok(body) => body_attribution(body.as_str()),
        Err(e) => Err(e),
    }
}

/// Run twice on identical input, the pipeline comes out identically: its
/// outcome is one fixed function of the input bytes.  A caller that
/// overwrites its destination file therefore leaves, after two runs, the
/// same file as after one — nothing accumulates.
pub proof fn lemma_pipeline_idempotent(
    bytes: Seq<u8>,
    r1: Result<String, PipelineError>,
    r2: Result<String, PipelineError>,
)
    requires
        outcome_matches(r1, bytes),
        outcome_matches(r2, bytes),
    ensures
        r1 is Ok <==> r2 is Ok,
        r1 matches Ok(a) ==> (r2 matches Ok(b) && a@ == b@),
        r1 matches Err(e1) ==> (r2 matches Err(e2) && e1 == e2),
{
}

/// Empty input fails at once with an undetermined body: no language is
/// detected, no template selected, and a caller that writes only on
/// success writes no output file.
pub proof fn lemma_empty_input_rejected(bytes: Seq<u8>)
    requires
        bytes.len() == 0,
    ensures
        spec_attribution(bytes) == Err::<Seq<char>, PipelineError>(PipelineError::BodyUndetermined),
{
}

} // verus!
