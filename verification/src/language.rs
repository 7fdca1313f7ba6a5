//! Language detection and the choice between the two attribution templates.
//!
//! The classifier is an outside collaborator; the selector is a pure
//! two-way branch: French selects the French template, every other
//! detected language the English/default one.  Only these two buckets
//! exist — this is an intentional binary simplification, not localization.

use vstd::prelude::*;
use vstd::string::StringExecFns;
use crate::PipelineError;
use crate::message::str_eq;

verus! {

/// The language the classifier assigns to a text: the ISO 639-3 code of
/// the detected language, or `None` where confidence is too low or the
/// text is unsuitable.  The classification reads nothing but the text, so
/// its outcome is one fixed function of it.
pub uninterp spec fn detected_language(text: Seq<char>) -> Option<Seq<char>>;

/// Classify the natural language of a text.
///
/// Relies on `whatlang::detect_lang` for the detection and on
/// `whatlang::Lang::code` for the ISO 639-3 code of what was detected;
/// both are pure functions of their arguments, so the outcome is named by
/// [`detected_language`].
#[verifier::external_body]
fn detect_language(text: &str) -> (r: Option<String>)
    ensures
        r matches Some(code) ==> detected_language(text@) == Some(code@),
        r is None ==> detected_language(text@) is None,
{
    whatlang::detect_lang(text).map(|lang| lang.code().to_string())
}

/// The reply-attribution configuration for French messages.
pub open spec fn attribution_fr() -> Seq<char> {
    "set attribution = \"Le %{%e %b. %Y \u{e0} %H:%M %Z}, %f a \u{e9}crit:\"\nset attribution_locale = \"fr_FR.UTF-8\"\n"@
}

/// The reply-attribution configuration for every other language.
pub open spec fn attribution_en() -> Seq<char> {
    "set attribution = \"On %{%b %e, %Y, at %I:%M %p %Z}, %f wrote:\"\nset attribution_locale = \"en_US.UTF-8\"\n"@
}

/// The French attribution template, as text.
pub fn attribution_fr_text() -> (r: String)
    ensures
        r@ == attribution_fr(),
{
    String::from_str(
        "set attribution = \"Le %{%e %b. %Y \u{e0} %H:%M %Z}, %f a \u{e9}crit:\"\nset attribution_locale = \"fr_FR.UTF-8\"\n",
    )
}

/// The English/default attribution template, as text.
pub fn attribution_en_text() -> (r: String)
    ensures
        r@ == attribution_en(),
{
    String::from_str(
        "set attribution = \"On %{%b %e, %Y, at %I:%M %p %Z}, %f wrote:\"\nset attribution_locale = \"en_US.UTF-8\"\n",
    )
}

/// Which template a detected language selects: the French text for the
/// French code, the English/default text for every other code.
pub open spec fn spec_select_template(code: Seq<char>) -> Seq<char> {
    if code == "fra"@ {
        attribution_fr()
    } else {
        attribution_en()
    }
}

/// Select the attribution template for a detected language code.
pub fn select_template(code: &str) -> (r: String)
    ensures
        r@ == spec_select_template(code@),
{
    if str_eq(code, "fra") {
        attribution_fr_text()
    } else {
        attribution_en_text()
    }
}

/// The selector is exact and two-valued: French yields the French
/// template and nothing else; every other code yields the English/default
/// template and nothing else — and the two templates differ.
pub proof fn lemma_template_choice(code: Seq<char>)
    ensures
        code == "fra"@ ==> spec_select_template(code) == attribution_fr(),
        code != "fra"@ ==> spec_select_template(code) == attribution_en(),
        attribution_fr() != attribution_en(),
{
    reveal_strlit(
        "set attribution = \"Le %{%e %b. %Y \u{e0} %H:%M %Z}, %f a \u{e9}crit:\"\nset attribution_locale = \"fr_FR.UTF-8\"\n",
    );
    reveal_strlit(
        "set attribution = \"On %{%b %e, %Y, at %I:%M %p %Z}, %f wrote:\"\nset attribution_locale = \"en_US.UTF-8\"\n",
    );
    assert(attribution_fr()[19] != attribution_en()[19]);
}

/// What language handling yields for an extracted body: the template of
/// the detected language, or failure when no language is detected.  An
/// undetected language is a hard failure, never a default-language
/// fallback.
pub open spec fn spec_body_attribution(body: Seq<char>) -> Result<Seq<char>, PipelineError> {
    match detected_language(body) {
        Some(code) => Ok(spec_select_template(code)),
        None => Err(PipelineError::LanguageUndetected),
    }
}

/// Detect the language of an extracted body and select the attribution
/// template for it.
pub fn body_attribution(body: &str) -> (r: Result<String, PipelineError>)
    ensures
        r matches Ok(text) ==> spec_body_attribution(body@) == Ok::<Seq<char>, PipelineError>(
            text@,
        ),
        r matches Err(e) ==> spec_body_attribution(body@) == Err::<Seq<char>, PipelineError>(e),
{
    match detect_language(body) {
        Some(code) => Ok(select_template(code.as_str())),
        None => Err(PipelineError::LanguageUndetected),
    }
}

} // verus!
