//! Tests of the full pipeline over raw message bytes, with the real
//! tokenizer and language classifier linked in.

use ottolangy::PipelineError;
use ottolangy::language::attribution_en_text;
use ottolangy::language::attribution_fr_text;
use ottolangy::language::body_attribution;
use ottolangy::language::select_template;
use ottolangy::pipeline::attribution_for_email;
use ottolangy::pipeline::get_email_body;

const FRENCH_BODY: &str = "Le soleil brille sur la ville et les enfants jouent dans le \
jardin pendant que leurs parents pr\u{e9}parent le d\u{e9}jeuner de dimanche.";

const ENGLISH_BODY: &str = "The quick brown fox jumps over the lazy dog and then runs \
far away into the quiet green forest before the rain begins.";

#[test]
fn plain_email_body_is_extracted() {
    let email = b"Subject: test\r\n\r\nThis is the body";
    assert_eq!(get_email_body(email), Ok("This is the body".to_string()));
}

#[test]
fn html_email_body_is_reduced() {
    let email = b"Content-Type: text/html\r\n\r\n<p>This is <b>the</b> body</p>";
    assert_eq!(get_email_body(email), Ok("This is the body".to_string()));
}

#[test]
fn alternative_email_prefers_plain() {
    let email = "Content-Type: multipart/alternative; boundary=\"delim\"\r\n\r\n\
--delim\r\nContent-Type: text/html\r\n\r\n<p>rich rendering</p>\r\n\
--delim\r\nContent-Type: text/plain\r\n\r\nplain rendering\r\n\
--delim--\r\n";
    assert_eq!(get_email_body(email.as_bytes()), Ok("plain rendering".to_string()));
}

#[test]
fn html_only_alternative_email_is_reduced() {
    let email = "Content-Type: multipart/alternative; boundary=\"delim\"\r\n\r\n\
--delim\r\nContent-Type: text/html\r\n\r\n<p>only rendering</p>\r\n\
--delim--\r\n";
    assert_eq!(get_email_body(email.as_bytes()), Ok("only rendering".to_string()));
}

#[test]
fn empty_input_is_undetermined_and_yields_no_template() {
    assert_eq!(get_email_body(b""), Err(PipelineError::BodyUndetermined));
    assert_eq!(attribution_for_email(b""), Err(PipelineError::BodyUndetermined));
}

#[test]
fn french_body_selects_french_template() {
    assert_eq!(body_attribution(FRENCH_BODY), Ok(attribution_fr_text()));
}

#[test]
fn english_body_selects_default_template() {
    assert_eq!(body_attribution(ENGLISH_BODY), Ok(attribution_en_text()));
}

#[test]
fn french_code_selects_french_template() {
    assert_eq!(select_template("fra"), attribution_fr_text());
}

#[test]
fn other_codes_select_default_template() {
    assert_eq!(select_template("eng"), attribution_en_text());
    assert_eq!(select_template("deu"), attribution_en_text());
    assert_eq!(select_template(""), attribution_en_text());
}

#[test]
fn templates_differ() {
    assert_ne!(attribution_fr_text(), attribution_en_text());
}

#[test]
fn french_template_text_is_exact() {
    assert_eq!(
        attribution_fr_text(),
        "set attribution = \"Le %{%e %b. %Y \u{e0} %H:%M %Z}, %f a \u{e9}crit:\"\n\
         set attribution_locale = \"fr_FR.UTF-8\"\n"
    );
}

#[test]
fn default_template_text_is_exact() {
    assert_eq!(
        attribution_en_text(),
        "set attribution = \"On %{%b %e, %Y, at %I:%M %p %Z}, %f wrote:\"\n\
         set attribution_locale = \"en_US.UTF-8\"\n"
    );
}

#[test]
fn french_email_end_to_end() {
    let email = format!("Subject: bonjour\r\n\r\n{}", FRENCH_BODY);
    assert_eq!(attribution_for_email(email.as_bytes()), Ok(attribution_fr_text()));
}

#[test]
fn english_email_end_to_end() {
    let email = format!("Subject: hello\r\n\r\n{}", ENGLISH_BODY);
    assert_eq!(attribution_for_email(email.as_bytes()), Ok(attribution_en_text()));
}

#[test]
fn undetectable_body_is_language_undetected() {
    assert_eq!(body_attribution(""), Err(PipelineError::LanguageUndetected));
    assert_eq!(body_attribution("4815162342"), Err(PipelineError::LanguageUndetected));
}

#[test]
fn email_with_empty_body_fails_language_detection() {
    let email = b"Subject: empty\r\n\r\n";
    assert_eq!(attribution_for_email(email), Err(PipelineError::LanguageUndetected));
}

#[test]
fn pipeline_is_idempotent_on_identical_input() {
    let email = format!("Subject: bonjour\r\n\r\n{}", FRENCH_BODY);
    let first = attribution_for_email(email.as_bytes());
    let second = attribution_for_email(email.as_bytes());
    assert_eq!(first, second);

    let failing = attribution_for_email(b"");
    let failing_again = attribution_for_email(b"");
    assert_eq!(failing, failing_again);
}
