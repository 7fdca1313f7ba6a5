//! The tokenizer boundary: raw message bytes become a [`MessageTree`].
//!
//! Tokenizing RFC 5322 / MIME byte streams is the work of an outside
//! collaborator and is not verified here; this module converts its tree,
//! part by part, into the crate's own [`MessageTree`], on which the body
//! extractor is verified.  A malformed byte stream is rejected at this
//! boundary, before extraction begins.

use vstd::prelude::*;
use crate::message::MessageTree;

verus! {

#[verifier::external_type_specification]
#[verifier::external_body]
pub struct ExParsedMail<'a>(mailparse::ParsedMail<'a>);

/// What the tokenizer yields for raw message bytes: the parsed part tree,
/// every body decoded, or `None` where the message or one of its bodies
/// cannot be parsed.  Parsing reads nothing but the bytes, so its outcome
/// is one fixed function of them.
pub uninterp spec fn parsed_message(bytes: Seq<u8>) -> Option<MessageTree>;

/// Convert one parsed part, with all its subparts below it.
///
/// Relies on the `ctype.mimetype` and `subparts` fields of
/// `mailparse::ParsedMail` and on its `get_body`, which decodes a part's
/// transfer encoding and charset; a part whose body cannot be decoded
/// makes the whole conversion fail, as a malformed message does.
#[verifier::external_body]
fn tree_of<'a>(mail: &mailparse::ParsedMail<'a>) -> (r: Option<MessageTree>) {
    let body = match mail.get_body() {
        Ok(text) => text,
        Err(_) => return None,
    };
    let mut children = Vec::new();
    for part in &mail.subparts {
        match tree_of(part) {
            Some(child) => children.push(child),
            None => return None,
        }
    }
    Some(MessageTree { content_type: mail.ctype.mimetype.clone(), body, children })
}

/// Parse raw message bytes into a [`MessageTree`].
///
/// Relies on `mailparse::parse_mail` to build the part tree, and on the
/// conversion above to decode each part; both read nothing but the bytes,
/// so the outcome is named by [`parsed_message`].
#[verifier::external_body]
pub fn parse_message(email: &[u8]) -> (r: Option<MessageTree>)
    ensures
        r == parsed_message(email@),
{
    match mailparse::parse_mail(email) {
        Ok(mail) => tree_of(&mail),
        Err(_) => None,
    }
}

} // verus!
