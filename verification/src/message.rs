//! The parsed shape of a mail message that the body extractor walks.

use vstd::prelude::*;
use vstd::string::StringExecFns;

verus! {

/// One node of a parsed MIME message.
///
/// A leaf part (`children` empty) carries literal text in `body`; a
/// multipart container carries its parts, in document order, in `children`.
/// The order of `children` is significant: the extractor lets the first
/// match win.
pub struct MessageTree {
    /// MIME type/subtype, such as `text/plain` or `multipart/alternative`.
    pub content_type: String,
    /// Decoded body text.  Meaningful for leaf parts.
    pub body: String,
    /// The nested parts, in the order they stand in the message.
    pub children: Vec<MessageTree>,
}

/// True when two strings hold the same characters.
pub fn str_eq(a: &str, b: &str) -> (r: bool)
    ensures
        r == (a@ == b@),
{
    let a_owned = String::from_str(a);
    let b_owned = String::from_str(b);
    a_owned == b_owned
}

} // verus!
