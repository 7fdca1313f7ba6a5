//! The body extractor: choosing the one plain-text body of a message tree.
//!
//! The walk is depth-first and the first match wins at every level.  A
//! message without parts is its own body (reduced from HTML when its type
//! says so).  The parts of a multipart container are searched in document
//! order, twice: the first pass prefers a nested `multipart/alternative`
//! container (which is unwrapped transparently, its outcome final) or a
//! `text/plain` part; only when the first pass matched nothing does the
//! second pass take the first `text/html` part, reduced to plain text.
//!
//! The HTML fallback tests the candidate part's own content type, not the
//! enclosing container's: this is a deliberate reading of an ambiguity in
//! the observed behaviour, made explicit here and covered by tests.

use vstd::prelude::*;
use crate::PipelineError;
use crate::html::strip_tags;
use crate::html::unhtml;
use crate::message::MessageTree;
use crate::message::str_eq;

verus! {

/// The part is a nested alternative container.
pub open spec fn is_alternative(t: MessageTree) -> bool {
    t.content_type@ == "multipart/alternative"@
}

/// The part is plain text, the preferred outcome.
pub open spec fn is_plain(t: MessageTree) -> bool {
    t.content_type@ == "text/plain"@
}

/// The part is HTML, eligible only as a fallback.
pub open spec fn is_html(t: MessageTree) -> bool {
    t.content_type@ == "text/html"@
}

/// First pass over sibling parts, in document order: `None` when no part
/// matched a rule, `Some(outcome)` when one did.  The first matching part
/// decides: a nested alternative container's parts are searched in its
/// stead (and their outcome, success or failure, is final); a `text/plain`
/// part contributes its body untouched.
pub open spec fn first_pass(parts: Seq<MessageTree>) -> Option<Option<Seq<char>>>
    decreases parts, 0int,
{
    if parts.len() == 0 {
        None
    } else if is_alternative(parts[0]) {
        Some(parts_extract(parts[0].children@))
    } else if is_plain(parts[0]) {
        Some(Some(parts[0].body@))
    } else {
        first_pass(parts.drop_first())
    }
}

/// Second pass, the HTML fallback: the body of the first part whose own
/// content type is `text/html`, with its tag spans removed.
pub open spec fn second_pass(parts: Seq<MessageTree>) -> Option<Seq<char>>
    decreases parts,
{
    if parts.len() == 0 {
        None
    } else if is_html(parts[0]) {
        Some(strip_tags(parts[0].body@))
    } else {
        second_pass(parts.drop_first())
    }
}

/// What extraction yields for the parts of a multipart container: the
/// first pass where it matched, the HTML fallback otherwise; `None` when
/// both passes were exhausted and the body is undetermined.
pub open spec fn parts_extract(parts: Seq<MessageTree>) -> Option<Seq<char>>
    decreases parts, 1int,
{
    match first_pass(parts) {
        Some(outcome) => outcome,
        None => second_pass(parts),
    }
}

/// The extracted body of a whole message: a leaf's own text (reduced when
/// the leaf is HTML), or the outcome of the two passes over its parts.
pub open spec fn spec_extract(t: MessageTree) -> Option<Seq<char>> {
    if t.children@.len() == 0 {
        if is_html(t) {
            Some(strip_tags(t.body@))
        } else {
            Some(t.body@)
        }
    } else {
        parts_extract(t.children@)
    }
}

/// The three content types the extractor distinguishes differ pairwise.
proof fn lemma_types_distinct()
    ensures
        "text/plain"@ != "text/html"@,
        "text/plain"@ != "multipart/alternative"@,
        "text/html"@ != "multipart/alternative"@,
{
    reveal_strlit("text/plain");
    reveal_strlit("text/html");
    reveal_strlit("multipart/alternative");
    assert("text/plain"@.len() == 10);
    assert("text/html"@.len() == 9);
    assert("multipart/alternative"@.len() == 21);
}

/// A message of a single `text/plain` part yields its body unchanged.
pub proof fn lemma_single_plain_identity(t: MessageTree)
    requires
        t.children@.len() == 0,
        is_plain(t),
    ensures
        spec_extract(t) == Some(t.body@),
{
    lemma_types_distinct();
}

/// A message of a single `text/html` part yields its body with every tag
/// span removed and all other text kept, in order.
pub proof fn lemma_single_html_reduced(t: MessageTree)
    requires
        t.children@.len() == 0,
        is_html(t),
    ensures
        spec_extract(t) == Some(strip_tags(t.body@)),
{
}

/// The first part that matches the first pass being `text/plain`, the
/// first pass yields its body untouched.
proof fn lemma_first_pass_plain(parts: Seq<MessageTree>, i: int)
    requires
        0 <= i < parts.len(),
        is_plain(parts[i]),
        forall|k: int|
            0 <= k < i ==> !is_alternative(#[trigger] parts[k]) && !is_plain(parts[k]),
    ensures
        first_pass(parts) == Some(Some(parts[i].body@)),
    decreases parts.len(),
{
    lemma_types_distinct();
    if i == 0 {
    } else {
        let t = parts.drop_first();
        assert(forall|k: int| 0 <= k < t.len() ==> #[trigger] t[k] == parts[k + 1]);
        lemma_first_pass_plain(t, i - 1);
    }
}

/// The first part that matches the first pass being a nested alternative
/// container, the first pass takes the outcome of that container's parts.
proof fn lemma_first_pass_alternative(parts: Seq<MessageTree>, i: int)
    requires
        0 <= i < parts.len(),
        is_alternative(parts[i]),
        forall|k: int|
            0 <= k < i ==> !is_alternative(#[trigger] parts[k]) && !is_plain(parts[k]),
    ensures
        first_pass(parts) == Some(parts_extract(parts[i].children@)),
    decreases parts.len(),
{
    if i == 0 {
    } else {
        let t = parts.drop_first();
        assert(forall|k: int| 0 <= k < t.len() ==> #[trigger] t[k] == parts[k + 1]);
        lemma_first_pass_alternative(t, i - 1);
    }
}

/// Among sibling parts that are all plain or HTML, a `text/plain` part
/// wins wherever it stands, and the first one wins: its body is returned
/// untouched, whatever HTML stands before or after it.
pub proof fn lemma_plain_beats_html(parts: Seq<MessageTree>, i: int)
    requires
        forall|k: int|
            0 <= k < parts.len() ==> is_plain(#[trigger] parts[k]) || is_html(parts[k]),
        0 <= i < parts.len(),
        is_plain(parts[i]),
        forall|k: int| 0 <= k < i ==> !is_plain(#[trigger] parts[k]),
    ensures
        parts_extract(parts) == Some(parts[i].body@),
{
    lemma_types_distinct();
    assert(forall|k: int|
        0 <= k < i ==> !is_alternative(#[trigger] parts[k]) && !is_plain(parts[k]));
    lemma_first_pass_plain(parts, i);
}

/// Where no sibling is a nested alternative and none is `text/plain`, the
/// first pass matches nothing.
proof fn lemma_first_pass_none(parts: Seq<MessageTree>)
    requires
        forall|k: int|
            0 <= k < parts.len() ==> !is_alternative(#[trigger] parts[k]) && !is_plain(parts[k]),
    ensures
        first_pass(parts) is None,
    decreases parts.len(),
{
    if parts.len() > 0 {
        let t = parts.drop_first();
        assert(forall|k: int| 0 <= k < t.len() ==> #[trigger] t[k] == parts[k + 1]);
        lemma_first_pass_none(t);
    }
}

/// With no plain part and no nested alternative among the siblings, the
/// first `text/html` part supplies the body, its tag spans stripped.
pub proof fn lemma_html_fallback(parts: Seq<MessageTree>, i: int)
    requires
        forall|k: int|
            0 <= k < parts.len() ==> !is_alternative(#[trigger] parts[k]) && !is_plain(parts[k]),
        0 <= i < parts.len(),
        is_html(parts[i]),
        forall|k: int| 0 <= k < i ==> !is_html(#[trigger] parts[k]),
    ensures
        parts_extract(parts) == Some(strip_tags(parts[i].body@)),
    decreases parts.len(),
{
    lemma_first_pass_none(parts);
    if i == 0 {
    } else {
        let t = parts.drop_first();
        assert(forall|k: int| 0 <= k < t.len() ==> #[trigger] t[k] == parts[k + 1]);
        lemma_html_fallback(t, i - 1);
    }
}

/// The first part that matches the first pass being a nested alternative
/// container, that container is unwrapped transparently: extraction goes
/// on with its own parts, and their outcome — success or failure — is
/// final.
pub proof fn lemma_nested_alternative(parts: Seq<MessageTree>, i: int)
    requires
        0 <= i < parts.len(),
        is_alternative(parts[i]),
        forall|k: int|
            0 <= k < i ==> !is_alternative(#[trigger] parts[k]) && !is_plain(parts[k]),
    ensures
        parts_extract(parts) == parts_extract(parts[i].children@),
{
    lemma_first_pass_alternative(parts, i);
}

/// Nested alternatives recurse to the innermost plain body: when the first
/// part is an alternative container whose own parts are all plain or HTML
/// with a `text/plain` among them, that innermost first plain body is the
/// result.
pub proof fn lemma_nested_alternative_plain(parts: Seq<MessageTree>, i: int)
    requires
        parts.len() > 0,
        is_alternative(parts[0]),
        forall|k: int|
            0 <= k < parts[0].children@.len() ==> is_plain(#[trigger] parts[0].children@[k])
                || is_html(parts[0].children@[k]),
        0 <= i < parts[0].children@.len(),
        is_plain(parts[0].children@[i]),
        forall|k: int| 0 <= k < i ==> !is_plain(#[trigger] parts[0].children@[k]),
    ensures
        parts_extract(parts) == Some(parts[0].children@[i].body@),
{
    lemma_nested_alternative(parts, 0);
    lemma_plain_beats_html(parts[0].children@, i);
}

/// When no sibling is a nested alternative, none is `text/plain`, and none
/// is `text/html`, both passes are exhausted: the body is undetermined,
/// and never an empty string.
pub proof fn lemma_no_candidate(parts: Seq<MessageTree>)
    requires
        forall|k: int|
            0 <= k < parts.len() ==> !is_alternative(#[trigger] parts[k]) && !is_plain(parts[k])
                && !is_html(parts[k]),
    ensures
        parts_extract(parts) is None,
    decreases parts.len(),
{
    lemma_first_pass_none(parts);
    if parts.len() > 0 {
        let t = parts.drop_first();
        assert(forall|k: int| 0 <= k < t.len() ==> #[trigger] t[k] == parts[k + 1]);
        lemma_no_candidate(t);
    }
}

/// Search the parts of a multipart container for the body, in document
/// order, preferring `text/plain` and nested alternatives over the HTML
/// fallback, exactly as [`parts_extract`] says.
pub fn extract_parts(parts: &Vec<MessageTree>) -> (r: Result<String, PipelineError>)
    ensures
        r matches Ok(body) ==> parts_extract(parts@) == Some(body@),
        r matches Err(e) ==> parts_extract(parts@) is None && e == PipelineError::BodyUndetermined,
    decreases parts@,
{
    let n = parts.len();
    let mut i: usize = 0;
    proof {
        assert(parts@.skip(0) =~= parts@);
    }
    while i < n
        invariant
            n == parts@.len(),
            i <= n,
            first_pass(parts@) == first_pass(parts@.skip(i as int)),
        decreases n - i,
    {
        proof {
            assert(parts@.skip(i as int)[0] == parts@[i as int]);
            assert(parts@.skip(i as int).drop_first() =~= parts@.skip(i as int + 1));
        }
        let part = &parts[i];
        if str_eq(part.content_type.as_str(), "multipart/alternative") {
            proof {
                assert(decreases_to!(parts@ => parts@[i as int]));
                assert(decreases_to!(parts@[i as int] => parts@[i as int].children));
                assert(decreases_to!(parts@[i as int].children => parts@[i as int].children@));
                assert(decreases_to!(parts@ => parts@[i as int].children@));
            }
            return extract_parts(&part.children);
        }
        if str_eq(part.content_type.as_str(), "text/plain") {
            return Ok(part.body.clone());
        }
        i = i + 1;
    }
    proof {
        assert(parts@.skip(n as int) =~= Seq::<MessageTree>::empty());
    }
    let mut j: usize = 0;
    proof {
        assert(parts@.skip(0) =~= parts@);
    }
    while j < n
        invariant
            n == parts@.len(),
            j <= n,
            first_pass(parts@) is None,
            second_pass(parts@) == second_pass(parts@.skip(j as int)),
        decreases n - j,
    {
        proof {
            assert(parts@.skip(j as int)[0] == parts@[j as int]);
            assert(parts@.skip(j as int).drop_first() =~= parts@.skip(j as int + 1));
        }
        let part = &parts[j];
        if str_eq(part.content_type.as_str(), "text/html") {
            return Ok(unhtml(part.body.as_str()));
        }
        j = j + 1;
    }
    proof {
        assert(parts@.skip(n as int) =~= Seq::<MessageTree>::empty());
    }
    Err(PipelineError::BodyUndetermined)
}

/// Extract the one plain-text body of a message, or fail when no rule
/// finds one.  The result is exactly [`spec_extract`] of the tree.
pub fn extract_body(t: &MessageTree) -> (r: Result<String, PipelineError>)
    ensures
        r matches Ok(body) ==> spec_extract(*t) == Some(body@),
        r matches Err(e) ==> spec_extract(*t) is None && e == PipelineError::BodyUndetermined,
{
    if t.children.len() == 0 {
        if str_eq(t.content_type.as_str(), "text/html") {
            Ok(unhtml(t.body.as_str()))
        } else {
            Ok(t.body.clone())
        }
    } else {
        extract_parts(&t.children)
    }
}

} // verus!
