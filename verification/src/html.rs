//! Reducing an HTML fragment to plain text by removing tag markup.
//!
//! The reduction is lossy and best-effort: every angle-bracket-delimited
//! span `<...>` is removed, character entities are left as they stand, and
//! nothing else changes.

use vstd::prelude::*;
use vstd::string::StrSliceExecFns;

verus! {

/// Index of the first `'>'` in `s`, or `-1` when no character of `s` is `'>'`.
pub open spec fn first_close(s: Seq<char>) -> int
    decreases s.len(),
{
    if s.len() == 0 {
        -1
    } else if s[0] == '>' {
        0
    } else if first_close(s.drop_first()) < 0 {
        -1
    } else {
        1 + first_close(s.drop_first())
    }
}

/// `first_close` finds exactly the first `'>'`: when it is not `-1` it lies
/// in bounds, holds `'>'`, and nothing before it does; `-1` means `s` holds
/// no `'>'` at all.
pub proof fn lemma_first_close(s: Seq<char>)
    ensures
        first_close(s) == -1 <==> (forall|i: int| 0 <= i < s.len() ==> s[i] != '>'),
        first_close(s) != -1 ==> 0 <= first_close(s) < s.len(),
        first_close(s) != -1 ==> s[first_close(s)] == '>',
        forall|i: int| 0 <= i < first_close(s) ==> s[i] != '>',
    decreases s.len(),
{
    if s.len() == 0 {
    } else if s[0] == '>' {
    } else {
        let t = s.drop_first();
        lemma_first_close(t);
        assert(forall|i: int| 1 <= i < s.len() ==> #[trigger] s[i] == t[i - 1]);
        if first_close(t) < 0 {
            assert(forall|i: int| 0 <= i < s.len() ==> #[trigger] s[i] != '>') by {
                assert(forall|j: int| 0 <= j < t.len() ==> #[trigger] t[j] != '>');
            }
        } else {
            let c = first_close(t);
            assert(first_close(s) == 1 + c);
            assert(s[1 + c] == t[c]);
            assert(forall|i: int| 0 <= i < 1 + c ==> #[trigger] s[i] != '>') by {
                assert(forall|j: int| 0 <= j < c ==> #[trigger] t[j] != '>');
            }
            assert(!(forall|i: int| 0 <= i < s.len() ==> #[trigger] s[i] != '>')) by {
                assert(s[1 + c] == '>');
            }
        }
    }
}

/// The text of `s` with every angle-bracket tag span removed: a `'<'` that
/// is followed, anywhere later, by a `'>'` opens a span, and everything from
/// the `'<'` through the first such `'>'` is dropped; every other character
/// is kept, in order.  A `'<'` with no `'>'` anywhere after it delimits
/// nothing and is kept, together with all that follows it.
pub open spec fn strip_tags(s: Seq<char>) -> Seq<char>
    decreases s.len(),
{
    if s.len() == 0 {
        s
    } else if s[0] == '<' && 0 <= first_close(s) < s.len() {
        strip_tags(s.skip(first_close(s) + 1))
    } else {
        seq![s[0]] + strip_tags(s.drop_first())
    }
}

/// Text that holds no `'<'` passes through the reducer unchanged.
pub proof fn lemma_strip_tags_plain(s: Seq<char>)
    requires
        forall|i: int| 0 <= i < s.len() ==> s[i] != '<',
    ensures
        strip_tags(s) == s,
    decreases s.len(),
{
    if s.len() > 0 {
        let t = s.drop_first();
        assert(forall|i: int| 0 <= i < t.len() ==> #[trigger] t[i] == s[i + 1]);
        lemma_strip_tags_plain(t);
        assert(seq![s[0]] + t =~= s);
    }
}

/// At a position that opens no tag span, `strip_tags` of the suffix keeps
/// that one character and goes on behind it.
proof fn lemma_strip_keep(s: Seq<char>, i: int)
    requires
        0 <= i < s.len(),
        s[i] != '<',
    ensures
        strip_tags(s.skip(i)) == seq![s[i]] + strip_tags(s.skip(i + 1)),
{
    let t = s.skip(i);
    assert(t[0] == s[i]);
    assert(t.drop_first() =~= s.skip(i + 1));
}

/// When nothing from position `i` on is a `'>'`, the whole suffix is kept.
proof fn lemma_strip_plain_tail(s: Seq<char>, i: int)
    requires
        0 <= i <= s.len(),
        forall|m: int| i <= m < s.len() ==> s[m] != '>',
    ensures
        strip_tags(s.skip(i)) == s.skip(i),
    decreases s.len() - i,
{
    let t = s.skip(i);
    if i < s.len() {
        assert(forall|k: int| 0 <= k < t.len() ==> #[trigger] t[k] == s[i + k]);
        lemma_first_close(t);
        assert(first_close(t) == -1);
        lemma_strip_plain_tail(s, i + 1);
        assert(t.drop_first() =~= s.skip(i + 1));
        assert(seq![t[0]] + s.skip(i + 1) =~= t);
    } else {
        assert(t.len() == 0);
    }
}

/// A tag span starting at `i` and closed first at `j` is dropped whole.
proof fn lemma_strip_tag(s: Seq<char>, i: int, j: int)
    requires
        0 <= i < s.len(),
        s[i] == '<',
        i < j < s.len(),
        s[j] == '>',
        forall|m: int| i < m < j ==> s[m] != '>',
    ensures
        strip_tags(s.skip(i)) == strip_tags(s.skip(j + 1)),
{
    let t = s.skip(i);
    assert(forall|k: int| 0 <= k < t.len() ==> #[trigger] t[k] == s[i + k]);
    lemma_first_close(t);
    assert(t[j - i] == '>');
    assert(first_close(t) != -1) by {
        assert(!(forall|k: int| 0 <= k < t.len() ==> t[k] != '>')) by {
            assert(t[j - i] == '>');
        }
    }
    let c = first_close(t);
    assert(t[c] == '>');
    assert(c >= j - i) by {
        if c < j - i {
            if c == 0 {
                assert(t[0] == s[i]);
            } else {
                assert(s[i + c] != '>');
            }
        }
    }
    assert(c <= j - i);
    assert(t.skip(c + 1) =~= s.skip(j + 1));
}

/// Find the first `'>'` at or after `from`.
fn find_close(s: &str, from: usize, n: usize) -> (r: Option<usize>)
    requires
        n == s@.len(),
        from <= n,
    ensures
        match r {
            Some(j) => {
                &&& from <= j < n
                &&& s@[j as int] == '>'
                &&& forall|m: int| from <= m < j ==> s@[m] != '>'
            },
            None => forall|m: int| from <= m < n ==> s@[m] != '>',
        },
{
    let mut j = from;
    while j < n
        invariant
            n == s@.len(),
            from <= j <= n,
            forall|m: int| from <= m < j ==> s@[m] != '>',
        decreases n - j,
    {
        if s.get_char(j) == '>' {
            return Some(j);
        }
        j = j + 1;
    }
    None
}

/// Remove every tag span of `html`, keeping all other text in order.
///
/// This is the HTML reducer of the pipeline: the returned string is exactly
/// [`strip_tags`] of the input.  Entities are not decoded.
pub fn unhtml(html: &str) -> (r: String)
    ensures
        r@ == strip_tags(html@),
{
    let n = html.unicode_len();
    let mut out = String::new();
    let mut i: usize = 0;
    proof {
        assert(html@.skip(0) =~= html@);
        assert(Seq::<char>::empty() + strip_tags(html@) =~= strip_tags(html@));
    }
    while i < n
        invariant
            n == html@.len(),
            i <= n,
            strip_tags(html@) == out@ + strip_tags(html@.skip(i as int)),
        decreases n - i,
    {
        let c = html.get_char(i);
        if c == '<' {
            match find_close(html, i + 1, n) {
                Some(j) => {
                    proof {
                        lemma_strip_tag(html@, i as int, j as int);
                    }
                    i = j + 1;
                }
                None => {
                    let rest = html.substring_char(i, n);
                    proof {
                        lemma_strip_plain_tail(html@, i as int);
                        assert(html@.skip(n as int) =~= Seq::<char>::empty());
                        assert((out@ + html@.skip(i as int)) + Seq::<char>::empty() =~= out@
                            + html@.skip(i as int));
                    }
                    out.append(rest);
                    i = n;
                }
            }
        } else {
            let piece = html.substring_char(i, i + 1);
            proof {
                lemma_strip_keep(html@, i as int);
                assert(piece@ =~= seq![html@[i as int]]);
                assert((out@ + seq![html@[i as int]]) + strip_tags(html@.skip(i + 1)) =~= out@
                    + (seq![html@[i as int]] + strip_tags(html@.skip(i + 1))));
            }
            out.append(piece);
            i = i + 1;
        }
    }
    proof {
        assert(html@.skip(n as int) =~= Seq::<char>::empty());
        assert(out@ + Seq::<char>::empty() =~= out@);
    }
    out
}

} // verus!
