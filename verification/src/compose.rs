//! Rewriting image references inside a stack-definition document.
//!
//! The transform is textual: every occurrence of `image:` followed by
//! optional white space, the base name, a colon and a version token (ASCII
//! letters, digits, `.`, `-`, `_`) has only the version token replaced by the
//! new version; everything else, quotes included, stays byte-identical.
//! Occurrences are found left to right and never overlap. A document that
//! holds no such reference is returned unchanged.

use vstd::prelude::*;

use crate::text::{char_is_ws, is_ws, str_chars, chars_string};

verus! {

/// A character a version token may hold: an ASCII letter, a digit, `.`, `-`
/// or `_`.
pub open spec fn is_version_char(c: char) -> bool {
    ||| ('a' <= c && c <= 'z')
    ||| ('A' <= c && c <= 'Z')
    ||| ('0' <= c && c <= '9')
    ||| c == '.'
    ||| c == '-'
    ||| c == '_'
}

/// Runtime test for [`is_version_char`].
pub fn char_is_version(c: char) -> (r: bool)
    ensures
        r == is_version_char(c),
{
    ('a' <= c && c <= 'z') || ('A' <= c && c <= 'Z') || ('0' <= c && c <= '9') || c == '.'
        || c == '-' || c == '_'
}

/// The key that opens every image reference.
pub open spec fn image_key() -> Seq<char> {
    seq!['i', 'm', 'a', 'g', 'e', ':']
}

/// The length of the white-space run at the head of `s`.
pub open spec fn ws_run(s: Seq<char>) -> int
    decreases s.len(),
{
    if s.len() > 0 && is_ws(s[0]) {
        1 + ws_run(s.drop_first())
    } else {
        0
    }
}

/// The length of the version-token run at the head of `s`.
pub open spec fn token_run(s: Seq<char>) -> int
    decreases s.len(),
{
    if s.len() > 0 && is_version_char(s[0]) {
        1 + token_run(s.drop_first())
    } else {
        0
    }
}

pub proof fn lemma_ws_run(s: Seq<char>)
    ensures
        0 <= ws_run(s) <= s.len(),
        forall|k: int| 0 <= k < ws_run(s) ==> is_ws(s[k]),
        ws_run(s) < s.len() ==> !is_ws(s[ws_run(s)]),
    decreases s.len(),
{
    if s.len() > 0 && is_ws(s[0]) {
        lemma_ws_run(s.drop_first());
        assert(forall|k: int| 1 <= k < ws_run(s) ==> s[k] == s.drop_first()[k - 1]);
        if ws_run(s) < s.len() {
            assert(s[ws_run(s)] == s.drop_first()[ws_run(s) - 1]);
        }
    }
}

pub proof fn lemma_ws_run_val(s: Seq<char>, n: int)
    requires
        0 <= n <= s.len(),
        forall|k: int| 0 <= k < n ==> is_ws(s[k]),
        n == s.len() || !is_ws(s[n]),
    ensures
        ws_run(s) == n,
    decreases n,
{
    if n == 0 {
    } else {
        lemma_ws_run_val(s.drop_first(), n - 1);
    }
}

pub proof fn lemma_token_run(s: Seq<char>)
    ensures
        0 <= token_run(s) <= s.len(),
        forall|k: int| 0 <= k < token_run(s) ==> is_version_char(s[k]),
        token_run(s) < s.len() ==> !is_version_char(s[token_run(s)]),
    decreases s.len(),
{
    if s.len() > 0 && is_version_char(s[0]) {
        lemma_token_run(s.drop_first());
        assert(forall|k: int| 1 <= k < token_run(s) ==> s[k] == s.drop_first()[k - 1]);
        if token_run(s) < s.len() {
            assert(s[token_run(s)] == s.drop_first()[token_run(s) - 1]);
        }
    }
}

pub proof fn lemma_token_run_val(s: Seq<char>, n: int)
    requires
        0 <= n <= s.len(),
        forall|k: int| 0 <= k < n ==> is_version_char(s[k]),
        n == s.len() || !is_version_char(s[n]),
    ensures
        token_run(s) == n,
    decreases n,
{
    if n == 0 {
    } else {
        lemma_token_run_val(s.drop_first(), n - 1);
    }
}

/// The anatomy of an image reference at the head of `s`: `image:`, a
/// white-space run, the base name, a colon, then a nonempty version token.
/// Yields the position after the colon and the position after the token.
pub open spec fn head_match(s: Seq<char>, b: Seq<char>) -> Option<(int, int)> {
    if s.len() >= 6 && s.take(6) == image_key() {
        let w = ws_run(s.skip(6));
        let rest = s.skip(6 + w);
        if rest.len() >= b.len() + 1 && rest.take(b.len() as int) == b && rest[b.len() as int]
            == ':' {
            let pe = 6 + w + b.len() as int + 1;
            let tk = token_run(s.skip(pe));
            if tk >= 1 {
                Some((pe, pe + tk))
            } else {
                None
            }
        } else {
            None
        }
    } else {
        None
    }
}

/// A reference found at the head of the document spans at least its key and
/// never reaches past the end.
pub proof fn lemma_head_match_bounds(s: Seq<char>, b: Seq<char>)
    ensures
        match head_match(s, b) {
            Some(m) => 7 <= m.0 < m.1 <= s.len(),
            None => true,
        },
{
    if s.len() >= 6 && s.take(6) == image_key() {
        lemma_ws_run(s.skip(6));
        let w = ws_run(s.skip(6));
        let rest = s.skip(6 + w);
        if rest.len() >= b.len() + 1 && rest.take(b.len() as int) == b && rest[b.len() as int]
            == ':' {
            let pe = 6 + w + b.len() as int + 1;
            lemma_token_run(s.skip(pe));
        }
    }
}

/// The document with every image reference to `b` rewritten to version `v`,
/// scanning left to right, never overlapping: the verdict of the whole
/// transform.
pub open spec fn patch_spec(doc: Seq<char>, b: Seq<char>, v: Seq<char>) -> Seq<char>
    decreases doc.len(),
    via patch_spec_dec
{
    if doc.len() == 0 {
        doc
    } else {
        match head_match(doc, b) {
            Some(m) => doc.take(m.0) + v + patch_spec(doc.skip(m.1), b, v),
            None => seq![doc[0]] + patch_spec(doc.drop_first(), b, v),
        }
    }
}

#[via_fn]
proof fn patch_spec_dec(doc: Seq<char>, b: Seq<char>, v: Seq<char>) {
    lemma_head_match_bounds(doc, b);
}

/// Whether `needle` occurs anywhere in `hay`.
pub open spec fn contains_seq(hay: Seq<char>, needle: Seq<char>) -> bool {
    exists|i: int|
        0 <= i && i + needle.len() <= hay.len() && #[trigger] hay.subrange(i, i + needle.len())
            == needle
}

/// A document that nowhere holds the base name followed by a colon passes
/// through the patcher unchanged.
pub proof fn lemma_patch_unchanged(doc: Seq<char>, b: Seq<char>, v: Seq<char>)
    requires
        !contains_seq(doc, b + seq![':']),
    ensures
        patch_spec(doc, b, v) == doc,
    decreases doc.len(),
{
    if doc.len() > 0 {
        match head_match(doc, b) {
            Some(m) => {
                let w = ws_run(doc.skip(6));
                let start = 6 + w;
                lemma_ws_run(doc.skip(6));
                assert(start + (b + seq![':']).len() <= doc.len());
                assert(doc.subrange(start, start + b.len() + 1) =~= b + seq![':']) by {
                    let rest = doc.skip(start);
                    assert(rest.len() >= b.len() + 1);
                    assert(start + b.len() + 1 <= doc.len());
                    assert(forall|k: int|
                        0 <= k < b.len() ==> doc.subrange(start, start + b.len() + 1)[k] == rest[
                        k]);
                    assert(forall|k: int| 0 <= k < b.len() ==> rest[k] == rest.take(
                        b.len() as int)[k]);
                }
                assert(doc.subrange(start, start + (b + seq![':']).len()) == b + seq![':']);
                assert(contains_seq(doc, b + seq![':']));
            },
            None => {
                let tail = doc.drop_first();
                assert(!contains_seq(tail, b + seq![':'])) by {
                    if contains_seq(tail, b + seq![':']) {
                        let i = choose|i: int|
                            0 <= i && i + (b + seq![':']).len() <= tail.len()
                                && #[trigger] tail.subrange(i, i + (b + seq![':']).len()) == (b
                                + seq![':']);
                        assert(doc.subrange(i + 1, i + 1 + (b + seq![':']).len()) =~= tail.subrange(
                            i,
                            i + (b + seq![':']).len(),
                        ));
                    }
                }
                lemma_patch_unchanged(tail, b, v);
                assert(seq![doc[0]] + tail =~= doc);
            },
        }
    }
}

/// A document that nowhere holds the base name at all is returned unchanged:
/// absence is no error.
pub proof fn lemma_patch_absent_base(doc: Seq<char>, b: Seq<char>, v: Seq<char>)
    requires
        !contains_seq(doc, b),
    ensures
        patch_spec(doc, b, v) == doc,
{
    assert(!contains_seq(doc, b + seq![':'])) by {
        if contains_seq(doc, b + seq![':']) {
            let i = choose|i: int|
                0 <= i && i + (b + seq![':']).len() <= doc.len() && #[trigger] doc.subrange(
                    i,
                    i + (b + seq![':']).len(),
                ) == (b + seq![':']);
            assert(doc.subrange(i, i + b.len()) =~= b);
        }
    }
    lemma_patch_unchanged(doc, b, v);
}

/// Where the patcher first deviates from the document: the start of the
/// first replaced version token, or the document's length when nothing
/// matches anywhere.
pub open spec fn first_change(s: Seq<char>, b: Seq<char>) -> int
    decreases s.len(),
{
    if s.len() == 0 {
        0
    } else {
        match head_match(s, b) {
            Some(m) => m.0,
            None => 1 + first_change(s.drop_first(), b),
        }
    }
}

/// How the patch output relates to its input around the first change: they
/// agree strictly before it, the new version sits exactly there, a colon
/// stands just before it, and a version character stood at it; with no
/// change at all the output is the input.
proof fn lemma_first_change(s: Seq<char>, b: Seq<char>, v: Seq<char>)
    requires
        v.len() >= 1,
    ensures
        0 <= first_change(s, b) <= s.len(),
        first_change(s, b) == s.len() ==> patch_spec(s, b, v) == s,
        first_change(s, b) < s.len() ==> {
            let fc = first_change(s, b);
            &&& fc >= 7
            &&& patch_spec(s, b, v).len() >= fc + v.len()
            &&& forall|x: int| 0 <= x < fc ==> patch_spec(s, b, v)[x] == s[x]
            &&& forall|y: int| 0 <= y < v.len() ==> patch_spec(s, b, v)[fc + y] == v[y]
            &&& s[fc - 1] == ':'
            &&& is_version_char(s[fc])
        },
    decreases s.len(),
{
    if s.len() == 0 {
        assert(patch_spec(s, b, v) == s);
    } else {
        match head_match(s, b) {
            Some(m) => {
                lemma_head_match_bounds(s, b);
                let pe = m.0;
                let w = ws_run(s.skip(6));
                lemma_ws_run(s.skip(6));
                let rest = s.skip(6 + w);
                assert(s[pe - 1] == ':') by {
                    assert(rest[b.len() as int] == s[6 + w + b.len()]);
                }
                lemma_token_run(s.skip(pe));
                assert(is_version_char(s[pe])) by {
                    assert(token_run(s.skip(pe)) >= 1);
                    assert(s.skip(pe)[0] == s[pe]);
                }
                assert(patch_spec(s, b, v) == s.take(pe) + v + patch_spec(s.skip(m.1), b, v));
                assert(forall|x: int| 0 <= x < pe ==> patch_spec(s, b, v)[x] == s[x]) by {
                    assert(forall|x: int| 0 <= x < pe ==> s.take(pe)[x] == s[x]);
                }
            },
            None => {
                let tail = s.drop_first();
                lemma_first_change(tail, b, v);
                let fc = first_change(s, b);
                assert(fc == 1 + first_change(tail, b));
                assert(patch_spec(s, b, v) == seq![s[0]] + patch_spec(tail, b, v));
                if first_change(tail, b) == tail.len() {
                    assert(seq![s[0]] + tail =~= s);
                } else {
                    let tfc = first_change(tail, b);
                    assert(forall|x: int| 1 <= x < fc ==> patch_spec(s, b, v)[x] == tail[x - 1]);
                    assert(forall|x: int| 1 <= x < fc ==> s[x] == tail[x - 1]);
                    assert(forall|y: int| 0 <= y < v.len() ==> #[trigger] patch_spec(s, b, v)[fc
                        + y] == patch_spec(tail, b, v)[tfc + y]);
                    assert(s[fc - 1] == tail[tfc - 1]);
                    assert(s[fc] == tail[tfc]);
                }
            },
        }
    }
}

/// Replacing the head match's token with a version token leaves a head
/// match of the same anatomy, whose token is exactly the new version.
proof fn lemma_head_match_after_replace(doc: Seq<char>, b: Seq<char>, v: Seq<char>)
    requires
        head_match(doc, b) is Some,
        v.len() >= 1,
        forall|k: int| 0 <= k < v.len() ==> is_version_char(v[k]),
    ensures
        ({
            let m = head_match(doc, b)->Some_0;
            let p = doc.take(m.0) + v + patch_spec(doc.skip(m.1), b, v);
            head_match(p, b) == Some((m.0, m.0 + v.len() as int))
        }),
{
    let m = head_match(doc, b)->Some_0;
    let pe = m.0;
    let te = m.1;
    lemma_head_match_bounds(doc, b);
    let p = doc.take(pe) + v + patch_spec(doc.skip(te), b, v);
    let w = ws_run(doc.skip(6));
    lemma_ws_run(doc.skip(6));
    let rest_len = doc.skip(te).len();
    lemma_first_change(doc.skip(te), b, v);
    // the patched remainder starts with the original remainder's first
    // character, which the token's maximality makes a non-version character
    lemma_token_run(doc.skip(pe));
    assert(forall|x: int| 0 <= x < pe ==> p[x] == doc[x]);
    assert(forall|y: int| 0 <= y < v.len() ==> p[pe + y] == v[y]);
    assert(p.take(6) =~= doc.take(6));
    assert(ws_run(p.skip(6)) == w) by {
        assert(forall|k: int| 0 <= k < w ==> p.skip(6)[k] == doc.skip(6)[k]);
        assert(p.skip(6)[w] == doc.skip(6)[w]);
        lemma_ws_run_val(p.skip(6), w);
    }
    assert(p.skip(6 + w).take(b.len() as int) =~= doc.skip(6 + w).take(b.len() as int));
    assert(p.skip(6 + w)[b.len() as int] == doc.skip(6 + w)[b.len() as int]);
    assert(token_run(p.skip(pe)) == v.len()) by {
        assert(forall|y: int| 0 <= y < v.len() ==> p.skip(pe)[y] == v[y]);
        if pe + v.len() < p.len() {
            assert(p[pe + v.len()] == patch_spec(doc.skip(te), b, v)[0]);
            if first_change(doc.skip(te), b) == rest_len {
                assert(patch_spec(doc.skip(te), b, v) == doc.skip(te));
            }
            assert(patch_spec(doc.skip(te), b, v)[0] == doc.skip(te)[0]);
            assert(doc.skip(te)[0] == doc[te]);
            assert(doc.skip(pe)[te - pe] == doc[te]);
            assert(!is_version_char(doc[te]));
            assert(p.skip(pe)[v.len() as int] == p[pe + v.len()]);
        }
        lemma_token_run_val(p.skip(pe), v.len() as int);
    }
}

/// A document whose head does not match keeps a non-matching head after its
/// tail is patched, provided the base name holds no colon: the patcher can
/// create no reference that was not there.
proof fn lemma_no_new_match(doc: Seq<char>, b: Seq<char>, v: Seq<char>)
    requires
        doc.len() > 0,
        head_match(doc, b) is None,
        forall|k: int| 0 <= k < b.len() ==> b[k] != ':',
        v.len() >= 1,
        forall|k: int| 0 <= k < v.len() ==> is_version_char(v[k]),
    ensures
        head_match(seq![doc[0]] + patch_spec(doc.drop_first(), b, v), b) is None,
{
    let tail = doc.drop_first();
    let q = seq![doc[0]] + patch_spec(tail, b, v);
    lemma_first_change(tail, b, v);
    let fc = first_change(tail, b);
    if fc == tail.len() {
        assert(q =~= doc);
        return ;
    }
    let c = 1 + fc;
    assert(c >= 8);
    assert(forall|x: int| 0 <= x < c ==> q[x] == doc[x]) by {
        assert(q[0] == doc[0]);
        assert forall|x: int| 1 <= x < c implies q[x] == doc[x] by {
            assert(q[x] == patch_spec(tail, b, v)[x - 1]);
            assert(patch_spec(tail, b, v)[x - 1] == tail[x - 1]);
            assert(tail[x - 1] == doc[x]);
        }
    }
    assert(q[c - 1] == ':');
    assert(forall|y: int| 0 <= y < v.len() ==> q[c + y] == v[y]);
    if head_match(q, b) is Some {
        let w = ws_run(q.skip(6));
        lemma_ws_run(q.skip(6));
        let pe = 6 + w + b.len() as int + 1;
        lemma_head_match_bounds(q, b);
        assert(head_match(q, b)->Some_0.0 == pe);
        assert(q.take(6) == image_key());
        assert(token_run(q.skip(pe)) >= 1);
        lemma_token_run(q.skip(pe));
        assert(is_version_char(q[pe])) by {
            assert(q.skip(pe)[0] == q[pe]);
        }
        if pe > c {
            // the colon just before the first change must fall in some part
            // of the anatomy, and no part can hold it
            assert(c - 1 >= 6);
            if c - 1 < 6 + w {
                assert(is_ws(q.skip(6)[c - 1 - 6]));
                assert(false);
            } else if c - 1 < 6 + w + b.len() {
                assert(q.skip(6 + w).take(b.len() as int)[c - 1 - 6 - w] == q[c - 1]);
                assert(b[c - 1 - 6 - w] == ':');
                assert(false);
            } else {
                assert(c - 1 == pe - 1);
                assert(false);
            }
        } else {
            // the whole anatomy sits in the unchanged region, so the
            // document itself would have matched at its head
            assert(doc.take(6) =~= q.take(6));
            assert(ws_run(doc.skip(6)) == w) by {
                assert(forall|k: int| 0 <= k < w ==> doc.skip(6)[k] == q.skip(6)[k]);
                assert(doc.skip(6)[w] == q.skip(6)[w]);
                lemma_ws_run_val(doc.skip(6), w);
            }
            assert(doc.skip(6 + w).take(b.len() as int) =~= q.skip(6 + w).take(b.len() as int));
            assert(doc.skip(6 + w)[b.len() as int] == q.skip(6 + w)[b.len() as int]);
            assert(is_version_char(doc[pe])) by {
                if pe < c {
                    assert(doc[pe] == q[pe]);
                } else {
                    assert(doc[pe] == tail[fc]);
                }
            }
            assert(token_run(doc.skip(pe)) >= 1) by {
                assert(pe < doc.len());
                assert(doc.skip(pe).len() > 0);
                assert(doc.skip(pe)[0] == doc[pe]);
                lemma_token_run(doc.skip(pe).drop_first());
                assert(token_run(doc.skip(pe)) == 1 + token_run(doc.skip(pe).drop_first()));
            }
            assert(head_match(doc, b) is Some);
            assert(false);
        }
    }
}

/// Patching is idempotent: applying the transform again with the same base
/// name and version changes nothing, for any base name free of colons and
/// any nonempty version made of version characters.
pub proof fn lemma_patch_idempotent(doc: Seq<char>, b: Seq<char>, v: Seq<char>)
    requires
        forall|k: int| 0 <= k < b.len() ==> b[k] != ':',
        v.len() >= 1,
        forall|k: int| 0 <= k < v.len() ==> is_version_char(v[k]),
    ensures
        patch_spec(patch_spec(doc, b, v), b, v) == patch_spec(doc, b, v),
    decreases doc.len(),
{
    if doc.len() == 0 {
        return ;
    }
    lemma_head_match_bounds(doc, b);
    match head_match(doc, b) {
        Some(m) => {
            let p = doc.take(m.0) + v + patch_spec(doc.skip(m.1), b, v);
            assert(patch_spec(doc, b, v) == p);
            lemma_head_match_after_replace(doc, b, v);
            assert(head_match(p, b) == Some((m.0, m.0 + v.len() as int)));
            assert(p.len() > 0);
            assert(patch_spec(p, b, v) == p.take(m.0) + v + patch_spec(
                p.skip(m.0 + v.len()),
                b,
                v,
            ));
            assert(p.take(m.0) =~= doc.take(m.0));
            assert(p.skip(m.0 + v.len()) =~= patch_spec(doc.skip(m.1), b, v));
            lemma_patch_idempotent(doc.skip(m.1), b, v);
            assert(patch_spec(p, b, v) =~= p);
        },
        None => {
            let p = seq![doc[0]] + patch_spec(doc.drop_first(), b, v);
            assert(patch_spec(doc, b, v) == p);
            lemma_no_new_match(doc, b, v);
            assert(p.len() > 0);
            assert(patch_spec(p, b, v) == seq![p[0]] + patch_spec(p.drop_first(), b, v));
            assert(p[0] == doc[0]);
            assert(p.drop_first() =~= patch_spec(doc.drop_first(), b, v));
            lemma_patch_idempotent(doc.drop_first(), b, v);
            assert(patch_spec(p, b, v) =~= p);
        },
    }
}

/// Finds an image reference to base `b` starting at position `i` of `d`:
/// the absolute position after the base's colon and after the version token.
#[verifier::loop_isolation(false)]
fn head_match_exec(d: &Vec<char>, i: usize, b: &Vec<char>) -> (r: Option<(usize, usize)>)
    requires
        i < d@.len(),
    ensures
        ({
            let hm = head_match(d@.skip(i as int), b@);
            match r {
                Some(m) => hm == Some(((m.0 - i) as int, (m.1 - i) as int)) && i <= m.0 < m.1
                    <= d@.len(),
                None => hm is None,
            }
        }),
{
    let ghost s = d@.skip(i as int);
    let n = d.len();
    if n - i < 6 {
        return None;
    }
    if !(d[i] == 'i' && d[i + 1] == 'm' && d[i + 2] == 'a' && d[i + 3] == 'g' && d[i + 4] == 'e'
        && d[i + 5] == ':') {
        proof {
            assert(forall|k: int| 0 <= k < 6 ==> s.take(6)[k] == d@[i + k]);
            assert(s.take(6) != image_key());
        }
        return None;
    }
    proof {
        assert(forall|k: int| 0 <= k < 6 ==> s.take(6)[k] == d@[i + k]);
        assert(s.take(6) =~= image_key());
    }
    // the white-space run after the key
    let mut j: usize = i + 6;
    while j < n && char_is_ws(d[j])
        invariant
            n == d@.len(),
            i + 6 <= j <= n,
            forall|k: int| i + 6 <= k < j ==> is_ws(d@[k]),
        decreases n - j,
    {
        j = j + 1;
    }
    proof {
        let t = s.skip(6);
        assert(forall|k: int| 0 <= k < t.len() ==> t[k] == d@[i + 6 + k]);
        lemma_ws_run_val(t, j - (i + 6));
    }
    let ghost w = j - (i + 6);
    // the base name and its colon
    if n - j <= b.len() {
        proof {
            assert(s.skip(6 + w).len() < b@.len() + 1);
        }
        return None;
    }
    let ghost rest = s.skip(6 + w);
    proof {
        assert(forall|k: int| 0 <= k < rest.len() ==> rest[k] == d@[j + k]);
    }
    let mut k: usize = 0;
    while k < b.len()
        invariant
            n == d@.len(),
            j + b@.len() + 1 <= n,
            k <= b@.len(),
            rest == d@.skip(i as int).skip(6 + w),
            w == j - (i + 6),
            forall|q: int| 0 <= q < rest.len() ==> rest[q] == d@[j + q],
            forall|q: int| 0 <= q < k ==> d@[j + q] == b@[q],
        decreases b@.len() - k,
    {
        if d[j + k] != b[k] {
            proof {
                assert(rest.take(b@.len() as int)[k as int] == d@[j + k]);
                assert(rest.take(b@.len() as int) != b@);
            }
            return None;
        }
        k = k + 1;
    }
    proof {
        assert(forall|q: int| 0 <= q < b@.len() ==> rest.take(b@.len() as int)[q] == d@[j + q]);
        assert(rest.take(b@.len() as int) =~= b@);
    }
    if d[j + b.len()] != ':' {
        proof {
            assert(rest[b@.len() as int] == d@[j + b@.len()]);
        }
        return None;
    }
    proof {
        assert(rest[b@.len() as int] == ':');
    }
    let pe = j + b.len() + 1;
    let ghost pe_rel = 6 + w + b@.len() as int + 1;
    // the version token
    let mut t: usize = pe;
    while t < n && char_is_version(d[t])
        invariant
            n == d@.len(),
            pe <= t <= n,
            forall|q: int| pe <= q < t ==> is_version_char(d@[q]),
        decreases n - t,
    {
        t = t + 1;
    }
    proof {
        let u = s.skip(pe_rel);
        assert(forall|q: int| 0 <= q < u.len() ==> u[q] == d@[pe + q]);
        lemma_token_run_val(u, t - pe);
    }
    if t == pe {
        return None;
    }
    Some((pe, t))
}

/// Appends `d[from..to]` to `out`.
fn extend_range(out: &mut Vec<char>, d: &Vec<char>, from: usize, to: usize)
    requires
        from <= to <= d@.len(),
    ensures
        final(out)@ == old(out)@ + d@.subrange(from as int, to as int),
{
    let mut k: usize = from;
    while k < to
        invariant
            from <= k <= to <= d@.len(),
            out@ == old(out)@ + d@.subrange(from as int, k as int),
        decreases to - k,
    {
        out.push(d[k]);
        k = k + 1;
        proof {
            assert(out@ =~= old(out)@ + d@.subrange(from as int, k as int));
        }
    }
    proof {
        assert(out@ =~= old(out)@ + d@.subrange(from as int, to as int));
    }
}

/// The document text with every `image:` reference to `base` rewritten to
/// `version`, and nothing else changed.
pub fn patch_compose(doc: &str, base: &str, version: &str) -> (r: String)
    ensures
        r@ == patch_spec(doc@, base@, version@),
{
    let d = str_chars(doc);
    let b = str_chars(base);
    let v = str_chars(version);
    let mut out: Vec<char> = Vec::new();
    let mut i: usize = 0;
    proof {
        assert(d@.skip(0) =~= d@);
    }
    while i < d.len()
        invariant
            d@ == doc@,
            b@ == base@,
            v@ == version@,
            i <= d@.len(),
            out@ + patch_spec(d@.skip(i as int), b@, v@) == patch_spec(d@, b@, v@),
        decreases d@.len() - i,
    {
        let ghost s = d@.skip(i as int);
        match head_match_exec(&d, i, &b) {
            Some(m) => {
                let (pe, te): (usize, usize) = m;
                extend_range(&mut out, &d, i, pe);
                extend_range(&mut out, &v, 0, v.len());
                proof {
                    assert(s.take(pe - i) =~= d@.subrange(i as int, pe as int));
                    assert(s.skip(te - i) =~= d@.skip(te as int));
                    assert(v@.subrange(0, v@.len() as int) =~= v@);
                    assert(patch_spec(s, b@, v@) == d@.subrange(i as int, pe as int) + v@
                        + patch_spec(d@.skip(te as int), b@, v@));
                }
                i = te;
            },
            None => {
                out.push(d[i]);
                proof {
                    assert(s[0] == d@[i as int]);
                    assert(s.drop_first() =~= d@.skip(i as int + 1));
                    assert(patch_spec(s, b@, v@) == seq![d@[i as int]] + patch_spec(
                        d@.skip(i as int + 1),
                        b@,
                        v@,
                    ));
                }
                i = i + 1;
            },
        }
    }
    proof {
        assert(d@.skip(i as int) =~= Seq::<char>::empty());
        assert(out@ + Seq::<char>::empty() =~= out@);
    }
    chars_string(&out)
}

} // verus!
