//! Finding where an image is deployed: scanning stack-definition text for
//! every reference to one base name.
//!
//! A reference is `image:` followed by optional white space, an optional
//! quote, the base name, and optionally a colon and a tag free of white
//! space and quotes, with an optional closing quote. Each hit is reported as
//! the reference text with the key, surrounding white space and quotes
//! stripped — `base` or `base:tag`.

use vstd::prelude::*;

use crate::client::{strip_prefix_all, strip_prefix_all_exec, strip_trailing, strip_trailing_exec};
use crate::compose::{image_key, lemma_ws_run, lemma_ws_run_val, ws_run};
use crate::models::ImageDeployment;
use crate::text::{char_is_ws, chars_string, is_ws, str_chars, trim_chars, trim_spec};

verus! {

/// A character a referenced tag may hold: anything but white space and
/// quotes.
pub open spec fn is_ref_char(c: char) -> bool {
    !is_ws(c) && c != '"' && c != '\''
}

/// Runtime test for [`is_ref_char`].
fn char_is_ref(c: char) -> (r: bool)
    ensures
        r == is_ref_char(c),
{
    !char_is_ws(c) && c != '"' && c != '\''
}

/// A quote character.
pub open spec fn is_quote(c: char) -> bool {
    c == '"' || c == '\''
}

/// The length of the tag-character run at the head of `s`.
pub open spec fn ref_run(s: Seq<char>) -> int
    decreases s.len(),
{
    if s.len() > 0 && is_ref_char(s[0]) {
        1 + ref_run(s.drop_first())
    } else {
        0
    }
}

proof fn lemma_ref_run(s: Seq<char>)
    ensures
        0 <= ref_run(s) <= s.len(),
        forall|k: int| 0 <= k < ref_run(s) ==> is_ref_char(s[k]),
        ref_run(s) < s.len() ==> !is_ref_char(s[ref_run(s)]),
    decreases s.len(),
{
    if s.len() > 0 && is_ref_char(s[0]) {
        lemma_ref_run(s.drop_first());
        assert(forall|k: int| 1 <= k < ref_run(s) ==> s[k] == s.drop_first()[k - 1]);
        if ref_run(s) < s.len() {
            assert(s[ref_run(s)] == s.drop_first()[ref_run(s) - 1]);
        }
    }
}

proof fn lemma_ref_run_val(s: Seq<char>, n: int)
    requires
        0 <= n <= s.len(),
        forall|k: int| 0 <= k < n ==> is_ref_char(s[k]),
        n == s.len() || !is_ref_char(s[n]),
    ensures
        ref_run(s) == n,
    decreases n,
{
    if n > 0 {
        lemma_ref_run_val(s.drop_first(), n - 1);
    }
}

/// Whether `b` occupies `s` from position `at`.
pub open spec fn begins_at(s: Seq<char>, at: int, b: Seq<char>) -> bool {
    0 <= at && at + b.len() <= s.len() && s.subrange(at, at + b.len()) == b
}

/// The anatomy of an image reference at the head of `s`: the key, a
/// white-space run, an optional quote (skipped again when the base cannot
/// follow it), the base name, an optional colon-and-tag, and an optional
/// closing quote. Yields the position after the whole reference.
pub open spec fn ref_head(s: Seq<char>, b: Seq<char>) -> Option<int> {
    if s.len() >= 6 && s.take(6) == image_key() {
        let w = ws_run(s.skip(6));
        let p0 = 6 + w;
        let bq = if p0 < s.len() && is_quote(s[p0]) && begins_at(s, p0 + 1, b) {
            p0 + 1
        } else if begins_at(s, p0, b) {
            p0
        } else {
            -1
        };
        if bq < 0 {
            None
        } else {
            let q = bq + b.len();
            let te = if q < s.len() && s[q] == ':' && q + 1 < s.len() && is_ref_char(s[q + 1]) {
                q + 1 + ref_run(s.skip(q + 1))
            } else {
                q
            };
            if te < s.len() && is_quote(s[te]) {
                Some(te + 1)
            } else {
                Some(te)
            }
        }
    } else {
        None
    }
}

/// A reference found at the head spans at least the key and never reaches
/// past the end.
proof fn lemma_ref_head_bounds(s: Seq<char>, b: Seq<char>)
    ensures
        match ref_head(s, b) {
            Some(e) => 6 <= e <= s.len(),
            None => true,
        },
{
    if s.len() >= 6 && s.take(6) == image_key() {
        lemma_ws_run(s.skip(6));
        let w = ws_run(s.skip(6));
        let p0 = 6 + w;
        let bq = if p0 < s.len() && is_quote(s[p0]) && begins_at(s, p0 + 1, b) {
            p0 + 1
        } else if begins_at(s, p0, b) {
            p0
        } else {
            -1
        };
        if bq >= 0 {
            let q = bq + b.len() as int;
            if q < s.len() && s[q] == ':' && q + 1 < s.len() && is_ref_char(s[q + 1]) {
                lemma_ref_run(s.skip(q + 1));
            }
        }
    }
}

/// The string with every leading `c` removed.
pub open spec fn strip_leading(s: Seq<char>, c: char) -> Seq<char>
    decreases s.len(),
{
    if s.len() > 0 && s[0] == c {
        strip_leading(s.drop_first(), c)
    } else {
        s
    }
}

/// The string with every leading and trailing `c` removed.
pub open spec fn strip_around(s: Seq<char>, c: char) -> Seq<char> {
    strip_trailing(strip_leading(s, c), c)
}

/// How one matched reference is reported: leading repetitions of the key
/// dropped, surrounding white space trimmed, then surrounding double and
/// single quotes stripped.
pub open spec fn extract_of(m: Seq<char>) -> Seq<char> {
    strip_around(strip_around(trim_spec(strip_prefix_all(m, image_key())), '"'), '\'')
}

/// Every reference to base `b` in the document, in order, non-overlapping,
/// each reported in its stripped form.
pub open spec fn image_refs_spec(s: Seq<char>, b: Seq<char>) -> Seq<Seq<char>>
    decreases s.len(),
    via image_refs_dec
{
    if s.len() == 0 {
        Seq::empty()
    } else {
        match ref_head(s, b) {
            Some(e) => seq![extract_of(s.take(e))] + image_refs_spec(s.skip(e), b),
            None => image_refs_spec(s.drop_first(), b),
        }
    }
}

#[via_fn]
proof fn image_refs_dec(s: Seq<char>, b: Seq<char>) {
    lemma_ref_head_bounds(s, b);
}

/// `v` with every leading `c` removed.
fn strip_leading_exec(v: &Vec<char>, c: char) -> (r: Vec<char>)
    ensures
        r@ == strip_leading(v@, c),
{
    let mut k: usize = 0;
    proof {
        assert(v@.skip(0) =~= v@);
    }
    while k < v.len() && v[k] == c
        invariant
            k <= v@.len(),
            strip_leading(v@, c) == strip_leading(v@.skip(k as int), c),
        decreases v@.len() - k,
    {
        proof {
            assert(v@.skip(k as int)[0] == v@[k as int]);
            assert(v@.skip(k as int).drop_first() =~= v@.skip(k as int + 1));
        }
        k = k + 1;
    }
    proof {
        if k < v.len() {
            assert(v@.skip(k as int)[0] == v@[k as int]);
        } else {
            assert(v@.skip(k as int) =~= Seq::<char>::empty());
        }
    }
    let mut r: Vec<char> = Vec::new();
    let mut j: usize = k;
    while j < v.len()
        invariant
            k <= j <= v@.len(),
            r@ == v@.subrange(k as int, j as int),
        decreases v@.len() - j,
    {
        r.push(v[j]);
        j = j + 1;
        proof {
            assert(r@ =~= v@.subrange(k as int, j as int));
        }
    }
    proof {
        assert(r@ =~= v@.skip(k as int));
    }
    r
}

/// `v` with every leading and trailing `c` removed.
fn strip_around_exec(v: &Vec<char>, c: char) -> (r: Vec<char>)
    ensures
        r@ == strip_around(v@, c),
{
    let led = strip_leading_exec(v, c);
    strip_trailing_exec(led, c)
}

/// Finds an image reference to base `b` starting at position `i` of `d`:
/// the absolute position after the whole reference.
#[verifier::loop_isolation(false)]
#[verifier::rlimit(60)]
fn ref_head_exec(d: &Vec<char>, i: usize, b: &Vec<char>) -> (r: Option<usize>)
    requires
        i < d@.len(),
    ensures
        ({
            let rh = ref_head(d@.skip(i as int), b@);
            match r {
                Some(e) => rh == Some(e as int - i) && i + 6 <= e <= d@.len(),
                None => rh is None,
            }
        }),
{
    let ghost s = d@.skip(i as int);
    let n = d.len();
    if n - i < 6 {
        return None;
    }
    if !(d[i] == 'i' && d[i + 1] == 'm' && d[i + 2] == 'a' && d[i + 3] == 'g' && d[i + 4] == 'e'
        && d[i + 5] == ':') {
        proof {
            assert(forall|k: int| 0 <= k < 6 ==> s.take(6)[k] == d@[i + k]);
            assert(s.take(6) != image_key());
        }
        return None;
    }
    proof {
        assert(forall|k: int| 0 <= k < 6 ==> s.take(6)[k] == d@[i + k]);
        assert(s.take(6) =~= image_key());
    }
    let mut j: usize = i + 6;
    while j < n && char_is_ws(d[j])
        invariant
            i + 6 <= j <= n,
            forall|k: int| i + 6 <= k < j ==> is_ws(d@[k]),
        decreases n - j,
    {
        j = j + 1;
    }
    proof {
        let t = s.skip(6);
        assert(forall|k: int| 0 <= k < t.len() ==> t[k] == d@[i + 6 + k]);
        lemma_ws_run_val(t, j - (i + 6));
    }
    let ghost w = j - (i + 6);
    proof {
        assert(forall|k: int| 0 <= k < s.len() ==> s[k] == d@[i + k]);
        lemma_begins_shift(d@, i as int, j - i, b@);
        lemma_begins_shift(d@, i as int, j - i + 1, b@);
    }
    // the base, behind an optional quote the base itself cannot claim
    let quote_present = j < n && (d[j] == '"' || d[j] == '\'');
    let base_after_quote = quote_present && base_begins(d, j + 1, b);
    let bq: usize = if base_after_quote {
        j + 1
    } else if base_begins(d, j, b) {
        j
    } else {
        return None;
    };
    let q = bq + b.len();
    // the optional colon and tag
    let mut te: usize = q;
    if q < n && d[q] == ':' && q + 1 < n && char_is_ref(d[q + 1]) {
        te = q + 1;
        while te < n && char_is_ref(d[te])
            invariant
                q + 1 <= te <= n,
                forall|k: int| q + 1 <= k < te ==> is_ref_char(d@[k]),
            decreases n - te,
        {
            te = te + 1;
        }
        proof {
            let u = s.skip(q as int - i + 1);
            assert(forall|k: int| 0 <= k < u.len() ==> u[k] == d@[q + 1 + k]);
            lemma_ref_run_val(u, te as int - (q + 1));
        }
    }
    // the optional closing quote
    if te < n && (d[te] == '"' || d[te] == '\'') {
        Some(te + 1)
    } else {
        Some(te)
    }
}

/// Looking for the base inside the suffix is the same as looking for it at
/// the shifted position of the whole.
proof fn lemma_begins_shift(d: Seq<char>, i: int, x: int, b: Seq<char>)
    requires
        0 <= i <= d.len(),
        0 <= x,
    ensures
        begins_at(d.skip(i), x, b) == begins_at(d, i + x, b),
{
    if x + b.len() <= d.len() - i {
        assert(d.skip(i).subrange(x, x + b.len()) =~= d.subrange(i + x, i + x + b.len()));
    }
}

/// Whether `b` occupies `d` from position `at`.
#[verifier::loop_isolation(false)]
fn base_begins(d: &Vec<char>, at: usize, b: &Vec<char>) -> (r: bool)
    ensures
        r == begins_at(d@, at as int, b@),
{
    if at > d.len() || d.len() - at < b.len() {
        return false;
    }
    let mut k: usize = 0;
    while k < b.len()
        invariant
            at + b@.len() <= d@.len(),
            k <= b@.len(),
            forall|q: int| 0 <= q < k ==> d@[at + q] == b@[q],
        decreases b@.len() - k,
    {
        if d[at + k] != b[k] {
            proof {
                assert(d@.subrange(at as int, at + b@.len())[k as int] == d@[at + k]);
            }
            return false;
        }
        k = k + 1;
    }
    proof {
        assert(forall|q: int|
            0 <= q < b@.len() ==> #[trigger] d@.subrange(at as int, at + b@.len())[q] == d@[at
                + q]);
        assert(d@.subrange(at as int, at + b@.len()) =~= b@);
    }
    true
}

/// Every reference to `base` in the document text, in order, each stripped
/// to `base` or `base:tag`.
pub fn find_image_references(content: &str, base: &str) -> (r: Vec<String>)
    ensures
        r.deep_view() == image_refs_spec(content@, base@),
{
    let d = str_chars(content);
    let b = str_chars(base);
    let mut key: Vec<char> = Vec::new();
    key.push('i');
    key.push('m');
    key.push('a');
    key.push('g');
    key.push('e');
    key.push(':');
    proof {
        assert(key@ =~= image_key());
    }
    let mut out: Vec<String> = Vec::new();
    let mut i: usize = 0;
    proof {
        assert(d@.skip(0) =~= d@);
        assert(out.deep_view() =~= Seq::<Seq<char>>::empty());
    }
    while i < d.len()
        invariant
            d@ == content@,
            b@ == base@,
            key@ == image_key(),
            i <= d@.len(),
            out.deep_view() + image_refs_spec(d@.skip(i as int), b@) == image_refs_spec(d@, b@),
        decreases d@.len() - i,
    {
        let ghost s = d@.skip(i as int);
        match ref_head_exec(&d, i, &b) {
            Some(e) => {
                let mut m: Vec<char> = Vec::new();
                let mut k: usize = i;
                while k < e
                    invariant
                        i <= k <= e <= d@.len(),
                        m@ == d@.subrange(i as int, k as int),
                    decreases e - k,
                {
                    m.push(d[k]);
                    k = k + 1;
                    proof {
                        assert(m@ =~= d@.subrange(i as int, k as int));
                    }
                }
                proof {
                    assert(m@ =~= s.take(e as int - i));
                }
                let unkeyed = strip_prefix_all_exec(&m, &key);
                let trimmed = trim_chars(&unkeyed);
                let unquoted = strip_around_exec(&trimmed, '"');
                let plain = strip_around_exec(&unquoted, '\'');
                let found = chars_string(&plain);
                let ghost before = out.deep_view();
                let ghost i0 = i as int;
                out.push(found);
                proof {
                    assert(out.deep_view() =~= before + seq![found@]) by {
                        assert(forall|x: int| 0 <= x < before.len() ==> out.deep_view()[x]
                            == before[x]);
                        assert(out.deep_view()[before.len() as int] == found@);
                    }
                    assert(found@ == extract_of(s.take(e as int - i0)));
                    assert(s.skip(e as int - i0) =~= d@.skip(e as int));
                    assert(image_refs_spec(s, b@) == seq![extract_of(s.take(e as int - i0))]
                        + image_refs_spec(d@.skip(e as int), b@));
                }
                i = e;
            },
            None => {
                proof {
                    assert(s.drop_first() =~= d@.skip(i as int + 1));
                }
                i = i + 1;
            },
        }
    }
    proof {
        assert(d@.skip(i as int) =~= Seq::<char>::empty());
        assert(out.deep_view() + image_refs_spec(d@.skip(i as int), b@) =~= out.deep_view());
    }
    out
}

/// The deployment records one stack definition yields for a base name: one
/// per reference found, all tied to the same server and stack.
pub fn deployments_in(
    server_id: i64,
    server_name: &str,
    compose_name: &str,
    content: &str,
    base: &str,
) -> (r: Vec<ImageDeployment>)
    ensures
        r@.len() == image_refs_spec(content@, base@).len(),
        forall|k: int|
            0 <= k < r@.len() ==> {
                &&& (#[trigger] r@[k]).server_id == server_id
                &&& r@[k].server_name@ == server_name@
                &&& r@[k].compose_name@ == compose_name@
                &&& r@[k].image_tag@ == image_refs_spec(content@, base@)[k]
            },
{
    let refs = find_image_references(content, base);
    let name_chars = str_chars(server_name);
    let compose_chars = str_chars(compose_name);
    let mut out: Vec<ImageDeployment> = Vec::new();
    let mut k: usize = 0;
    while k < refs.len()
        invariant
            k <= refs@.len(),
            name_chars@ == server_name@,
            compose_chars@ == compose_name@,
            refs.deep_view() == image_refs_spec(content@, base@),
            refs.deep_view().len() == refs@.len(),
            out@.len() == k as int,
            forall|x: int|
                0 <= x < k ==> {
                    &&& (#[trigger] out@[x]).server_id == server_id
                    &&& out@[x].server_name@ == server_name@
                    &&& out@[x].compose_name@ == compose_name@
                    &&& out@[x].image_tag@ == image_refs_spec(content@, base@)[x]
                },
        decreases refs@.len() - k,
    {
        out.push(
            ImageDeployment {
                server_id,
                server_name: chars_string(&name_chars),
                compose_name: chars_string(&compose_chars),
                image_tag: refs[k].clone(),
            },
        );
        k = k + 1;
    }
    out
}

} // verus!
