//! Next-release inference from existing image tags.
//!
//! Every tag is reduced to the text after its last colon. A remainder that is
//! a bare run of digits counts as a plain number; a remainder of the shape
//! `v?major[.minor[.patch]]` counts as a version triple, each absent part
//! zero; anything else is ignored. The next release is the greatest triple
//! with its patch part incremented, the triples taking precedence over the
//! plain numbers whatever their magnitudes; with no triple it is the greatest
//! number plus one; with neither it is `v1.0.0`. Numeric parts of more than
//! eighteen digits are treated as unparseable, so every value fits in 64
//! bits.

use vstd::prelude::*;

use crate::text::{
    all_digits, char_is_digit, dec_digits, digits_to_u64, digits_val, lemma_digits_val_bound,
    pow10, chars_string, dec_u64_chars, str_chars,
};

verus! {

/// A tag remainder that the resolver understands: a `major.minor.patch`
/// triple or a bare number.
#[derive(Clone, Copy, PartialEq, Eq, Structural, Debug)]
pub enum VersionTag {
    Triple(u64, u64, u64),
    Number(u64),
}

/// The index of the last colon of `t`, or minus one when there is none.
pub open spec fn last_colon(t: Seq<char>) -> int
    decreases t.len(),
{
    if t.len() == 0 {
        -1
    } else if t.last() == ':' {
        t.len() - 1
    } else {
        last_colon(t.drop_last())
    }
}

/// The index of the first dot of `s`, or the length when there is none.
pub open spec fn first_dot(s: Seq<char>) -> int
    decreases s.len(),
{
    if s.len() == 0 {
        0
    } else if s[0] == '.' {
        0
    } else {
        1 + first_dot(s.drop_first())
    }
}

/// A parseable numeric component: one to eighteen decimal digits.
pub open spec fn valid_run(s: Seq<char>) -> bool {
    1 <= s.len() <= 18 && all_digits(s)
}

/// The version triple a tag remainder denotes, if it has the triple shape:
/// an optional leading `v`, then one to three dot-separated digit runs.
pub open spec fn triple_of_rest(r: Seq<char>) -> Option<(u64, u64, u64)> {
    let body = if r.len() > 0 && r[0] == 'v' {
        r.drop_first()
    } else {
        r
    };
    let d1 = first_dot(body);
    let a = body.take(d1);
    if !valid_run(a) {
        None
    } else if d1 == body.len() {
        Some((digits_val(a) as u64, 0u64, 0u64))
    } else {
        let tail = body.skip(d1 + 1);
        let d2 = first_dot(tail);
        let b = tail.take(d2);
        if !valid_run(b) {
            None
        } else if d2 == tail.len() {
            Some((digits_val(a) as u64, digits_val(b) as u64, 0u64))
        } else {
            let c = tail.skip(d2 + 1);
            if valid_run(c) {
                Some((digits_val(a) as u64, digits_val(b) as u64, digits_val(c) as u64))
            } else {
                None
            }
        }
    }
}

/// How the resolver reads one tag string: the text after the last colon,
/// classified as a bare number, a triple, or nothing.
pub open spec fn classify_tag(t: Seq<char>) -> Option<VersionTag> {
    let lc = last_colon(t);
    if lc < 0 {
        None
    } else {
        let r = t.skip(lc + 1);
        if valid_run(r) {
            Some(VersionTag::Number(digits_val(r) as u64))
        } else {
            match triple_of_rest(r) {
                Some((a, b, c)) => Some(VersionTag::Triple(a, b, c)),
                None => None,
            }
        }
    }
}

/// Lexicographic order on version triples.
pub open spec fn triple_lt(a: (u64, u64, u64), b: (u64, u64, u64)) -> bool {
    a.0 < b.0 || (a.0 == b.0 && (a.1 < b.1 || (a.1 == b.1 && a.2 < b.2)))
}

/// The greater of two triples, the first on a tie.
pub open spec fn max_triple(a: (u64, u64, u64), b: (u64, u64, u64)) -> (u64, u64, u64) {
    if triple_lt(a, b) {
        b
    } else {
        a
    }
}

/// The greatest triple among the tags, in scan order.
pub open spec fn best_triple(tags: Seq<Seq<char>>) -> Option<(u64, u64, u64)>
    decreases tags.len(),
{
    if tags.len() == 0 {
        None
    } else {
        let prev = best_triple(tags.drop_last());
        match classify_tag(tags.last()) {
            Some(VersionTag::Triple(a, b, c)) => match prev {
                None => Some((a, b, c)),
                Some(p) => Some(max_triple(p, (a, b, c))),
            },
            _ => prev,
        }
    }
}

/// The greatest bare number among the tags.
pub open spec fn best_number(tags: Seq<Seq<char>>) -> Option<u64>
    decreases tags.len(),
{
    if tags.len() == 0 {
        None
    } else {
        let prev = best_number(tags.drop_last());
        match classify_tag(tags.last()) {
            Some(VersionTag::Number(n)) => match prev {
                None => Some(n),
                Some(p) => if p < n {
                    Some(n)
                } else {
                    Some(p)
                },
            },
            _ => prev,
        }
    }
}

/// The next release tag for the given set of existing tags.
pub open spec fn next_version_spec(tags: Seq<Seq<char>>) -> Seq<char> {
    match best_triple(tags) {
        Some((ma, mi, pa)) => seq!['v'] + dec_digits(ma as nat) + seq!['.'] + dec_digits(mi as nat)
            + seq!['.'] + dec_digits(pa as nat + 1),
        None => match best_number(tags) {
            Some(n) => dec_digits(n as nat + 1),
            None => seq!['v', '1', '.', '0', '.', '0'],
        },
    }
}

/// A copy of `s[from..to]`.
fn subvec(s: &Vec<char>, from: usize, to: usize) -> (r: Vec<char>)
    requires
        from <= to <= s@.len(),
    ensures
        r@ == s@.subrange(from as int, to as int),
{
    let mut r: Vec<char> = Vec::new();
    let mut k: usize = from;
    while k < to
        invariant
            from <= k <= to <= s@.len(),
            r@ == s@.subrange(from as int, k as int),
        decreases to - k,
    {
        r.push(s[k]);
        k = k + 1;
        proof {
            assert(r@ =~= s@.subrange(from as int, k as int));
        }
    }
    r
}

/// The index after the last colon, if any colon is present.
fn find_last_colon(s: &Vec<char>) -> (r: Option<usize>)
    ensures
        match r {
            Some(k) => last_colon(s@) == k as int && k < s@.len(),
            None => last_colon(s@) == -1,
        },
{
    let mut j: usize = s.len();
    proof {
        assert(s@.take(j as int) =~= s@);
    }
    while j > 0
        invariant
            j <= s@.len(),
            last_colon(s@) == last_colon(s@.take(j as int)),
        decreases j,
    {
        if s[j - 1] == ':' {
            proof {
                assert(s@.take(j as int).last() == s@[j - 1]);
            }
            return Some(j - 1);
        }
        proof {
            assert(s@.take(j as int).drop_last() =~= s@.take(j as int - 1));
        }
        j = j - 1;
    }
    proof {
        assert(s@.take(0) =~= Seq::<char>::empty());
    }
    None
}

/// The index of the first dot of `s`, or its length.
fn first_dot_exec(s: &Vec<char>) -> (r: usize)
    ensures
        r as int == first_dot(s@),
        r <= s@.len(),
{
    let mut k: usize = 0;
    proof {
        assert(s@.skip(0) =~= s@);
    }
    while k < s.len()
        invariant
            k <= s@.len(),
            first_dot(s@) == k + first_dot(s@.skip(k as int)),
        decreases s@.len() - k,
    {
        if s[k] == '.' {
            proof {
                assert(s@.skip(k as int)[0] == s@[k as int]);
            }
            return k;
        }
        proof {
            assert(s@.skip(k as int)[0] == s@[k as int]);
            assert(s@.skip(k as int).drop_first() =~= s@.skip(k as int + 1));
        }
        k = k + 1;
    }
    proof {
        assert(s@.skip(k as int) =~= Seq::<char>::empty());
    }
    k
}

/// Whether `s[from..to]` is a parseable numeric component.
fn check_run(s: &Vec<char>, from: usize, to: usize) -> (r: bool)
    requires
        from <= to <= s@.len(),
    ensures
        r == valid_run(s@.subrange(from as int, to as int)),
{
    let ghost part = s@.subrange(from as int, to as int);
    if to - from < 1 || to - from > 18 {
        return false;
    }
    let mut k: usize = from;
    while k < to
        invariant
            from <= k <= to <= s@.len(),
            part == s@.subrange(from as int, to as int),
            forall|j: int| 0 <= j < k - from ==> crate::text::is_digit(part[j]),
        decreases to - k,
    {
        if !char_is_digit(s[k]) {
            proof {
                assert(part[k - from] == s@[k as int]);
            }
            return false;
        }
        proof {
            assert(part[k - from] == s@[k as int]);
        }
        k = k + 1;
    }
    true
}

/// Classifies one tag string as the resolver reads it.
pub fn classify_chars(t: &Vec<char>) -> (r: Option<VersionTag>)
    ensures
        r == classify_tag(t@),
{
    let lc = match find_last_colon(t) {
        Some(k) => k,
        None => {
            return None;
        },
    };
    let n = t.len();
    assert(lc < n);
    let rest = subvec(t, lc + 1, n);
    proof {
        assert(rest@ =~= t@.skip(lc as int + 1));
    }
    if check_run(&rest, 0, rest.len()) {
        proof {
            assert(rest@.subrange(0, rest@.len() as int) =~= rest@);
            lemma_digits_val_bound(rest@);
            crate::text::lemma_pow10_le_18(rest@.len() as nat);
        }
        return Some(VersionTag::Number(digits_to_u64(&rest, 0, rest.len())));
    }
    let body = if rest.len() > 0 && rest[0] == 'v' {
        let b = subvec(&rest, 1, rest.len());
        proof {
            assert(b@ =~= rest@.drop_first());
        }
        b
    } else {
        rest
    };
    let d1 = first_dot_exec(&body);
    if !check_run(&body, 0, d1) {
        return None;
    }
    proof {
        assert(body@.subrange(0, d1 as int) =~= body@.take(d1 as int));
        lemma_digits_val_bound(body@.take(d1 as int));
        crate::text::lemma_pow10_le_18(body@.take(d1 as int).len() as nat);
    }
    let major = digits_to_u64(&body, 0, d1);
    if d1 == body.len() {
        return Some(VersionTag::Triple(major, 0, 0));
    }
    let tail = subvec(&body, d1 + 1, body.len());
    proof {
        assert(tail@ =~= body@.skip(d1 as int + 1));
    }
    let d2 = first_dot_exec(&tail);
    if !check_run(&tail, 0, d2) {
        return None;
    }
    proof {
        assert(tail@.subrange(0, d2 as int) =~= tail@.take(d2 as int));
        lemma_digits_val_bound(tail@.take(d2 as int));
        crate::text::lemma_pow10_le_18(tail@.take(d2 as int).len() as nat);
    }
    let minor = digits_to_u64(&tail, 0, d2);
    if d2 == tail.len() {
        return Some(VersionTag::Triple(major, minor, 0));
    }
    if !check_run(&tail, d2 + 1, tail.len()) {
        return None;
    }
    proof {
        assert(tail@.subrange(d2 as int + 1, tail@.len() as int) =~= tail@.skip(d2 as int + 1));
        lemma_digits_val_bound(tail@.skip(d2 as int + 1));
        crate::text::lemma_pow10_le_18(tail@.skip(d2 as int + 1).len() as nat);
    }
    let patch = digits_to_u64(&tail, d2 + 1, tail.len());
    Some(VersionTag::Triple(major, minor, patch))
}

/// Whether `a` precedes `b` lexicographically.
fn triple_lt_exec(a: (u64, u64, u64), b: (u64, u64, u64)) -> (r: bool)
    ensures
        r == triple_lt(a, b),
{
    a.0 < b.0 || (a.0 == b.0 && (a.1 < b.1 || (a.1 == b.1 && a.2 < b.2)))
}

/// The next release tag for the given existing tags: the greatest
/// `major.minor.patch` triple with its patch incremented; with no triple, the
/// greatest bare number plus one; with neither, `v1.0.0`.
pub fn resolve_next_version(tags: &Vec<String>) -> (r: String)
    ensures
        r@ == next_version_spec(tags.deep_view()),
{
    let ghost all = tags.deep_view();
    let mut bt: Option<(u64, u64, u64)> = None;
    let mut bn: Option<u64> = None;
    let mut i: usize = 0;
    while i < tags.len()
        invariant
            all == tags.deep_view(),
            i <= tags@.len(),
            all.len() == tags@.len(),
            bt == best_triple(all.take(i as int)),
            bn == best_number(all.take(i as int)),
        decreases tags@.len() - i,
    {
        let chars = str_chars(tags[i].as_str());
        proof {
            assert(all[i as int] == tags@[i as int]@);
            assert(all.take(i as int + 1).drop_last() =~= all.take(i as int));
            assert(all.take(i as int + 1).last() == all[i as int]);
        }
        match classify_chars(&chars) {
            Some(VersionTag::Triple(a, b, c)) => {
                bt = match bt {
                    None => Some((a, b, c)),
                    Some(p) => if triple_lt_exec(p, (a, b, c)) {
                        Some((a, b, c))
                    } else {
                        Some(p)
                    },
                };
            },
            Some(VersionTag::Number(n)) => {
                bn = match bn {
                    None => Some(n),
                    Some(p) => if p < n {
                        Some(n)
                    } else {
                        Some(p)
                    },
                };
            },
            None => {},
        }
        i = i + 1;
    }
    proof {
        assert(all.take(all.len() as int) =~= all);
    }
    match bt {
        Some((ma, mi, pa)) => {
            let mut out: Vec<char> = Vec::new();
            out.push('v');
            crate::text::push_dec_u64(ma, &mut out);
            out.push('.');
            crate::text::push_dec_u64(mi, &mut out);
            out.push('.');
            assert(pa < 0xffffffffffffffffu64) by {
                lemma_best_triple_bound(all);
            }
            crate::text::push_dec_u64(pa + 1, &mut out);
            proof {
                assert(out@ =~= next_version_spec(all));
            }
            chars_string(&out)
        },
        None => match bn {
            Some(n) => {
                assert(n < 0xffffffffffffffffu64) by {
                    lemma_best_number_bound(all);
                }
                let out = dec_u64_chars(n + 1);
                chars_string(&out)
            },
            None => {
                let mut out: Vec<char> = Vec::new();
                out.push('v');
                out.push('1');
                out.push('.');
                out.push('0');
                out.push('.');
                out.push('0');
                proof {
                    assert(out@ =~= next_version_spec(all));
                }
                chars_string(&out)
            },
        },
    }
}

/// Every part of a classified triple is the value of at most eighteen
/// digits, so it is strictly below the 64-bit maximum.
pub proof fn lemma_classify_bound(t: Seq<char>)
    ensures
        match classify_tag(t) {
            Some(VersionTag::Triple(a, b, c)) => a < 0xffffffffffffffffu64
                && b < 0xffffffffffffffffu64 && c < 0xffffffffffffffffu64,
            Some(VersionTag::Number(n)) => n < 0xffffffffffffffffu64,
            None => true,
        },
{
    let lc = last_colon(t);
    if lc >= 0 {
        let r = t.skip(lc + 1);
        if valid_run(r) {
            lemma_digits_val_bound(r);
            crate::text::lemma_pow10_le_18(r.len());
        } else {
            let body = if r.len() > 0 && r[0] == 'v' {
                r.drop_first()
            } else {
                r
            };
            let d1 = first_dot(body);
            let a = body.take(d1);
            if valid_run(a) {
                lemma_digits_val_bound(a);
                crate::text::lemma_pow10_le_18(a.len());
                if d1 != body.len() {
                    let tail = body.skip(d1 + 1);
                    let d2 = first_dot(tail);
                    let b = tail.take(d2);
                    if valid_run(b) {
                        lemma_digits_val_bound(b);
                        crate::text::lemma_pow10_le_18(b.len());
                        if d2 != tail.len() {
                            let c = tail.skip(d2 + 1);
                            if valid_run(c) {
                                lemma_digits_val_bound(c);
                                crate::text::lemma_pow10_le_18(c.len());
                            }
                        }
                    }
                }
            }
        }
    }
}

/// The resolver never emits a release at or below an observed one: every
/// tag that classifies as a triple lies strictly below the maximum triple
/// with its patch incremented, and every tag that classifies as a bare
/// number lies strictly below the maximum number plus one.
pub proof fn lemma_resolver_monotonic(tags: Seq<Seq<char>>, i: int)
    requires
        0 <= i < tags.len(),
    ensures
        (classify_tag(tags[i]) matches Some(VersionTag::Triple(a, b, c)) ==> (best_triple(tags)
            matches Some(m) && triple_lt((a, b, c), (m.0, m.1, (m.2 + 1) as u64)))),
        (classify_tag(tags[i]) matches Some(VersionTag::Number(n)) ==> (best_number(tags)
            matches Some(x) && n < (x + 1) as u64)),
    decreases tags.len(),
{
    lemma_best_triple_bound(tags);
    lemma_best_number_bound(tags);
    if i == tags.len() - 1 {
        assert(tags.last() == tags[i]);
    } else {
        lemma_resolver_monotonic(tags.drop_last(), i);
        assert(tags.drop_last()[i] == tags[i]);
        lemma_best_triple_bound(tags.drop_last());
        lemma_best_number_bound(tags.drop_last());
    }
}

proof fn lemma_best_triple_bound(tags: Seq<Seq<char>>)
    ensures
        match best_triple(tags) {
            Some((a, b, c)) => a < 0xffffffffffffffffu64 && b < 0xffffffffffffffffu64
                && c < 0xffffffffffffffffu64,
            None => true,
        },
    decreases tags.len(),
{
    if tags.len() > 0 {
        lemma_best_triple_bound(tags.drop_last());
        lemma_classify_bound(tags.last());
    }
}

proof fn lemma_best_number_bound(tags: Seq<Seq<char>>)
    ensures
        match best_number(tags) {
            Some(n) => n < 0xffffffffffffffffu64,
            None => true,
        },
    decreases tags.len(),
{
    if tags.len() > 0 {
        lemma_best_number_bound(tags.drop_last());
        lemma_classify_bound(tags.last());
    }
}

} // verus!
