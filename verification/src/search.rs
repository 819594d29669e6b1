//! Resolving which tracked project a loosely written query names.
//!
//! A query is matched first against the raw recorded paths; failing that,
//! both sides are normalized — lower-cased, backslashes turned into slashes,
//! trailing slashes dropped — and the first record wins whose normalized
//! path equals the term, whose lower-cased name equals it, or whose
//! normalized path ends in a slash and the term.

use vstd::prelude::*;

use crate::client::{strip_trailing, strip_trailing_exec};
use crate::models::Repository;
use crate::text::{eq_chars, str_chars};

verus! {

/// The lower-case form of a string, named after `str::to_lowercase`: the
/// result depends on the characters alone.
pub uninterp spec fn lower_of(s: Seq<char>) -> Seq<char>;

/// Relies on `str::to_lowercase`: the Unicode lower-case form of the text,
/// a function of the characters alone.
#[verifier::external_body]
fn lowercase(s: &str) -> (r: String)
    ensures
        r@ == lower_of(s@),
{
    s.to_lowercase()
}

/// Every backslash turned into a forward slash.
pub open spec fn slashes_of(s: Seq<char>) -> Seq<char> {
    s.map(|_i: int, c: char| if c == '\\' { '/' } else { c })
}

/// How one side of the search is normalized: lower-cased, separators
/// unified, trailing slashes dropped.
pub open spec fn norm_spec(s: Seq<char>) -> Seq<char> {
    strip_trailing(slashes_of(lower_of(s)), '/')
}

/// Whether `s` ends with `suffix`.
pub open spec fn ends_with(s: Seq<char>, suffix: Seq<char>) -> bool {
    s.len() >= suffix.len() && s.skip(s.len() - suffix.len()) == suffix
}

/// Whether one record answers the normalized term: by normalized path, by
/// lower-cased name, or by final path segment.
pub open spec fn repo_matches(r: Repository, term: Seq<char>) -> bool {
    ||| norm_spec(r.path@) == term
    ||| (r.name matches Some(n) && lower_of(n@) == term)
    ||| ends_with(norm_spec(r.path@), seq!['/'] + term)
}

/// The first index whose record's raw path equals the query exactly.
pub open spec fn first_exact(repos: Seq<Repository>, query: Seq<char>) -> Option<int>
    decreases repos.len(),
{
    if repos.len() == 0 {
        None
    } else if repos[0].path@ == query {
        Some(0)
    } else {
        match first_exact(repos.drop_first(), query) {
            Some(i) => Some(i + 1),
            None => None,
        }
    }
}

/// The first index whose record answers the normalized term.
pub open spec fn first_smart(repos: Seq<Repository>, term: Seq<char>) -> Option<int>
    decreases repos.len(),
{
    if repos.len() == 0 {
        None
    } else if repo_matches(repos[0], term) {
        Some(0)
    } else {
        match first_smart(repos.drop_first(), term) {
            Some(i) => Some(i + 1),
            None => None,
        }
    }
}

/// Which record a query resolves to: the first exact raw-path match, or
/// failing that the first normalized match.
pub open spec fn find_repository_spec(repos: Seq<Repository>, query: Seq<char>) -> Option<int> {
    match first_exact(repos, query) {
        Some(i) => Some(i),
        None => first_smart(repos, norm_spec(query)),
    }
}

/// The normalized characters of a string.
fn normalize(s: &str) -> (r: Vec<char>)
    ensures
        r@ == norm_spec(s@),
{
    let low = lowercase(s);
    let chars = str_chars(low.as_str());
    let mut mapped: Vec<char> = Vec::new();
    let mut k: usize = 0;
    while k < chars.len()
        invariant
            k <= chars@.len(),
            mapped@ == slashes_of(chars@.take(k as int)),
        decreases chars@.len() - k,
    {
        let c = chars[k];
        if c == '\\' {
            mapped.push('/');
        } else {
            mapped.push(c);
        }
        k = k + 1;
        proof {
            assert(mapped@ =~= slashes_of(chars@.take(k as int)));
        }
    }
    proof {
        assert(chars@.take(chars@.len() as int) =~= chars@);
    }
    strip_trailing_exec(mapped, '/')
}

/// Whether `v` ends with a slash followed by `t`.
#[verifier::loop_isolation(false)]
fn ends_with_slash_term(v: &Vec<char>, t: &Vec<char>) -> (r: bool)
    ensures
        r == ends_with(v@, seq!['/'] + t@),
{
    let ghost suffix = seq!['/'] + t@;
    if v.len() == 0 || v.len() - 1 < t.len() {
        return false;
    }
    let start = v.len() - t.len() - 1;
    if v[start] != '/' {
        proof {
            assert(v@.skip(start as int)[0] == v@[start as int]);
        }
        return false;
    }
    let mut k: usize = 0;
    while k < t.len()
        invariant
            k <= t@.len(),
            forall|q: int| 0 <= q < k ==> v@[start + 1 + q] == t@[q],
        decreases t@.len() - k,
    {
        if v[start + 1 + k] != t[k] {
            proof {
                assert(v@.skip(start as int)[1 + k] == v@[start + 1 + k]);
                assert(suffix[1 + k] == t@[k as int]);
            }
            return false;
        }
        k = k + 1;
    }
    proof {
        assert(forall|q: int| 0 <= q < suffix.len() ==> v@.skip(start as int)[q] == suffix[q]);
        assert(v@.skip(start as int) =~= suffix);
    }
    true
}

/// Whether one record answers the normalized term.
fn repo_matches_exec(r: &Repository, term: &Vec<char>) -> (res: bool)
    ensures
        res == repo_matches(*r, term@),
{
    let norm_path = normalize(r.path.as_str());
    if eq_chars(&norm_path, term) {
        return true;
    }
    let name_hits = match &r.name {
        Some(n) => {
            let low = lowercase(n.as_str());
            let low_chars = str_chars(low.as_str());
            eq_chars(&low_chars, term)
        },
        None => false,
    };
    if name_hits {
        return true;
    }
    ends_with_slash_term(&norm_path, term)
}

/// Resolves a query to the index of the tracked project it names, trying an
/// exact path match before the normalized search.
pub fn find_repository(repos: &Vec<Repository>, query: &str) -> (r: Option<usize>)
    ensures
        match r {
            Some(k) => find_repository_spec(repos@, query@) == Some(k as int) && k < repos@.len(),
            None => find_repository_spec(repos@, query@) is None,
        },
{
    let query_chars = str_chars(query);
    let mut k: usize = 0;
    proof {
        assert(repos@.skip(0) =~= repos@);
    }
    while k < repos.len()
        invariant
            k <= repos@.len(),
            query_chars@ == query@,
            first_exact(repos@, query@) == match first_exact(repos@.skip(k as int), query@) {
                Some(i) => Some(i + k),
                None => None::<int>,
            },
        decreases repos@.len() - k,
    {
        proof {
            assert(repos@.skip(k as int)[0] == repos@[k as int]);
            assert(repos@.skip(k as int).drop_first() =~= repos@.skip(k as int + 1));
        }
        let path_chars = str_chars(repos[k].path.as_str());
        if eq_chars(&path_chars, &query_chars) {
            return Some(k);
        }
        k = k + 1;
    }
    proof {
        assert(repos@.skip(repos@.len() as int) =~= Seq::<Repository>::empty());
    }
    let term = normalize(query);
    let mut j: usize = 0;
    proof {
        assert(repos@.skip(0) =~= repos@);
    }
    while j < repos.len()
        invariant
            j <= repos@.len(),
            term@ == norm_spec(query@),
            first_exact(repos@, query@) is None,
            first_smart(repos@, norm_spec(query@)) == match first_smart(
                repos@.skip(j as int),
                norm_spec(query@),
            ) {
                Some(i) => Some(i + j),
                None => None::<int>,
            },
        decreases repos@.len() - j,
    {
        proof {
            assert(repos@.skip(j as int)[0] == repos@[j as int]);
            assert(repos@.skip(j as int).drop_first() =~= repos@.skip(j as int + 1));
        }
        if repo_matches_exec(&repos[j], &term) {
            return Some(j);
        }
        j = j + 1;
    }
    proof {
        assert(repos@.skip(repos@.len() as int) =~= Seq::<Repository>::empty());
    }
    None
}

} // verus!
