//! Canonical public web paths for item URLs: only the path segment that names
//! the item kind, the one after `/repos/{owner}/{repo}/`, is ever rewritten.
use vstd::prelude::*;
use crate::link::{find_from, is_first_match, lemma_first_match_unique};
use crate::text::{matches_at, matches_at_exec, starts_with, str_eq};

verus! {

pub open spec fn repos_seg() -> Seq<char> {
    seq!['/', 'r', 'e', 'p', 'o', 's', '/']
}

pub open spec fn issues_kind() -> Seq<char> {
    seq!['i', 's', 's', 'u', 'e', 's']
}

pub open spec fn pulls_kind() -> Seq<char> {
    seq!['p', 'u', 'l', 'l', 's']
}

pub open spec fn pull_kind() -> Seq<char> {
    seq!['p', 'u', 'l', 'l']
}

pub open spec fn pr_prefix() -> Seq<char> {
    "PR_"@
}

/// `k` is the first `/` in `s` at or after `from`.
pub open spec fn is_next_slash(s: Seq<char>, from: int, k: int) -> bool {
    0 <= from <= k < s.len() && s[k] == '/' && forall|j: int| from <= j < k ==> s[j] != '/'
}

/// The first `/` in `s` at or after `from`, if any.
pub open spec fn next_slash(s: Seq<char>, from: int) -> Option<int> {
    let k = choose|k: int| is_next_slash(s, from, k);
    if is_next_slash(s, from, k) {
        Some(k)
    } else {
        None
    }
}

/// Bounds `(start, end)` of the item-kind segment: the segment after the
/// owner and repository segments that follow the first `/repos/`, ended by a `/`.
pub open spec fn kind_segment(url: Seq<char>) -> Option<(int, int)> {
    let k = choose|k: int| is_first_match(url, repos_seg(), k);
    if is_first_match(url, repos_seg(), k) {
        match next_slash(url, k + 7) {
            Some(j1) => match next_slash(url, j1 + 1) {
                Some(j2) => match next_slash(url, j2 + 1) {
                    Some(j3) => Some((j2 + 1, j3)),
                    None => None,
                },
                None => None,
            },
            None => None,
        }
    } else {
        None
    }
}

/// Whether an item-kind segment `kind` of an item with `node_id` is rewritten:
/// `issues` for an item whose node id marks a pull request, and `pulls`.
pub open spec fn rewrites_kind(kind: Seq<char>, node_id: Seq<char>) -> bool {
    (kind == issues_kind() && starts_with(node_id, pr_prefix())) || kind == pulls_kind()
}

/// At most one rewrite: a rewritten item-kind segment becomes `pull`; every
/// other part of the URL is kept.
pub open spec fn canonical_url(url: Seq<char>, node_id: Seq<char>) -> Seq<char> {
    match kind_segment(url) {
        Some((a, b)) => if rewrites_kind(url.subrange(a, b), node_id) {
            url.subrange(0, a) + pull_kind() + url.subrange(b, url.len() as int)
        } else {
            url
        },
        None => url,
    }
}

proof fn lemma_next_slash(s: Seq<char>, from: int, k: int)
    requires
        is_next_slash(s, from, k),
    ensures
        next_slash(s, from) == Some(k),
{
    let c = choose|c: int| is_next_slash(s, from, c);
    assert(is_next_slash(s, from, c));
    if c < k {
        assert(s[c] != '/');
    }
    if k < c {
        assert(s[k] != '/');
    }
}

/// The first `/` in `s` at or after `from`.
fn next_slash_exec(s: &str, from: usize) -> (r: Option<usize>)
    ensures
        match r {
            Some(k) => is_next_slash(s@, from as int, k as int),
            None => forall|k: int| !is_next_slash(s@, from as int, k),
        },
{
    let n = s.unicode_len();
    if from > n {
        return None;
    }
    let mut i: usize = from;
    while i < n && s.get_char(i) != '/'
        invariant
            from <= i <= n,
            n == s@.len(),
            forall|j: int| from <= j < i ==> s@[j] != '/',
        decreases n - i,
    {
        i = i + 1;
    }
    if i == n {
        proof {
            assert forall|k: int| !is_next_slash(s@, from as int, k) by {
                if is_next_slash(s@, from as int, k) {
                    assert(s@[k] != '/');
                }
            }
        }
        None
    } else {
        Some(i)
    }
}

/// Bounds of the item-kind segment of `url`, if it has one.
fn kind_segment_exec(url: &str) -> (r: Option<(usize, usize)>)
    ensures
        match r {
            Some((a, b)) => kind_segment(url@) == Some((a as int, b as int)),
            None => kind_segment(url@) is None,
        },
{
    proof {
        reveal_strlit("/repos/");
        assert("/repos/"@ =~= repos_seg());
    }
    let n = url.unicode_len();
    let k = match find_from(url, "/repos/", 0) {
        Some(k) => k,
        None => {
            proof {
                assert forall|c: int| !is_first_match(url@, repos_seg(), c) by {
                    if 0 <= c {
                        assert(!matches_at(url@, repos_seg(), c));
                    }
                }
            }
            return None;
        },
    };
    proof {
        lemma_first_match_unique(url@, repos_seg(), k as int);
        assert(k + 7 <= n);
    }
    let j1 = match next_slash_exec(url, k + 7) {
        Some(j) => j,
        None => {
            return None;
        },
    };
    proof {
        lemma_next_slash(url@, k + 7, j1 as int);
    }
    let j2 = match next_slash_exec(url, j1 + 1) {
        Some(j) => j,
        None => {
            return None;
        },
    };
    proof {
        lemma_next_slash(url@, j1 + 1, j2 as int);
    }
    let j3 = match next_slash_exec(url, j2 + 1) {
        Some(j) => j,
        None => {
            return None;
        },
    };
    proof {
        lemma_next_slash(url@, j2 + 1, j3 as int);
    }
    Some((j2 + 1, j3))
}

/// The canonical form of `url` for an item with `node_id`.
pub fn canonicalize(url: &str, node_id: &str) -> (r: String)
    ensures
        r@ == canonical_url(url@, node_id@),
{
    proof {
        reveal_strlit("issues");
        reveal_strlit("pulls");
        reveal_strlit("pull");
        reveal_strlit("PR_");
        assert("issues"@ =~= issues_kind());
        assert("pulls"@ =~= pulls_kind());
        assert("pull"@ =~= pull_kind());
    }
    match kind_segment_exec(url) {
        Some((a, b)) => {
            let kind = url.substring_char(a, b);
            if (str_eq(kind, "issues") && matches_at_exec(node_id, "PR_", 0)) || str_eq(
                kind,
                "pulls",
            ) {
                let n = url.unicode_len();
                let head = String::from_str(url.substring_char(0, a));
                head.concat("pull").concat(url.substring_char(b, n))
            } else {
                String::from_str(url)
            }
        },
        None => String::from_str(url),
    }
}

/// Canonicalization is idempotent: a canonical URL is its own canonical form.
pub proof fn lemma_canonical_idempotent(url: Seq<char>, node_id: Seq<char>)
    ensures
        canonical_url(canonical_url(url, node_id), node_id) == canonical_url(url, node_id),
{
    match kind_segment(url) {
        Some((a, b)) => {
            if rewrites_kind(url.subrange(a, b), node_id) {
                let t = url.subrange(0, a) + pull_kind() + url.subrange(b, url.len() as int);
                let k = choose|k: int| is_first_match(url, repos_seg(), k);
                let j1 = next_slash(url, k + 7)->0;
                let j2 = next_slash(url, j1 + 1)->0;
                assert(is_next_slash(url, k + 7, j1));
                assert(is_next_slash(url, j1 + 1, j2));
                assert(is_next_slash(url, j2 + 1, b));
                assert(forall|i: int| 0 <= i < a ==> t[i] == url[i]);
                assert(t.subrange(k, k + 7) =~= url.subrange(k, k + 7));
                assert forall|j: int| 0 <= j < k implies !matches_at(t, repos_seg(), j) by {
                    assert(t.subrange(j, j + 7) =~= url.subrange(j, j + 7));
                    assert(!matches_at(url, repos_seg(), j));
                }
                assert(is_first_match(t, repos_seg(), k));
                lemma_first_match_unique(t, repos_seg(), k);
                assert(is_next_slash(t, k + 7, j1));
                lemma_next_slash(t, k + 7, j1);
                assert(is_next_slash(t, j1 + 1, j2));
                lemma_next_slash(t, j1 + 1, j2);
                assert(t[a + 4] == url[b]);
                assert(is_next_slash(t, a, a + 4));
                lemma_next_slash(t, a, a + 4);
                assert(t.subrange(a, a + 4) =~= pull_kind());
                assert(pull_kind() != issues_kind() && pull_kind() != pulls_kind()) by {
                    assert(pull_kind().len() != issues_kind().len());
                    assert(pull_kind().len() != pulls_kind().len());
                }
            }
        },
        None => {},
    }
}

} // verus!
