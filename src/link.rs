//! The continuation link of a paginated feed, read from a `Link` header value
//! such as `<u1>; rel="next", <u2>; rel="last"`.
use vstd::prelude::*;
use crate::text::{opt_chars, matches_at, matches_at_exec, str_eq};

verus! {

/// `k` is the first position at which `p` occurs in `s`.
pub open spec fn is_first_match(s: Seq<char>, p: Seq<char>, k: int) -> bool {
    matches_at(s, p, k) && forall|j: int| 0 <= j < k ==> !matches_at(s, p, j)
}

pub open spec fn segment_sep() -> Seq<char> {
    seq![',', ' ']
}

pub open spec fn relation_sep() -> Seq<char> {
    seq![';', ' ']
}

pub open spec fn next_relation() -> Seq<char> {
    "rel=\"next\""@
}

/// The URL of one segment `<url>; rel="next"`: the segment is cut at its first
/// `"; "`, the part after it must be exactly `rel="next"`, and the part before
/// it must be a URL in angle brackets.
pub open spec fn segment_link(seg: Seq<char>) -> Option<Seq<char>> {
    let k = choose|k: int| is_first_match(seg, relation_sep(), k);
    if is_first_match(seg, relation_sep(), k) {
        let url = seg.subrange(0, k);
        let rel = seg.subrange(k + 2, seg.len() as int);
        if rel == next_relation() && url.len() >= 2 && url[0] == '<' && url[url.len() - 1] == '>' {
            Some(url.subrange(1, url.len() - 1))
        } else {
            None
        }
    } else {
        None
    }
}

/// Walks the segments of `h`, cut at each `", "`, keeping the URL of the
/// latest segment that names a next page (`acc` before any).
pub open spec fn scan_links(h: Seq<char>, acc: Option<Seq<char>>) -> Option<Seq<char>>
    decreases h.len(),
{
    let k = choose|k: int| is_first_match(h, segment_sep(), k);
    if is_first_match(h, segment_sep(), k) {
        let acc2 = match segment_link(h.subrange(0, k)) {
            Some(u) => Some(u),
            None => acc,
        };
        scan_links(h.subrange(k + 2, h.len() as int), acc2)
    } else {
        match segment_link(h) {
            Some(u) => Some(u),
            None => acc,
        }
    }
}

/// The next-page URL named by a `Link` header value, if any.
pub open spec fn next_link_of(h: Seq<char>) -> Option<Seq<char>> {
    scan_links(h, None)
}

pub proof fn lemma_first_match_unique(s: Seq<char>, p: Seq<char>, k: int)
    requires
        is_first_match(s, p, k),
    ensures
        (choose|c: int| is_first_match(s, p, c)) == k,
{
    let c = choose|c: int| is_first_match(s, p, c);
    assert(is_first_match(s, p, c));
    if c < k {
        assert(!matches_at(s, p, c));
    }
    if k < c {
        assert(!matches_at(s, p, k));
    }
}

proof fn lemma_matches_shift(s: Seq<char>, p: Seq<char>, i: int, j: int)
    requires
        0 <= i <= s.len(),
        0 <= j,
    ensures
        matches_at(s.subrange(i, s.len() as int), p, j) == matches_at(s, p, i + j),
{
    if i + j + p.len() <= s.len() {
        assert(s.subrange(i, s.len() as int).subrange(j, j + p.len()) =~= s.subrange(
            i + j,
            i + j + p.len(),
        ));
    }
}

/// The first position at or after `from` at which `p` occurs in `s`.
pub fn find_from(s: &str, p: &str, from: usize) -> (r: Option<usize>)
    requires
        from <= s@.len(),
    ensures
        match r {
            Some(k) => from <= k && matches_at(s@, p@, k as int) && forall|j: int|
                from <= j < k ==> !matches_at(s@, p@, j),
            None => forall|j: int| from <= j ==> !matches_at(s@, p@, j),
        },
{
    let n = s.unicode_len();
    let mut i: usize = from;
    while i < n
        invariant
            from <= i <= n,
            n == s@.len(),
            forall|j: int| from <= j < i ==> !matches_at(s@, p@, j),
        decreases n - i,
    {
        if matches_at_exec(s, p, i) {
            return Some(i);
        }
        i = i + 1;
    }
    if matches_at_exec(s, p, n) {
        return Some(n);
    }
    None
}

/// The URL of one segment, when it names the next page.
fn segment_next(seg: &str) -> (r: Option<String>)
    ensures
        opt_chars(r) == segment_link(seg@),
{
    proof {
        reveal_strlit("; ");
        reveal_strlit("rel=\"next\"");
        assert("; "@ =~= relation_sep());
    }
    let n = seg.unicode_len();
    match find_from(seg, "; ", 0) {
        None => {
            assert forall|k: int| !is_first_match(seg@, relation_sep(), k) by {
                if 0 <= k {
                    assert(!matches_at(seg@, relation_sep(), k));
                }
            }
            None
        },
        Some(k) => {
            proof {
                lemma_first_match_unique(seg@, relation_sep(), k as int);
            }
            let url = seg.substring_char(0, k);
            let rel = seg.substring_char(k + 2, n);
            if str_eq(rel, "rel=\"next\"") && k >= 2 && url.get_char(0) == '<' && url.get_char(k - 1)
                == '>' {
                Some(String::from_str(url.substring_char(1, k - 1)))
            } else {
                None
            }
        },
    }
}

/// The next-page URL named by the `Link` header value `header`, if any: the
/// latest segment `<url>; rel="next"` gives it.
pub fn next_link(header: &str) -> (r: Option<String>)
    ensures
        opt_chars(r) == next_link_of(header@),
{
    proof {
        reveal_strlit(", ");
        assert(", "@ =~= segment_sep());
    }
    let n = header.unicode_len();
    let mut i: usize = 0;
    let mut acc: Option<String> = None;
    assert(header@.subrange(0, n as int) =~= header@);
    loop
        invariant
            i <= n,
            n == header@.len(),
            ", "@ == segment_sep(),
            scan_links(header@.subrange(i as int, n as int), opt_chars(acc)) == next_link_of(header@),
        decreases n - i,
    {
        let ghost rest = header@.subrange(i as int, n as int);
        match find_from(header, ", ", i) {
            Some(k) => {
                proof {
                    assert forall|j: int| 0 <= j < k - i implies !matches_at(rest, segment_sep(), j) by {
                        lemma_matches_shift(header@, segment_sep(), i as int, j);
                    }
                    lemma_matches_shift(header@, segment_sep(), i as int, k - i);
                    lemma_first_match_unique(rest, segment_sep(), k - i);
                    assert(rest.subrange(0, k - i) =~= header@.subrange(i as int, k as int));
                    assert(rest.subrange(k - i + 2, rest.len() as int) =~= header@.subrange(
                        k + 2,
                        n as int,
                    ));
                }
                let seg = header.substring_char(i, k);
                match segment_next(seg) {
                    Some(u) => {
                        acc = Some(u);
                    },
                    None => {},
                }
                i = k + 2;
            },
            None => {
                proof {
                    assert forall|c: int| !is_first_match(rest, segment_sep(), c) by {
                        if 0 <= c {
                            lemma_matches_shift(header@, segment_sep(), i as int, c);
                        }
                    }
                }
                let seg = header.substring_char(i, n);
                match segment_next(seg) {
                    Some(u) => {
                        return Some(u);
                    },
                    None => {
                        return acc;
                    },
                }
            },
        }
    }
}

} // verus!
