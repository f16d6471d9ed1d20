//! Routing a repository full name `owner/repo` to a project key.
use vstd::prelude::*;
use crate::text::str_eq;

verus! {

/// Owners whose personal repositories are grouped by repository name alone.
pub open spec fn is_exception_owner(owner: Seq<char>) -> bool {
    owner == "djc"@ || owner == "nicoburns"@ || owner == "seanmonstar"@
}

/// `k` is the position of the first `/` in `s`.
pub open spec fn is_first_sep(s: Seq<char>, k: int) -> bool {
    0 <= k < s.len() && s[k] == '/' && forall|j: int| 0 <= j < k ==> s[j] != '/'
}

pub open spec fn has_sep(s: Seq<char>) -> bool {
    exists|k: int| 0 <= k < s.len() && s[k] == '/'
}

/// The project key of a repository full name: the part after the first `/`
/// when the part before it is an exception owner, the whole name otherwise,
/// and nothing when the name holds no `/`.
pub open spec fn project_key(name: Seq<char>) -> Option<Seq<char>> {
    if has_sep(name) {
        let k = choose|k: int| is_first_sep(name, k);
        if is_exception_owner(name.subrange(0, k)) {
            Some(name.subrange(k + 1, name.len() as int))
        } else {
            Some(name)
        }
    } else {
        None
    }
}

/// For a full name `owner/repo` whose owner holds no `/`, the project key is
/// `repo` when the owner is an exception owner and `owner/repo` otherwise.
pub proof fn lemma_route_full_name(owner: Seq<char>, repo: Seq<char>)
    requires
        forall|j: int| 0 <= j < owner.len() ==> owner[j] != '/',
    ensures
        project_key(owner + seq!['/'] + repo) == if is_exception_owner(owner) {
            Some(repo)
        } else {
            Some(owner + seq!['/'] + repo)
        },
{
    let name = owner + seq!['/'] + repo;
    let k = owner.len() as int;
    assert(name[k] == '/');
    assert(is_first_sep(name, k));
    let c = choose|c: int| is_first_sep(name, c);
    if c < k {
        assert(name[c] == owner[c]);
    }
    if k < c {
        assert(name[k] != '/');
    }
    assert(c == k);
    assert(name.subrange(0, k) =~= owner);
    assert(name.subrange(k + 1, name.len() as int) =~= repo);
}

/// Whether `owner` is one of the exception owners.
pub fn is_exception(owner: &str) -> (r: bool)
    ensures
        r == is_exception_owner(owner@),
{
    proof {
        reveal_strlit("djc");
        reveal_strlit("nicoburns");
        reveal_strlit("seanmonstar");
    }
    str_eq(owner, "djc") || str_eq(owner, "nicoburns") || str_eq(owner, "seanmonstar")
}

/// The project key of the repository full name `name`; `None` when it
/// holds no `/` separator.
pub fn project(name: String) -> (r: Option<String>)
    ensures
        r is None <==> !has_sep(name@),
        r matches Some(key) ==> Some(key@) == project_key(name@),
{
    let s = name.as_str();
    let n = s.unicode_len();
    let mut k: usize = 0;
    while k < n && s.get_char(k) != '/'
        invariant
            k <= n,
            n == s@.len(),
            forall|j: int| 0 <= j < k ==> s@[j] != '/',
        decreases n - k,
    {
        k = k + 1;
    }
    if k == n {
        return None;
    }
    assert(s@[k as int] == '/');
    proof {
        let c = choose|c: int| is_first_sep(s@, c);
        assert(is_first_sep(s@, k as int));
        assert(is_first_sep(s@, c));
        if c < k {
            assert(s@[c] != '/');
        }
        if k < c {
            assert(s@[k as int] != '/');
        }
        assert(c == k);
    }
    let owner = s.substring_char(0, k);
    if is_exception(owner) {
        let repo = s.substring_char(k + 1, n);
        Some(String::from_str(repo))
    } else {
        Some(name.clone())
    }
}

} // verus!
