//! The report: for each project a heading, an underline of `=` as long as the
//! heading, a blank line, one bullet per item, and a closing blank line.
use vstd::prelude::*;
use crate::aggregate::{AggView, Aggregation, ItemsView};
use crate::text::{matches_at, matches_at_exec, opt_chars};

verus! {

pub open spec fn api_prefix() -> Seq<char> {
    "https://api.github.com/repos"@
}

pub open spec fn web_host() -> Seq<char> {
    "https://github.com"@
}

pub open spec fn web_prefix() -> Seq<char> {
    "https://github.com/"@
}

/// The public web URL of an item URL: an API repository path is moved to the
/// public host, a URL already on the public host is kept, anything else has none.
pub open spec fn public_url(url: Seq<char>) -> Option<Seq<char>> {
    if matches_at(url, api_prefix(), 0) {
        Some(web_host() + url.subrange(api_prefix().len() as int, url.len() as int))
    } else if matches_at(url, web_prefix(), 0) {
        Some(url)
    } else {
        None
    }
}

/// The bullet line of one item; nothing for an item without a public URL.
pub open spec fn item_line(item: (Seq<char>, Seq<char>)) -> Seq<char> {
    match public_url(item.0) {
        Some(u) => "* `"@ + item.1 + " <"@ + u + ">`_\n"@,
        None => Seq::empty(),
    }
}

pub open spec fn item_lines(items: ItemsView) -> Seq<char>
    decreases items.len(),
{
    if items.len() == 0 {
        Seq::empty()
    } else {
        item_lines(items.drop_last()) + item_line(items.last())
    }
}

pub open spec fn underline(n: nat) -> Seq<char> {
    Seq::new(n, |i: int| '=')
}

/// The block of one project.
pub open spec fn project_block(p: (Seq<char>, ItemsView)) -> Seq<char> {
    p.0 + "\n"@ + underline(p.0.len()) + "\n\n"@ + item_lines(p.1) + "\n"@
}

/// The whole report: the blocks of the projects, in order.
pub open spec fn report(m: AggView) -> Seq<char>
    decreases m.len(),
{
    if m.len() == 0 {
        Seq::empty()
    } else {
        report(m.drop_last()) + project_block(m.last())
    }
}

/// The public web URL of `url`, if it has one.
pub fn resolve_url(url: &str) -> (r: Option<String>)
    ensures
        opt_chars(r) == public_url(url@),
{
    proof {
        reveal_strlit("https://api.github.com/repos");
        reveal_strlit("https://github.com/");
    }
    if matches_at_exec(url, "https://api.github.com/repos", 0) {
        let n = url.unicode_len();
        let path = url.substring_char(28, n);
        let host = String::from_str("https://github.com");
        Some(host.concat(path))
    } else if matches_at_exec(url, "https://github.com/", 0) {
        Some(String::from_str(url))
    } else {
        None
    }
}

/// Appends the bullet line of one item to `out`.
fn push_item_line(out: &mut String, url: &str, title: &str)
    ensures
        final(out)@ == old(out)@ + item_line((url@, title@)),
{
    match resolve_url(url) {
        Some(u) => {
            let ghost start = out@;
            out.append("* `");
            out.append(title);
            out.append(" <");
            out.append(u.as_str());
            out.append(">`_\n");
            assert(out@ =~= start + ("* `"@ + title@ + " <"@ + u@ + ">`_\n"@));
        },
        None => {
            assert(old(out)@ + Seq::<char>::empty() =~= old(out)@);
        },
    }
}

/// Appends `n` characters `=` to `out`.
fn push_underline(out: &mut String, n: usize)
    ensures
        final(out)@ == old(out)@ + underline(n as nat),
{
    let ghost start = out@;
    let mut i: usize = 0;
    while i < n
        invariant
            i <= n,
            out@ == start + underline(i as nat),
        decreases n - i,
    {
        proof {
            reveal_strlit("=");
        }
        out.append("=");
        assert(out@ =~= start + underline((i + 1) as nat));
        i = i + 1;
    }
}

/// The report of `agg`.
pub fn render(agg: &Aggregation) -> (r: String)
    ensures
        r@ == report(agg@),
{
    let mut out = String::new();
    let np = agg.len();
    let mut i: usize = 0;
    while i < np
        invariant
            i <= np,
            np == agg@.len(),
            out@ == report(agg@.subrange(0, i as int)),
        decreases np - i,
    {
        let p = agg.project_at(i);
        let key = p.key();
        let ghost start = out@;
        out.append(key);
        out.append("\n");
        push_underline(&mut out, key.unicode_len());
        out.append("\n\n");
        let ghost head = out@;
        let ni = p.len();
        let mut j: usize = 0;
        while j < ni
            invariant
                j <= ni,
                ni == p@.1.len(),
                out@ == head + item_lines(p@.1.subrange(0, j as int)),
            decreases ni - j,
        {
            let e = p.entry(j);
            let ghost before = out@;
            push_item_line(&mut out, e.url(), e.title());
            assert(p@.1.subrange(0, j + 1).drop_last() =~= p@.1.subrange(0, j as int));
            assert(out@ =~= head + item_lines(p@.1.subrange(0, j + 1)));
            j = j + 1;
        }
        out.append("\n");
        assert(p@.1.subrange(0, ni as int) =~= p@.1);
        assert(agg@.subrange(0, i + 1).drop_last() =~= agg@.subrange(0, i as int));
        assert(out@ =~= start + project_block(agg@[i as int]));
        assert(out@ =~= report(agg@.subrange(0, i + 1)));
        i = i + 1;
    }
    assert(agg@.subrange(0, np as int) =~= agg@);
    out
}

} // verus!
