//! The aggregation: for each project key, in order of first appearance, the
//! items of that project as `(url, title)` pairs, unique by URL.
use vstd::prelude::*;
use crate::text::str_eq;

verus! {

/// `(url, title)` pairs of one project.
pub type ItemsView = Seq<(Seq<char>, Seq<char>)>;

/// `(project key, items)` pairs.
pub type AggView = Seq<(Seq<char>, ItemsView)>;

/// No two pairs share a key.
pub open spec fn keys_unique<V>(s: Seq<(Seq<char>, V)>) -> bool {
    forall|i: int, j: int| 0 <= i < s.len() && 0 <= j < s.len() && i != j ==> s[i].0 != s[j].0
}

pub open spec fn has_key<V>(s: Seq<(Seq<char>, V)>, k: Seq<char>) -> bool {
    exists|i: int| 0 <= i < s.len() && s[i].0 == k
}

/// The position of the pair with key `k` (meaningful when `has_key(s, k)`).
pub open spec fn key_index<V>(s: Seq<(Seq<char>, V)>, k: Seq<char>) -> int {
    choose|i: int| 0 <= i < s.len() && s[i].0 == k
}

/// The items after recording `title` for `url`: an existing entry for `url`
/// has its title replaced in place, otherwise the pair is appended.
pub open spec fn upsert_item(items: ItemsView, url: Seq<char>, title: Seq<char>) -> ItemsView {
    if has_key(items, url) {
        items.update(key_index(items, url), (url, title))
    } else {
        items.push((url, title))
    }
}

/// The aggregation after recording `(url, title)` under project `key`.
pub open spec fn agg_insert(m: AggView, key: Seq<char>, url: Seq<char>, title: Seq<char>) -> AggView {
    if has_key(m, key) {
        let i = key_index(m, key);
        m.update(i, (key, upsert_item(m[i].1, url, title)))
    } else {
        m.push((key, seq![(url, title)]))
    }
}

/// Well-formed: project keys are unique, and URLs are unique within each project.
pub open spec fn agg_wf(m: AggView) -> bool {
    keys_unique(m) && forall|i: int| 0 <= i < m.len() ==> keys_unique(#[trigger] m[i].1)
}

pub proof fn lemma_key_index<V>(s: Seq<(Seq<char>, V)>, k: Seq<char>, i: int)
    requires
        keys_unique(s),
        0 <= i < s.len(),
        s[i].0 == k,
    ensures
        has_key(s, k),
        key_index(s, k) == i,
{
    let c = key_index(s, k);
    assert(0 <= c < s.len() && s[c].0 == k);
}

pub proof fn lemma_upsert_unique(items: ItemsView, url: Seq<char>, title: Seq<char>)
    requires
        keys_unique(items),
    ensures
        keys_unique(upsert_item(items, url, title)),
        has_key(upsert_item(items, url, title), url),
{
    let r = upsert_item(items, url, title);
    if has_key(items, url) {
        let c = key_index(items, url);
        assert(r[c].0 == url);
        assert forall|i: int, j: int| 0 <= i < r.len() && 0 <= j < r.len() && i != j implies r[i].0
            != r[j].0 by {
            assert(items[i].0 == r[i].0 && items[j].0 == r[j].0);
        }
    } else {
        assert(r[items.len() as int].0 == url);
        assert forall|i: int, j: int| 0 <= i < r.len() && 0 <= j < r.len() && i != j implies r[i].0
            != r[j].0 by {
            if i < items.len() && j < items.len() {
                assert(items[i].0 == r[i].0 && items[j].0 == r[j].0);
            } else if i < items.len() {
                assert(items[i].0 == r[i].0);
            } else {
                assert(items[j].0 == r[j].0);
            }
        }
    }
}

pub proof fn lemma_insert_wf(m: AggView, key: Seq<char>, url: Seq<char>, title: Seq<char>)
    requires
        agg_wf(m),
    ensures
        agg_wf(agg_insert(m, key, url, title)),
{
    let r = agg_insert(m, key, url, title);
    if has_key(m, key) {
        let c = key_index(m, key);
        lemma_upsert_unique(m[c].1, url, title);
        assert forall|i: int, j: int| 0 <= i < r.len() && 0 <= j < r.len() && i != j implies r[i].0
            != r[j].0 by {
            assert(m[i].0 == r[i].0 && m[j].0 == r[j].0);
        }
        assert forall|i: int| 0 <= i < r.len() implies keys_unique(#[trigger] r[i].1) by {
            if i != c {
                assert(r[i] == m[i]);
            }
        }
    } else {
        let one: ItemsView = seq![(url, title)];
        assert(keys_unique(one));
        assert forall|i: int, j: int| 0 <= i < r.len() && 0 <= j < r.len() && i != j implies r[i].0
            != r[j].0 by {
            if i < m.len() && j < m.len() {
                assert(m[i].0 == r[i].0 && m[j].0 == r[j].0);
            } else if i < m.len() {
                assert(m[i].0 == r[i].0);
            } else {
                assert(m[j].0 == r[j].0);
            }
        }
        assert forall|i: int| 0 <= i < r.len() implies keys_unique(#[trigger] r[i].1) by {
            if i < m.len() {
                assert(r[i] == m[i]);
            } else {
                assert(r[i].1 == one);
            }
        }
    }
}

/// Recording a second title for the same URL of the same project leaves a
/// single entry for that URL, holding the second title.
pub proof fn lemma_last_title_wins(
    m: AggView,
    key: Seq<char>,
    url: Seq<char>,
    first: Seq<char>,
    second: Seq<char>,
)
    requires
        agg_wf(m),
    ensures
        ({
            let r = agg_insert(agg_insert(m, key, url, first), key, url, second);
            &&& agg_wf(r)
            &&& has_key(r, key)
            &&& has_key(r[key_index(r, key)].1, url)
            &&& r[key_index(r, key)].1[key_index(r[key_index(r, key)].1, url)].1 == second
            &&& forall|j: int|
                0 <= j < r[key_index(r, key)].1.len() && #[trigger] r[key_index(r, key)].1[j].0 == url
                    ==> j == key_index(r[key_index(r, key)].1, url)
        }),
{
    let m1 = agg_insert(m, key, url, first);
    lemma_insert_wf(m, key, url, first);
    let r = agg_insert(m1, key, url, second);
    lemma_insert_wf(m1, key, url, second);
    if has_key(m, key) {
        let c = key_index(m, key);
        assert(m1[c].0 == key);
        lemma_key_index(m1, key, c);
    } else {
        assert(m1[m.len() as int].0 == key);
        lemma_key_index(m1, key, m.len() as int);
    }
    let c = key_index(m1, key);
    assert(r[c].0 == key);
    lemma_key_index(r, key, c);
    lemma_upsert_unique(m1[c].1, url, second);
    let items = r[c].1;
    let d = key_index(items, url);
    assert(items == upsert_item(m1[c].1, url, second));
    if has_key(m1[c].1, url) {
        let e = key_index(m1[c].1, url);
        assert(items[e].0 == url);
        lemma_key_index(items, url, e);
    } else {
        assert(items[m1[c].1.len() as int].0 == url);
        lemma_key_index(items, url, m1[c].1.len() as int);
    }
}

/// One `(url, title)` entry.
pub struct Entry {
    url: String,
    title: String,
}

impl View for Entry {
    type V = (Seq<char>, Seq<char>);

    closed spec fn view(&self) -> (Seq<char>, Seq<char>) {
        (self.url@, self.title@)
    }
}

impl Entry {
    pub fn url(&self) -> (r: &str)
        ensures
            r@ == self@.0,
    {
        self.url.as_str()
    }

    pub fn title(&self) -> (r: &str)
        ensures
            r@ == self@.1,
    {
        self.title.as_str()
    }
}

/// The items of one project.
pub struct ProjectItems {
    key: String,
    items: Vec<Entry>,
}

impl View for ProjectItems {
    type V = (Seq<char>, ItemsView);

    closed spec fn view(&self) -> (Seq<char>, ItemsView) {
        (self.key@, self.items@.map_values(|e: Entry| e@))
    }
}

impl ProjectItems {
    pub fn key(&self) -> (r: &str)
        ensures
            r@ == self@.0,
    {
        self.key.as_str()
    }

    pub fn len(&self) -> (r: usize)
        ensures
            r == self@.1.len(),
    {
        self.items.len()
    }

    pub fn entry(&self, i: usize) -> (r: &Entry)
        requires
            i < self@.1.len(),
        ensures
            r@ == self@.1[i as int],
    {
        &self.items[i]
    }

    /// Records `title` for `url`, replacing the title of an existing entry.
    fn upsert(&mut self, url: String, title: String)
        requires
            keys_unique(old(self)@.1),
        ensures
            final(self)@ == (old(self)@.0, upsert_item(old(self)@.1, url@, title@)),
    {
        let n = self.items.len();
        let mut i: usize = 0;
        while i < n && !str_eq(self.items[i].url.as_str(), url.as_str())
            invariant
                i <= n,
                n == self@.1.len(),
                forall|j: int| 0 <= j < i ==> self@.1[j].0 != url@,
            decreases n - i,
        {
            i = i + 1;
        }
        let ghost before = self@;
        if i < n {
            proof {
                lemma_key_index(before.1, url@, i as int);
            }
            self.items.remove(i);
            self.items.insert(i, Entry { url, title });
            assert(self@.1 =~= upsert_item(before.1, url@, title@));
        } else {
            assert(!has_key(before.1, url@));
            self.items.push(Entry { url, title });
            assert(self@.1 =~= upsert_item(before.1, url@, title@));
        }
    }
}

/// Project key to items, projects in order of first appearance.
pub struct Aggregation {
    projects: Vec<ProjectItems>,
}

impl View for Aggregation {
    type V = AggView;

    closed spec fn view(&self) -> AggView {
        self.projects@.map_values(|p: ProjectItems| p@)
    }
}

impl Aggregation {
    pub open spec fn wf(&self) -> bool {
        agg_wf(self@)
    }

    /// An aggregation with no projects.
    pub fn new() -> (r: Aggregation)
        ensures
            r.wf(),
            r@ == AggView::empty(),
    {
        let r = Aggregation { projects: Vec::new() };
        assert(r@ =~= AggView::empty());
        r
    }

    /// Number of projects.
    pub fn len(&self) -> (r: usize)
        ensures
            r == self@.len(),
    {
        self.projects.len()
    }

    pub fn project_at(&self, i: usize) -> (r: &ProjectItems)
        requires
            i < self@.len(),
        ensures
            r@ == self@[i as int],
    {
        &self.projects[i]
    }

    /// Records `(url, title)` under project `key`, replacing the title of an
    /// entry with the same URL in that project.
    pub fn insert(&mut self, key: String, url: String, title: String)
        requires
            old(self).wf(),
        ensures
            final(self).wf(),
            final(self)@ == agg_insert(old(self)@, key@, url@, title@),
    {
        let n = self.projects.len();
        let mut i: usize = 0;
        while i < n && !str_eq(self.projects[i].key.as_str(), key.as_str())
            invariant
                i <= n,
                n == self@.len(),
                forall|j: int| 0 <= j < i ==> self@[j].0 != key@,
            decreases n - i,
        {
            i = i + 1;
        }
        let ghost before = self@;
        proof {
            lemma_insert_wf(before, key@, url@, title@);
        }
        if i < n {
            proof {
                lemma_key_index(before, key@, i as int);
            }
            let mut p = self.projects.remove(i);
            assert(p@ == before[i as int]);
            p.upsert(url, title);
            self.projects.insert(i, p);
            assert(self@ =~= agg_insert(before, key@, url@, title@));
        } else {
            assert(!has_key(before, key@));
            let mut items = Vec::new();
            items.push(Entry { url, title });
            let p = ProjectItems { key, items };
            assert(p@.1 =~= seq![(url@, title@)]);
            self.projects.push(p);
            assert(self@ =~= agg_insert(before, key@, url@, title@));
        }
    }
}

} // verus!
