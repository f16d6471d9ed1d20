//! Paging through the live feed: each page is folded into the aggregation,
//! and the collector decides which page, if any, to fetch next.
use vstd::prelude::*;
use crate::aggregate::{agg_insert, AggView, Aggregation};
use crate::calendar::Window;
use crate::canon::{canonical_url, canonicalize};
use crate::event::{EventData, FeedEvent};
use crate::link::{next_link, next_link_of};
use crate::routing::{has_sep, project_key};
use crate::text::opt_chars;

verus! {

/// How folding a page ended.
#[derive(Clone, Copy, Debug, PartialEq, Eq, Structural)]
pub enum PageEnd {
    /// Every event was considered.
    Exhausted,
    /// An event older than the window was met: the feed is done.
    ReachedOlder,
    /// A tracked event's repository name holds no `/`.
    BadRepository,
}

/// Folds `evs` into `m` in order. Every event is first placed against the
/// window by its creation month, whatever its kind: one at or after the
/// window's end is skipped, and one before its start ends the fold. An event
/// inside the window of an untracked kind is skipped; a tracked one whose
/// repository yields no project key ends the fold as a failure; otherwise its
/// canonical URL and title are recorded under its project key.
/// The feed lists events newest first, and a later record of a URL replaces
/// the title of an earlier one: the title that stands for a URL is the one of
/// its oldest event inside the window.
pub open spec fn fold_events(m: AggView, evs: Seq<FeedEvent>, w: Window) -> (AggView, PageEnd)
    decreases evs.len(),
{
    if evs.len() == 0 {
        (m, PageEnd::Exhausted)
    } else {
        let rest = evs.subrange(1, evs.len() as int);
        let e = evs[0];
        if !e.created_in.before(w.end) {
            fold_events(m, rest, w)
        } else if e.created_in.before(w.start) {
            (m, PageEnd::ReachedOlder)
        } else {
            match e.event.record() {
                None => fold_events(m, rest, w),
                Some(r) => match project_key(r.0) {
                    None => (m, PageEnd::BadRepository),
                    Some(key) => fold_events(
                        agg_insert(m, key, canonical_url(r.2, r.1), r.3),
                        rest,
                        w,
                    ),
                },
            }
        }
    }
}

/// Once a page holds an event, of any kind, created before the window, and
/// every tracked event inside the window before it names a repository with a
/// `/`, folding the page ends at an older event: pagination stops after this page.
pub proof fn lemma_older_event_ends_feed(m: AggView, evs: Seq<FeedEvent>, w: Window, i: int)
    requires
        w.wf(),
        0 <= i < evs.len(),
        evs[i].created_in.before(w.start),
        forall|j: int|
            0 <= j < i && w.contains_spec(evs[j].created_in) && (#[trigger] evs[j].event.record())
                is Some ==> has_sep(evs[j].event.record().unwrap().0),
    ensures
        fold_events(m, evs, w).1 == PageEnd::ReachedOlder,
    decreases i,
{
    let rest = evs.subrange(1, evs.len() as int);
    if i > 0 {
        assert forall|j: int|
            0 <= j < i - 1 && w.contains_spec(rest[j].created_in) && (
            #[trigger] rest[j].event.record()) is Some implies has_sep(
                rest[j].event.record().unwrap().0,
            ) by {
            assert(rest[j] == evs[j + 1]);
        }
        assert(rest[i - 1] == evs[i]);
        let e = evs[0];
        if w.contains_spec(e.created_in) {
            match e.event.record() {
                None => {
                    lemma_older_event_ends_feed(m, rest, w, i - 1);
                },
                Some(r) => {
                    assert(has_sep(r.0));
                    let key = project_key(r.0).unwrap();
                    lemma_older_event_ends_feed(
                        agg_insert(m, key, canonical_url(r.2, r.1), r.3),
                        rest,
                        w,
                        i - 1,
                    );
                },
            }
        } else {
            lemma_older_event_ends_feed(m, rest, w, i - 1);
        }
    }
}

/// A fatal condition of a run.
#[derive(Clone, Copy, Debug, PartialEq, Eq)]
pub enum DigestError {
    /// A tracked event's repository full name holds no `/`.
    ProjectResolution,
}

/// The state of one pass over the feed.
pub struct Collector {
    window: Window,
    aggregation: Aggregation,
    next: Option<String>,
}

impl Collector {
    pub closed spec fn window_spec(&self) -> Window {
        self.window
    }

    pub closed spec fn agg_spec(&self) -> AggView {
        self.aggregation@
    }

    /// The URL of the page to fetch next, if any.
    pub closed spec fn next_spec(&self) -> Option<Seq<char>> {
        opt_chars(self.next)
    }

    pub closed spec fn wf(&self) -> bool {
        self.aggregation.wf() && self.window.wf()
    }

    /// A collector for `window` that starts at `start_url` with nothing aggregated.
    pub fn new(window: Window, start_url: String) -> (r: Collector)
        requires
            window.wf(),
        ensures
            r.wf(),
            r.window_spec() == window,
            r.agg_spec() == AggView::empty(),
            r.next_spec() == Some(start_url@),
    {
        Collector { window, aggregation: Aggregation::new(), next: Some(start_url) }
    }

    /// Hands out the URL of the page to fetch next, leaving none behind.
    pub fn take_next(&mut self) -> (r: Option<String>)
        ensures
            opt_chars(r) == old(self).next_spec(),
            final(self).next_spec() is None,
            final(self).wf() == old(self).wf(),
            final(self).window_spec() == old(self).window_spec(),
            final(self).agg_spec() == old(self).agg_spec(),
    {
        self.next.take()
    }

    /// The aggregation built so far.
    pub fn aggregation(&self) -> (r: &Aggregation)
        ensures
            r@ == self.agg_spec(),
            self.wf() ==> r.wf(),
    {
        &self.aggregation
    }

    /// Folds one page of events into the aggregation (see `fold_events`).
    /// Returns whether an event older than the window was met.
    pub fn fold_page(&mut self, events: Vec<FeedEvent>) -> (r: Result<bool, DigestError>)
        requires
            old(self).wf(),
        ensures
            final(self).wf(),
            final(self).window_spec() == old(self).window_spec(),
            final(self).next_spec() == old(self).next_spec(),
            ({
                let f = fold_events(old(self).agg_spec(), events@, old(self).window_spec());
                &&& r is Err <==> f.1 == PageEnd::BadRepository
                &&& r matches Ok(older) ==> final(self).agg_spec() == f.0 && older == (f.1
                    == PageEnd::ReachedOlder)
            }),
    {
        let ghost goal = fold_events(self.aggregation@, events@, self.window);
        let mut rest = events;
        while rest.len() > 0
            invariant
                self.wf(),
                self.window_spec() == old(self).window_spec(),
                self.next_spec() == old(self).next_spec(),
                fold_events(self.aggregation@, rest@, self.window) == goal,
                goal == fold_events(old(self).agg_spec(), events@, old(self).window_spec()),
            decreases rest@.len(),
        {
            let ghost before = rest@;
            let e = rest.remove(0);
            assert(rest@ =~= before.subrange(1, before.len() as int));
            if !e.created_in.is_before(&self.window.end) {
            } else if e.created_in.is_before(&self.window.start) {
                return Ok(true);
            } else {
                match e.event.into_parts() {
                    None => {},
                    Some((repo, item)) => {
                        match EventData::new(repo, e.created_in, item) {
                            None => {
                                return Err(DigestError::ProjectResolution);
                            },
                            Some(d) => {
                                let url = canonicalize(d.url.as_str(), d.node_id.as_str());
                                self.aggregation.insert(d.project, url, d.title);
                            },
                        }
                    },
                }
            }
        }
        Ok(false)
    }

    /// Takes one fetched page: the value of its `Link` header, if it had one,
    /// and its events. Without a header the feed has ended (its events are
    /// not read). Otherwise the page's events are folded in, and the next URL
    /// is the header's next-page link, unless an event older than the window
    /// was met.
    pub fn on_page(&mut self, link: Option<String>, events: Vec<FeedEvent>) -> (r: Result<(), DigestError>)
        requires
            old(self).wf(),
        ensures
            final(self).wf(),
            final(self).window_spec() == old(self).window_spec(),
            match link {
                None => r is Ok && final(self).agg_spec() == old(self).agg_spec()
                    && final(self).next_spec() is None,
                Some(h) => {
                    let f = fold_events(old(self).agg_spec(), events@, old(self).window_spec());
                    &&& r is Err <==> f.1 == PageEnd::BadRepository
                    &&& r is Ok ==> final(self).agg_spec() == f.0 && final(self).next_spec() == (
                    if f.1 == PageEnd::ReachedOlder {
                        None
                    } else {
                        next_link_of(h@)
                    })
                },
            },
    {
        match link {
            None => {
                self.next = None;
                Ok(())
            },
            Some(h) => {
                let next = next_link(h.as_str());
                match self.fold_page(events) {
                    Ok(older) => {
                        if older {
                            self.next = None;
                        } else {
                            self.next = next;
                        }
                        Ok(())
                    },
                    Err(e) => Err(e),
                }
            },
        }
    }
}

} // verus!
