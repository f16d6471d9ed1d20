use activity_digest::aggregate::Aggregation;
use activity_digest::calendar::{cache_file_name, month_key, Window, YearMonth};
use activity_digest::canon::canonicalize;
use activity_digest::event::{
    Envelope, Event, EventData, EventMeta, FeedEvent, IssueEvent, ItemMeta, PullRequestEvent, ReleaseData,
    ReleaseEvent, Repo,
};
use activity_digest::feed::{Collector, DigestError};
use activity_digest::link::next_link;
use activity_digest::render::{render, resolve_url};
use activity_digest::routing::{is_exception, project};

fn item(node_id: &str, url: &str, title: &str) -> ItemMeta {
    ItemMeta { node_id: node_id.to_string(), url: url.to_string(), title: title.to_string() }
}

fn at(year: i32, month: u32, event: Event) -> FeedEvent {
    FeedEvent { created_in: YearMonth { year, month }, event }
}

fn issue_event(repo: &str, year: i32, month: u32, it: ItemMeta) -> FeedEvent {
    at(year, month, Event::Issues(EventMeta {
        repo: Repo { name: repo.to_string() },
        payload: IssueEvent { issue: it },
    }))
}

fn pr_event(repo: &str, year: i32, month: u32, it: ItemMeta) -> FeedEvent {
    at(year, month, Event::PullRequest(EventMeta {
        repo: Repo { name: repo.to_string() },
        payload: PullRequestEvent { pull_request: it },
    }))
}

fn march() -> Window {
    Window::of_month(YearMonth { year: 2024, month: 3 })
}

fn collector() -> Collector {
    Collector::new(march(), "https://api.github.com/events?per_page=100".to_string())
}

#[test]
fn exception_owner_routes_to_repo() {
    assert_eq!(project("djc/foo".to_string()), Some("foo".to_string()));
    assert_eq!(project("nicoburns/taffy".to_string()), Some("taffy".to_string()));
    assert_eq!(project("seanmonstar/reqwest".to_string()), Some("reqwest".to_string()));
}

#[test]
fn other_owner_keeps_full_name() {
    assert_eq!(project("bar/foo".to_string()), Some("bar/foo".to_string()));
    assert_eq!(project("djcx/foo".to_string()), Some("djcx/foo".to_string()));
    assert_eq!(project("dj/foo".to_string()), Some("dj/foo".to_string()));
}

#[test]
fn routing_splits_at_first_separator() {
    assert_eq!(project("djc/a/b".to_string()), Some("a/b".to_string()));
    assert_eq!(project("djc/".to_string()), Some("".to_string()));
}

#[test]
fn malformed_name_has_no_project() {
    assert_eq!(project("djcfoo".to_string()), None);
    assert_eq!(project("".to_string()), None);
}

#[test]
fn exception_set_membership() {
    assert!(is_exception("djc"));
    assert!(!is_exception("Djc"));
    assert!(!is_exception(""));
}

#[test]
fn issues_path_of_pull_request_becomes_pull() {
    let u = "https://api.github.com/repos/o/r/issues/42";
    let once = canonicalize(u, "PR_kwDO");
    assert_eq!(once, "https://api.github.com/repos/o/r/pull/42");
    assert_eq!(canonicalize(&once, "PR_kwDO"), once);
}

#[test]
fn issues_path_of_issue_is_kept() {
    let u = "https://api.github.com/repos/o/r/issues/42";
    assert_eq!(canonicalize(u, "I_kwDO"), u);
}

#[test]
fn pulls_path_becomes_pull() {
    let u = "https://api.github.com/repos/o/r/pulls/7";
    let once = canonicalize(u, "PR_x");
    assert_eq!(once, "https://api.github.com/repos/o/r/pull/7");
    assert_eq!(canonicalize(&once, "PR_x"), once);
    assert_eq!(canonicalize(u, "I_x"), "https://api.github.com/repos/o/r/pull/7");
}

#[test]
fn only_the_kind_segment_is_rewritten() {
    let u = "https://api.github.com/repos/o/issues/issues/1";
    let once = canonicalize(u, "PR_x");
    assert_eq!(once, "https://api.github.com/repos/o/issues/pull/1");
    assert_eq!(canonicalize(&once, "PR_x"), once);
    let u = "https://api.github.com/repos/o/pulls/issues/5";
    assert_eq!(canonicalize(u, "I_1"), u);
    let u = "https://api.github.com/repos/pulls/pulls/pulls/9";
    assert_eq!(canonicalize(u, "PR_1"), "https://api.github.com/repos/pulls/pulls/pull/9");
}

#[test]
fn url_without_kind_segment_is_kept() {
    let u = "https://github.com/djc/foo/releases/tag/v1";
    assert_eq!(canonicalize(u, "RE_1"), u);
    assert_eq!(canonicalize("https://api.github.com/repos/o/r/pulls", "PR_1"), "https://api.github.com/repos/o/r/pulls");
    assert_eq!(canonicalize("", "PR_1"), "");
}

#[test]
fn same_url_keeps_last_title() {
    let mut agg = Aggregation::new();
    agg.insert("p".to_string(), "X".to_string(), "A".to_string());
    agg.insert("p".to_string(), "X".to_string(), "B".to_string());
    assert_eq!(agg.len(), 1);
    let p = agg.project_at(0);
    assert_eq!(p.key(), "p");
    assert_eq!(p.len(), 1);
    assert_eq!(p.entry(0).url(), "X");
    assert_eq!(p.entry(0).title(), "B");
}

#[test]
fn distinct_urls_and_projects_are_kept_in_order() {
    let mut agg = Aggregation::new();
    agg.insert("p".to_string(), "X".to_string(), "A".to_string());
    agg.insert("q".to_string(), "Y".to_string(), "C".to_string());
    agg.insert("p".to_string(), "Z".to_string(), "D".to_string());
    assert_eq!(agg.len(), 2);
    assert_eq!(agg.project_at(0).len(), 2);
    assert_eq!(agg.project_at(0).entry(1).url(), "Z");
    assert_eq!(agg.project_at(1).key(), "q");
}

#[test]
fn next_link_is_found() {
    let h = "<https://api.github.com/events?page=2>; rel=\"next\", <https://api.github.com/events?page=10>; rel=\"last\"";
    assert_eq!(next_link(h), Some("https://api.github.com/events?page=2".to_string()));
}

#[test]
fn next_link_absent() {
    let h = "<https://api.github.com/events?page=1>; rel=\"prev\", <https://api.github.com/events?page=10>; rel=\"last\"";
    assert_eq!(next_link(h), None);
    assert_eq!(next_link(""), None);
    assert_eq!(next_link("<u>; rel=\"nextpage\""), None);
}

#[test]
fn next_link_last_segment() {
    assert_eq!(next_link("<a>; rel=\"prev\", <b>; rel=\"next\""), Some("b".to_string()));
}

#[test]
fn window_bounds() {
    let w = march();
    assert!(w.contains(&YearMonth { year: 2024, month: 3 }));
    assert!(!w.contains(&YearMonth { year: 2024, month: 4 }));
    assert!(!w.contains(&YearMonth { year: 2024, month: 2 }));
    let dec = Window::of_month(YearMonth { year: 2023, month: 12 });
    assert!(!dec.contains(&YearMonth { year: 2024, month: 1 }));
    assert!(dec.contains(&YearMonth { year: 2023, month: 12 }));
}

#[test]
fn older_event_stops_pagination() {
    let mut c = collector();
    assert!(c.take_next().is_some());
    let events = vec![
        issue_event("bar/baz", 2024, 3, item("I_1", "https://api.github.com/repos/bar/baz/issues/1", "one")),
        issue_event("bar/baz", 2024, 2, item("I_2", "https://api.github.com/repos/bar/baz/issues/2", "two")),
        issue_event("bar/baz", 2024, 3, item("I_3", "https://api.github.com/repos/bar/baz/issues/3", "three")),
    ];
    let link = "<https://api.github.com/events?page=2>; rel=\"next\"".to_string();
    assert_eq!(c.on_page(Some(link), events), Ok(()));
    assert_eq!(c.take_next(), None);
    let agg = c.aggregation();
    assert_eq!(agg.len(), 1);
    assert_eq!(agg.project_at(0).len(), 1);
    assert_eq!(agg.project_at(0).entry(0).title(), "one");
}

#[test]
fn newer_events_are_skipped_and_paging_continues() {
    let mut c = collector();
    c.take_next();
    let events = vec![
        at(2024, 3, Event::Push),
        issue_event("bar/baz", 2024, 4, item("I_1", "https://api.github.com/repos/bar/baz/issues/1", "new")),
        pr_event("bar/baz", 2024, 3, item("PR_2", "https://api.github.com/repos/bar/baz/pulls/2", "pr")),
    ];
    let link = "<https://api.github.com/events?page=2>; rel=\"next\"".to_string();
    assert_eq!(c.on_page(Some(link), events), Ok(()));
    assert_eq!(c.take_next(), Some("https://api.github.com/events?page=2".to_string()));
    let agg = c.aggregation();
    assert_eq!(agg.len(), 1);
    assert_eq!(agg.project_at(0).entry(0).url(), "https://api.github.com/repos/bar/baz/pull/2");
}

#[test]
fn missing_link_header_ends_feed() {
    let mut c = collector();
    c.take_next();
    let events = vec![issue_event("bar/baz", 2024, 3, item("I_1", "https://api.github.com/repos/bar/baz/issues/1", "x"))];
    assert_eq!(c.on_page(None, events), Ok(()));
    assert_eq!(c.take_next(), None);
    assert_eq!(c.aggregation().len(), 0);
}

#[test]
fn malformed_repository_is_fatal() {
    let mut c = collector();
    c.take_next();
    let events = vec![issue_event("nobody", 2024, 3, item("I_1", "https://api.github.com/repos/x/issues/1", "x"))];
    let link = "<https://api.github.com/events?page=2>; rel=\"next\"".to_string();
    assert_eq!(c.on_page(Some(link), events), Err(DigestError::ProjectResolution));
}

#[test]
fn release_fields_map_to_item() {
    let ev = ReleaseEvent {
        release: ReleaseData {
            node_id: "RE_1".to_string(),
            html_url: "https://github.com/djc/foo/releases/tag/v1".to_string(),
            name: "v1".to_string(),
        },
    };
    let it = ev.into_item();
    assert_eq!(it.node_id, "RE_1");
    assert_eq!(it.url, "https://github.com/djc/foo/releases/tag/v1");
    assert_eq!(it.title, "v1");
}

#[test]
fn untracked_kinds_have_no_parts() {
    assert!(Event::Watch.into_parts().is_none());
    assert!(Event::Fork.into_parts().is_none());
    assert!(Event::Other.into_parts().is_none());
    let ev = issue_event("djc/foo", 2024, 3, item("I_1", "u", "t"));
    assert_eq!(ev.created_in, YearMonth { year: 2024, month: 3 });
    let (repo, it) = ev.event.into_parts().unwrap();
    assert_eq!(repo.name, "djc/foo");
    assert_eq!(it.title, "t");
}

#[test]
fn older_untracked_event_stops_pagination() {
    let mut c = collector();
    c.take_next();
    let events = vec![
        issue_event("bar/baz", 2024, 3, item("I_1", "https://api.github.com/repos/bar/baz/issues/1", "one")),
        at(2024, 2, Event::Watch),
        issue_event("bar/baz", 2024, 3, item("I_3", "https://api.github.com/repos/bar/baz/issues/3", "three")),
    ];
    let link = "<https://api.github.com/events?page=2>; rel=\"next\"".to_string();
    assert_eq!(c.on_page(Some(link), events), Ok(()));
    assert_eq!(c.take_next(), None);
    assert_eq!(c.aggregation().project_at(0).len(), 1);
}

#[test]
fn malformed_repository_outside_window_is_skipped() {
    let mut c = collector();
    c.take_next();
    let events = vec![issue_event("nobody", 2024, 4, item("I_1", "u", "x"))];
    let link = "<https://api.github.com/events?page=2>; rel=\"next\"".to_string();
    assert_eq!(c.on_page(Some(link), events), Ok(()));
    assert_eq!(c.take_next(), Some("https://api.github.com/events?page=2".to_string()));
}

#[test]
fn event_data_routes_project() {
    let d = EventData::new(Repo { name: "djc/foo".to_string() }, YearMonth { year: 2024, month: 3 }, item("I_1", "u", "t")).unwrap();
    assert_eq!(d.project, "foo");
    assert_eq!(d.url, "u");
    assert!(EventData::new(Repo { name: "foo".to_string() }, YearMonth { year: 2024, month: 3 }, item("I_1", "u", "t")).is_none());
}

#[test]
fn envelope_with_issue_yields_issue() {
    let e = Envelope { issue: Some(item("I_1", "iu", "issue")), pull_request: None };
    assert_eq!(e.into_item().unwrap().title, "issue");
}

#[test]
fn envelope_with_pull_request_yields_pull_request() {
    let e = Envelope { issue: None, pull_request: Some(item("PR_1", "pu", "pr")) };
    assert_eq!(e.into_item().unwrap().title, "pr");
}

#[test]
fn envelope_with_neither_or_both_is_skipped() {
    assert!(Envelope { issue: None, pull_request: None }.into_item().is_none());
    let both = Envelope { issue: Some(item("I_1", "iu", "i")), pull_request: Some(item("PR_1", "pu", "p")) };
    assert!(both.into_item().is_none());
}

#[test]
fn resolve_api_and_public_urls() {
    assert_eq!(
        resolve_url("https://api.github.com/repos/djc/foo/issues/1"),
        Some("https://github.com/djc/foo/issues/1".to_string())
    );
    assert_eq!(
        resolve_url("https://github.com/djc/foo/releases/tag/v1"),
        Some("https://github.com/djc/foo/releases/tag/v1".to_string())
    );
    assert_eq!(resolve_url("https://example.com/x"), None);
}

#[test]
fn unexpected_url_is_left_out_of_report() {
    let mut agg = Aggregation::new();
    agg.insert("p".to_string(), "https://example.com/x".to_string(), "odd".to_string());
    assert_eq!(render(&agg), "p\n=\n\n\n");
}

#[test]
fn empty_aggregation_renders_nothing() {
    assert_eq!(render(&Aggregation::new()), "");
}

#[test]
fn two_projects_end_to_end() {
    let mut c = collector();
    c.take_next();
    let events = vec![
        issue_event("djc/foo", 2024, 3, item("I_1", "https://api.github.com/repos/djc/foo/issues/1", "First")),
        issue_event("bar/baz", 2024, 3, item("I_2", "https://api.github.com/repos/bar/baz/issues/2", "Second")),
    ];
    let link = "<https://api.github.com/events?page=2>; rel=\"next\"".to_string();
    assert_eq!(c.on_page(Some(link), events), Ok(()));
    let out = render(c.aggregation());
    assert_eq!(
        out,
        "foo\n===\n\n* `First <https://github.com/djc/foo/issues/1>`_\n\nbar/baz\n=======\n\n* `Second <https://github.com/bar/baz/issues/2>`_\n\n"
    );
}

#[test]
fn month_key_strips_hyphens() {
    assert_eq!(month_key("2024-03"), "202403");
    assert_eq!(month_key("202403"), "202403");
    assert_eq!(month_key("-2-0-"), "20");
    assert_eq!(cache_file_name("2024-03"), "202403.json");
}

#[test]
fn oldest_title_in_window_wins_on_one_page() {
    let mut c = collector();
    c.take_next();
    let u = "https://api.github.com/repos/bar/baz/issues/5";
    let events = vec![
        issue_event("bar/baz", 2024, 3, item("I_5", u, "renamed")),
        issue_event("bar/baz", 2024, 3, item("I_5", u, "original")),
    ];
    let link = "<https://api.github.com/events?page=2>; rel=\"next\"".to_string();
    assert_eq!(c.on_page(Some(link), events), Ok(()));
    let p = c.aggregation().project_at(0);
    assert_eq!(p.len(), 1);
    assert_eq!(p.entry(0).title(), "original");
}

#[test]
fn month_of_date() {
    let d = chrono::NaiveDate::from_ymd_opt(2023, 12, 31).unwrap();
    assert_eq!(YearMonth::of_date(&d), YearMonth { year: 2023, month: 12 });
    let d = chrono::NaiveDate::from_ymd_opt(2024, 2, 1).unwrap();
    assert_eq!(YearMonth::of_date(&d), YearMonth { year: 2024, month: 2 });
}
