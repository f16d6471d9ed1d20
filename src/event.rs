//! Feed events and the extraction of a uniform item record from the tracked kinds.
use vstd::prelude::*;
use crate::calendar::YearMonth;
use crate::routing::{has_sep, project, project_key};

verus! {

/// The normalized shape of an issue, pull request or release.
pub struct ItemMeta {
    pub node_id: String,
    pub url: String,
    pub title: String,
}

/// The release body of a release event.
pub struct ReleaseData {
    pub node_id: String,
    pub html_url: String,
    pub name: String,
}

pub struct IssueEvent {
    pub issue: ItemMeta,
}

impl IssueEvent {
    pub fn into_item(self) -> (r: ItemMeta)
        ensures
            r == self.issue,
    {
        self.issue
    }
}

pub struct PullRequestEvent {
    pub pull_request: ItemMeta,
}

impl PullRequestEvent {
    pub fn into_item(self) -> (r: ItemMeta)
        ensures
            r == self.pull_request,
    {
        self.pull_request
    }
}

pub struct ReleaseEvent {
    pub release: ReleaseData,
}

impl ReleaseEvent {
    /// The release's node id, public page and name as node id, URL and title.
    pub fn into_item(self) -> (r: ItemMeta)
        ensures
            r.node_id == self.release.node_id,
            r.url == self.release.html_url,
            r.title == self.release.name,
    {
        ItemMeta {
            node_id: self.release.node_id,
            url: self.release.html_url,
            title: self.release.name,
        }
    }
}

/// The repository an event belongs to, by full name `owner/repo`.
pub struct Repo {
    pub name: String,
}

/// What every tracked event carries: its repository and its kind-specific payload.
pub struct EventMeta<T> {
    pub repo: Repo,
    pub payload: T,
}

/// A feed event by kind. Only issue, pull request and release kinds carry
/// what the digest needs; the others, `Other` for any kind not listed, are skipped.
pub enum Event {
    Create,
    Delete,
    Fork,
    IssueComment(EventMeta<IssueEvent>),
    Issues(EventMeta<IssueEvent>),
    Member,
    Public,
    PullRequest(EventMeta<PullRequestEvent>),
    PullRequestReview(EventMeta<PullRequestEvent>),
    PullRequestReviewComment(EventMeta<PullRequestEvent>),
    Push,
    Release(EventMeta<ReleaseEvent>),
    Watch,
    Other,
}

/// A feed event with the calendar month in which it was created, which every
/// event has, whatever its kind.
pub struct FeedEvent {
    pub created_in: YearMonth,
    pub event: Event,
}

/// Repository name, node id, URL and title of a tracked event.
pub type RecordView = (Seq<char>, Seq<char>, Seq<char>, Seq<char>);

pub open spec fn item_record<T>(m: EventMeta<T>, item: ItemMeta) -> RecordView {
    (m.repo.name@, item.node_id@, item.url@, item.title@)
}

impl Event {
    /// The record of a tracked event; `None` for the other kinds.
    pub open spec fn record(self) -> Option<RecordView> {
        match self {
            Event::IssueComment(m) => Some(item_record(m, m.payload.issue)),
            Event::Issues(m) => Some(item_record(m, m.payload.issue)),
            Event::PullRequest(m) => Some(item_record(m, m.payload.pull_request)),
            Event::PullRequestReview(m) => Some(item_record(m, m.payload.pull_request)),
            Event::PullRequestReviewComment(m) => Some(item_record(m, m.payload.pull_request)),
            Event::Release(m) => Some(
                (
                    m.repo.name@,
                    m.payload.release.node_id@,
                    m.payload.release.html_url@,
                    m.payload.release.name@,
                ),
            ),
            _ => None,
        }
    }

    /// Splits a tracked event into repository and item; `None` for the other kinds.
    pub fn into_parts(self) -> (r: Option<(Repo, ItemMeta)>)
        ensures
            match r {
                Some((repo, item)) => self.record() == Some(
                    (repo.name@, item.node_id@, item.url@, item.title@),
                ),
                None => self.record() is None,
            },
    {
        match self {
            Event::IssueComment(m) => Some((m.repo, m.payload.into_item())),
            Event::Issues(m) => Some((m.repo, m.payload.into_item())),
            Event::PullRequest(m) => Some((m.repo, m.payload.into_item())),
            Event::PullRequestReview(m) => Some((m.repo, m.payload.into_item())),
            Event::PullRequestReviewComment(m) => Some((m.repo, m.payload.into_item())),
            Event::Release(m) => Some((m.repo, m.payload.into_item())),
            _ => None,
        }
    }
}

/// A tracked event reduced to what the digest uses, with its project key.
pub struct EventData {
    pub project: String,
    pub month: YearMonth,
    pub node_id: String,
    pub url: String,
    pub title: String,
}

impl EventData {
    /// Routes the repository to its project key; `None` when the repository
    /// name holds no `/`.
    pub fn new(repo: Repo, month: YearMonth, item: ItemMeta) -> (r: Option<EventData>)
        ensures
            r is None <==> !has_sep(repo.name@),
            r matches Some(d) ==> {
                &&& project_key(repo.name@) == Some(d.project@)
                &&& d.month == month
                &&& d.node_id == item.node_id
                &&& d.url == item.url
                &&& d.title == item.title
            },
    {
        match project(repo.name) {
            Some(key) => Some(
                EventData {
                    project: key,
                    month,
                    node_id: item.node_id,
                    url: item.url,
                    title: item.title,
                },
            ),
            None => None,
        }
    }
}

/// A warehouse row: an envelope in which at most one of an issue and a pull
/// request is present.
pub struct Envelope {
    pub issue: Option<ItemMeta>,
    pub pull_request: Option<ItemMeta>,
}

impl Envelope {
    /// The item of a row that holds exactly one of the two; `None` (the row is
    /// skipped) when both or neither are present.
    pub fn into_item(self) -> (r: Option<ItemMeta>)
        ensures
            r == match (self.issue, self.pull_request) {
                (Some(i), None) => Some(i),
                (None, Some(p)) => Some(p),
                _ => None::<ItemMeta>,
            },
    {
        match (self.issue, self.pull_request) {
            (Some(i), None) => Some(i),
            (None, Some(p)) => Some(p),
            _ => None,
        }
    }
}

} // verus!
