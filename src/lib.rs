//! A monthly digest of public activity: feed events are classified, their
//! URLs canonicalized, their repositories routed to a project key, and the
//! items folded into a per-project mapping that is rendered as a markup list.
pub mod aggregate;
pub mod calendar;
pub mod canon;
pub mod event;
pub mod feed;
pub mod link;
pub mod render;
pub mod routing;
pub mod text;
