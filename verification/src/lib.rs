//! Verified core of a paginated channel scraper.
//!
//! A remote "channel" is an ordered collection of heterogeneous content
//! items, served in fixed-size pages.  This crate holds the logic worth
//! proving: the data model of a content item and its class-specific path,
//! URL and body derivations (`headers`), the pagination planner and the
//! bounded-concurrency fetch state machine with its page-ordered merge
//! (`fetch`), and the string helpers both rest on (`text`).  The network
//! transport and the document sink live outside this crate and only hand
//! plain values in and out.

pub mod fetch;
pub mod headers;
pub mod text;
