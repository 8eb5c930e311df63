//! Core of a vanity-address search engine, together with the small state
//! machines of the surrounding terminal tools: match predicates over
//! candidate addresses, a sliding-window throughput estimator, the worker
//! and coordinator state machines of the search, the clock display state,
//! the theme picker's editor, and the embedded-asset response decision.

pub mod clock;
pub mod coordinator;
pub mod keys;
pub mod predicate;
pub mod speed;
pub mod text;
pub mod themes;
pub mod webassets;
pub mod worker;
