//! Core of a federated query router: the selection model of a parsed query,
//! the execution stage that drives a query plan, and the coprocessor
//! externalization layer that lets an out-of-process service inspect and
//! mutate requests and responses at fixed pipeline points.
pub mod context;
pub mod coprocessor;
pub mod execution;
pub mod external;
pub mod graphql;
pub mod headers;
pub mod json;
pub mod selection;
