//! Converts bookmark records exported from the Pinboard API into the
//! Raindrop import format: a single fetch-transform-write pass that
//! validates timestamps, cleans descriptions, augments tags, partitions
//! successes from failures, and encodes the result as CSV text.
pub mod bookmark;
pub mod csvout;
pub mod fetch;
pub mod pipeline;
pub mod report;
pub mod text;
