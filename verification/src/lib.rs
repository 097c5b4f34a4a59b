//! Verified core of the wikistream ingest daemon: event counting, bucket
//! keys, per-batch rollup planning and the small decision machines that the
//! daemon's I/O loops drive.

pub mod time;
pub mod text;
pub mod event;
pub mod tally;
pub mod buffer;
pub mod wiki;
pub mod laws;
pub mod order;
pub mod flush;
pub mod runtime;
pub mod rules;
