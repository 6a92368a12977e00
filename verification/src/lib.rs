//! Core engine of a live network traffic monitor: packet classification,
//! flow aggregation, searchable/sortable views, interval statistics, and
//! threshold notifications.

pub mod aggregator;
pub mod classifier;
pub mod engine;
pub mod flow;
pub mod notifications;
pub mod notifier;
pub mod search;
pub mod sound;
pub mod table;

pub use sound::Sound;
