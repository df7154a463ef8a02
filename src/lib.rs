//! Core of an activity-history forwarder: sources report their history as
//! normalized calendar events, which are filtered, deduplicated against what
//! was delivered before, and handed to a calendar sink.

// The pipeline.
pub mod config;
pub mod cycle;
pub mod dedup;
pub mod event;
pub mod fetch;
pub mod filter;
pub mod modules;
pub mod schedule;

// What each source makes of its responses.
pub mod bilibili;
pub mod league_of_graphs;
pub mod league_of_legends;
pub mod netflix;
pub mod ut_oden_seminar;
pub mod wakatime;
pub mod youtube;

// Dates, numbers and text.
pub mod clock;
pub mod daylight;
pub mod number;
pub mod pattern;
pub mod text;
