//! Verified core of a notice and calendar aggregator for university web sites.

pub mod text;
pub mod datetime;
pub mod post;
pub mod calendar;
pub mod order;
pub mod entry_map;
pub mod merge;
pub mod runner;
pub mod ics;
pub mod error;
pub mod academic_calendar;
pub mod html;
pub mod plugins;
