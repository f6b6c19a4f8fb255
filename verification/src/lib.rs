//! Scraping and normalization pipeline for a university timetable service:
//! a grammar for compact week specifications and times of day, a row
//! normalizer that turns raw table rows into typed events, a week expander
//! that materializes events onto the ISO week-date calendar, a directory
//! merger for the faculty/subject/group catalog, and a TTL cache layer.

pub mod cache;
pub mod config;
pub mod dates;
pub mod errors;
pub mod events;
pub mod faculties;
pub mod kinds;
pub mod rows;
pub mod strutil;
pub mod times;
pub mod week;
