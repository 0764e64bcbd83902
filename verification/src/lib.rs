//! Helpers for collecting the images that a CSV export links to.
pub mod text;
pub mod pattern;
pub mod path;
pub mod downloader;
pub mod sources;
pub mod registry;
pub mod table;
pub mod images;
pub mod ui;
pub mod hub;
pub mod run;
