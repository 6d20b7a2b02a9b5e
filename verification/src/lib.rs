//! Decides which Docker images are out of date.

pub mod challenge;
pub mod checker;
pub mod docker;
pub mod error;
pub mod http;
pub mod images;
pub mod lookup;
pub mod registry;
pub mod report;
pub mod selection;
pub mod string_set;
pub mod style;
pub mod summary;
pub mod text;
pub mod token;
pub mod types;
