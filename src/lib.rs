//! Turns the JSON event stream of a test harness into JUnit-style reports.
//!
//! `results` decodes the captured output of one harness run into events, `junit`
//! folds the events of one run into a report and renders reports as XML, and
//! `configuration` and `runspec` resolve the workflows that say which runs to make.
pub mod configuration;
pub mod defaults;
pub mod errors;
pub mod json;
pub mod junit;
pub mod results;
pub mod runspec;
pub mod xml;
