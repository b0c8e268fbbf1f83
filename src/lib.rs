//! A detection-rule engine: rule documents are compiled into selection
//! trees of conjunctions, disjunctions and leaf matchers, validated, and
//! evaluated against structured event records.

pub mod value;
pub mod pattern;
pub mod resolve;
pub mod matcher;
pub mod selection;
pub mod rule;
pub mod detection;
