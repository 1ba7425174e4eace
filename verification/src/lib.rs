//! A pattern-based content validation engine.
//!
//! Text flowing into and out of an application is checked against a set of
//! named regular-expression rules, partitioned into an input and an output
//! category. Rules are compiled once per refresh, cached per category, and
//! run against a payload to produce a structured [`rules::Verdict`]: every
//! match is collected (never just the first), findings are sorted by rule
//! name for reproducible output, and per-rule failures (a pattern that does
//! not compile, a rule still outstanding when a deadline passes) are
//! surfaced as data rather than aborting the whole pass.

pub mod cache;
pub mod compile;
pub mod dispatch;
pub mod engine;
pub mod filters;
pub mod matcher;
pub mod order;
pub mod rules;
pub mod text;
