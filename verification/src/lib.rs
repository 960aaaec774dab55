//! A metric-collection and aggregation library for syntax trees.
//!
//! The library walks a closed tree of syntax nodes, derives numeric facts
//! about code shape (declaration counts, nesting depth, attribute usage,
//! expressions per statement), and aggregates them across source units with
//! an associative, commutative reduction. A relatedness analyzer determines,
//! for function bodies sharing a receiver, whether two functions touch the
//! same state or call one another.

pub mod ast;
pub mod basic_enums;
pub mod collector;
pub mod histogram;
pub mod methods;
pub mod shape_metrics;
pub mod stmt_size;
