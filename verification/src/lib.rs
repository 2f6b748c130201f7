//! Degree requirement checking: identifier grammar, auxiliary rules, the
//! requirement tree, ingestion of requirement documents, and evaluation of a
//! student's selection against a tree.
pub mod catalog;
pub mod classify;
pub mod credit;
pub mod document;
pub mod eval;
pub mod ident;
pub mod ingest;
pub mod json;
pub mod matching;
pub mod part;
pub mod report;
pub mod rule;
pub mod rule_eval;
pub mod selection;
pub mod service;
pub mod text;
pub mod tree;
pub mod verdict;
