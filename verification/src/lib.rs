//! Local-first static analysis of PHP projects: intermediate representation,
//! taint analysis, declarative rules, configuration and reporting.
pub mod text;
pub mod findings;
pub mod ir;
pub mod taint;
pub mod scope;
pub mod analysis;
pub mod fingerprint;
pub mod rules;
pub mod object_sql;
pub mod rulepack;
pub mod config;
pub mod cli;
pub mod report;
pub mod syntax;
pub mod php;
pub mod engine;
pub mod laws;
