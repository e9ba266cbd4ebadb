//! A lint rule against redeclaration: given the bindings that a resolver
//! found to share a name within one effective scope, it decides which of
//! them are reported, as which diagnostic, and with which spans.
//!
//! - [`binding`]: the resolved model, bindings and groups of them.
//! - [`globals`]: the set of built-in global names.
//! - [`diagnostic`]: the findings and their presentation.
//! - [`rule`]: the rule and its classification of groups.
//! - [`config`]: the rule's option, read from a JSON configuration.
//! - [`resolver`]: the groups of a program resolved by `oxc_semantic`.
//! - [`laws`]: what holds of every classification.

pub mod binding;
pub mod config;
pub mod diagnostic;
pub mod globals;
pub mod laws;
pub mod resolver;
pub mod rule;
pub mod span;

pub use crate::rule::NoRedeclare;
