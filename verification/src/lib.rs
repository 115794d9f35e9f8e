//! A pipeline engine for sanitizing and validating values.
//!
//! A chain is an ordered list of links over one value type: sanitizers, which
//! rewrite the value, and validators, which accept it or reject it with a
//! fixed error. A chain runs its links in order and stops at the first
//! rejection. Chains that each own one field of a record are combined into a
//! single executor over the record.

pub mod link;
pub mod chain;
pub mod composite;
pub mod text;
pub mod sample;

pub use crate::chain::{Chain, ChainExec};
pub use crate::composite::{Aggregates, FieldAdapter, FieldExec, Then};
pub use crate::link::{execute_links, Link, Sanitizer, Validator};
