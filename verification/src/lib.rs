//! Rewrites translation references of the form `l.<namespace>.<key>...` into
//! the string or template literal that holds the lookup key
//! `<namespace>:<key>.<more>`.
//!
//! The engine works on a small model of the syntax tree ([`ast`]); a node it
//! has no reason to look into is carried along whole, as the host's own node.

pub mod ast;
pub mod builders;
pub mod utils;
