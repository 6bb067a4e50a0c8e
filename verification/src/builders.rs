//! From a property-access chain to the expression that replaces it.

pub mod expressions;
pub mod serializers;
pub mod utils;
