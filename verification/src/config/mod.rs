//! Configuration: the values (`types`) and the KDL reader (`parse`).
pub mod types;
pub mod parse;
