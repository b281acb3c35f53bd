//! Cops for security-sensitive code.
pub mod compound_hash;
pub mod eval;
pub mod yaml_load;
