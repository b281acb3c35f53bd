//! The cops, grouped by department.
pub mod util;
pub mod rspec;
pub mod security;
pub mod standard;
pub mod style;
