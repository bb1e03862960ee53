//! A content-policy scanner: prohibited patterns are compiled once, merged per
//! target group, and checked line by line, with an overrule marker that exempts
//! a whole line.

pub mod config;
pub mod pattern;
pub mod report;
pub mod scan;
pub mod text;
