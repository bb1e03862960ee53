//! The scanner's configuration, as plain values.

use vstd::prelude::*;

verus! {

/// A target group: roots to scan and the patterns that apply only under them.
pub struct Specific {
    pub targets: Vec<String>,
    pub patterns: Vec<String>,
}

/// A whole configuration.
pub struct Configuration {
    /// A literal text that exempts any line holding it.
    pub overrule: String,
    /// Patterns that apply to every group.
    pub global: Vec<String>,
    /// The target groups, each scanned on its own.
    pub specific: Vec<Specific>,
}

} // verus!
