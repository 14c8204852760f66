//! A loaded design.

use vstd::prelude::*;
use crate::svg::SvgGroup;

verus! {

/// A loaded design. `G` is whatever stands for the geometry of its paths.
pub struct DesignFile<G> {
    /// The name of the design.
    pub name: String,
    /// The SVG tree.
    pub tree: SvgGroup<G>,
    /// The raw bytes of the file.
    pub bytes: Vec<u8>,
    /// Width of the design in micrometres.
    pub width_mm: i64,
    /// Height of the design in micrometres.
    pub height_mm: i64,
}

impl<G> DesignFile<G> {
    /// Gets the name of the design.
    pub fn name(&self) -> (name: &str)
        ensures
            name@ == self.name@,
    {
        self.name.as_str()
    }

    /// Gets the SVG tree.
    pub fn tree(&self) -> (tree: &SvgGroup<G>)
        ensures
            *tree == self.tree,
    {
        &self.tree
    }
}

} // verus!
