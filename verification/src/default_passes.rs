//! The tool passes that a fresh program starts with.

use vstd::prelude::*;
use vstd::string::*;
use crate::laser_passes::{ToolPass, ToolPassView};

verus! {

/// A default pass of the given name and colour: a tenth of the power, a
/// fiftieth of the speed, and disabled.
pub open spec fn default_pass(name: Seq<char>, colour: (u8, u8, u8)) -> ToolPassView {
    ToolPassView { name, colour, power: 100, speed: 20, enabled: false }
}

/// Gets the default tool passes: black, red, green and blue, all disabled.
pub fn default_passes() -> (passes: Vec<ToolPass>)
    ensures
        passes@.len() == 4,
        passes@[0]@ == default_pass("Pass 1"@, (0, 0, 0)),
        passes@[1]@ == default_pass("Pass 2"@, (255, 0, 0)),
        passes@[2]@ == default_pass("Pass 3"@, (0, 255, 0)),
        passes@[3]@ == default_pass("Pass 4"@, (0, 0, 255)),
{
    let mut passes = Vec::new();
    passes.push(ToolPass::new(String::from_str("Pass 1"), 0, 0, 0, 100, 20, false));
    passes.push(ToolPass::new(String::from_str("Pass 2"), 255, 0, 0, 100, 20, false));
    passes.push(ToolPass::new(String::from_str("Pass 3"), 0, 255, 0, 100, 20, false));
    passes.push(ToolPass::new(String::from_str("Pass 4"), 0, 0, 255, 100, 20, false));
    passes
}

} // verus!
