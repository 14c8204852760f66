//! Tool passes: the settings for one traversal of the cutter.

use vstd::prelude::*;

verus! {

/// The highest power or speed a tool pass can have. Both are unitless
/// proportions of the machine's maximum.
pub const MAX_POWER_OR_SPEED: u64 = 1000;

/// What a [`ToolPass`] holds, as plain values.
pub struct ToolPassView {
    /// The user-specified name.
    pub name: Seq<char>,
    /// Red, green and blue channel of the lines this pass machines.
    pub colour: (u8, u8, u8),
    /// Tool power, at most 1000.
    pub power: u64,
    /// Tool speed, at most 1000.
    pub speed: u64,
    /// Whether the pass is enabled.
    pub enabled: bool,
}

impl ToolPassView {
    /// Whether power and speed are within their range, as they are in every [`ToolPass`].
    pub open spec fn in_range(self) -> bool {
        self.power <= MAX_POWER_OR_SPEED && self.speed <= MAX_POWER_OR_SPEED
    }
}

/// `value` limited to the maximum power or speed.
pub open spec fn clamp_setting(value: u64) -> u64 {
    if value > MAX_POWER_OR_SPEED {
        MAX_POWER_OR_SPEED
    } else {
        value
    }
}

/// The settings for a single pass of the tool head over lines of a given colour.
#[derive(Debug, PartialEq, Eq, Hash)]
pub struct ToolPass {
    /// The user-specified name of this tool pass.
    name: String,
    /// Colour channel value of lines to machine [R, G, B].
    colour: [u8; 3],
    /// Tool power, max 1000. Unitless, proportion of max.
    power: u64,
    /// Tool speed, max 1000. Unitless, proportion of max.
    speed: u64,
    /// Whether this tool pass is enabled.
    /// If so then paths with the colour of this pass will be cut with this tool pass.
    enabled: bool,
}

impl View for ToolPass {
    type V = ToolPassView;

    closed spec fn view(&self) -> ToolPassView {
        ToolPassView {
            name: self.name@,
            colour: (self.colour[0], self.colour[1], self.colour[2]),
            power: self.power,
            speed: self.speed,
            enabled: self.enabled,
        }
    }
}

impl Clone for ToolPass {
    fn clone(&self) -> (copy: Self)
        ensures
            copy@ == self@,
    {
        proof {
            use_type_invariant(self);
        }
        ToolPass {
            name: self.name.clone(),
            colour: self.colour,
            power: self.power,
            speed: self.speed,
            enabled: self.enabled,
        }
    }
}

impl ToolPass {
    #[verifier::type_invariant]
    spec fn settings_in_range(&self) -> bool {
        self.power <= MAX_POWER_OR_SPEED && self.speed <= MAX_POWER_OR_SPEED
    }

    /// Creates a new tool pass. `power` and `speed` are clamped to 1000.
    ///
    /// The name is shown to the user only; it plays no part in the HPGL.
    pub fn new(name: String, r: u8, g: u8, b: u8, power: u64, speed: u64, enabled: bool) -> (pass:
        Self)
        ensures
            pass@ == (ToolPassView {
                name: name@,
                colour: (r, g, b),
                power: clamp_setting(power),
                speed: clamp_setting(speed),
                enabled,
            }),
    {
        ToolPass {
            name,
            colour: [r, g, b],
            power: clamp(power),
            speed: clamp(speed),
            enabled,
        }
    }

    /// Gets the name of the tool pass.
    pub fn name(&self) -> (name: &str)
        ensures
            name@ == self@.name,
    {
        self.name.as_str()
    }

    /// Sets the name of the tool pass.
    pub fn set_name(&mut self, name: String)
        ensures
            final(self)@ == (ToolPassView { name: name@, ..old(self)@ }),
    {
        proof {
            use_type_invariant(&*self);
        }
        self.name = name;
    }

    /// Gets the colour of the tool pass.
    pub fn colour(&self) -> (colour: &[u8; 3])
        ensures
            (colour[0], colour[1], colour[2]) == self@.colour,
    {
        &self.colour
    }

    /// Sets the colour of the tool pass.
    pub fn set_colour(&mut self, colour: [u8; 3])
        ensures
            final(self)@ == (ToolPassView {
                colour: (colour[0], colour[1], colour[2]),
                ..old(self)@
            }),
    {
        proof {
            use_type_invariant(&*self);
        }
        self.colour = colour;
    }

    /// Gets the speed of the tool pass.
    pub fn speed(&self) -> (speed: &u64)
        ensures
            *speed == self@.speed,
            *speed <= MAX_POWER_OR_SPEED,
    {
        proof {
            use_type_invariant(self);
        }
        &self.speed
    }

    /// Sets the speed of the tool pass, clamped to 1000.
    pub fn set_speed(&mut self, speed: u64)
        ensures
            final(self)@ == (ToolPassView { speed: clamp_setting(speed), ..old(self)@ }),
    {
        proof {
            use_type_invariant(&*self);
        }
        self.speed = clamp(speed);
    }

    /// Gets the power of the tool pass.
    pub fn power(&self) -> (power: &u64)
        ensures
            *power == self@.power,
            *power <= MAX_POWER_OR_SPEED,
    {
        proof {
            use_type_invariant(self);
        }
        &self.power
    }

    /// Sets the power of the tool pass, clamped to 1000.
    pub fn set_power(&mut self, power: u64)
        ensures
            final(self)@ == (ToolPassView { power: clamp_setting(power), ..old(self)@ }),
    {
        proof {
            use_type_invariant(&*self);
        }
        self.power = clamp(power);
    }

    /// Gets the enable state of the tool pass.
    pub fn enabled(&self) -> (enabled: &bool)
        ensures
            *enabled == self@.enabled,
            self@.in_range(),
    {
        proof {
            use_type_invariant(self);
        }
        &self.enabled
    }

    /// Sets the enable state of the tool pass.
    pub fn set_enabled(&mut self, new_state: bool)
        ensures
            final(self)@ == (ToolPassView { enabled: new_state, ..old(self)@ }),
    {
        proof {
            use_type_invariant(&*self);
        }
        self.enabled = new_state;
    }
}

fn clamp(value: u64) -> (clamped: u64)
    ensures
        clamped == clamp_setting(value),
{
    if value > MAX_POWER_OR_SPEED {
        MAX_POWER_OR_SPEED
    } else {
        value
    }
}

} // verus!
