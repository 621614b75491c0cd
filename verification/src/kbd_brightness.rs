//! The keyboard-backlight mapper: turns an ambient percentage into one of
//! four discrete LED levels and plans a write only when the device is not
//! already there.
//!
//! The level scale is inverted on purpose: the LED driver treats level three
//! as the value for the darkest surroundings and zero as off, so a brighter
//! room maps to a smaller level.

use vstd::prelude::*;

verus! {

/// The keyboard level an ambient percentage maps to: below fifty percent the
/// brightest level three, below sixty two, below eighty one, else zero.
pub open spec fn kbd_level_spec(ambient_pct: u32) -> u32 {
    if ambient_pct < 50 {
        3
    } else if ambient_pct < 60 {
        2
    } else if ambient_pct < 80 {
        1
    } else {
        0
    }
}

/// The write the mapper plans: the mapped level when the device's current
/// level differs, nothing when the device is already there.
pub open spec fn kbd_plan_spec(ambient_pct: u32, current: u32) -> Option<u32> {
    if kbd_level_spec(ambient_pct) == current {
        None
    } else {
        Some(kbd_level_spec(ambient_pct))
    }
}

/// The keyboard-backlight mapper; it remembers which device it serves, while
/// reading and writing that device stays with the caller.
pub struct KBDBrightness {
    /// The device class the backlight sits under.
    pub subsystem: String,
    /// The device's name within the class.
    pub name: String,
}

impl KBDBrightness {
    /// A mapper for the given device.
    pub fn new(subsystem: String, name: String) -> (r: Self)
        ensures
            r.subsystem@ == subsystem@,
            r.name@ == name@,
    {
        KBDBrightness { subsystem, name }
    }

    /// Map the ambient percentage to a level and plan a write: `Some(level)`
    /// exactly when the device's current level differs from the target, so a
    /// repeated call with an unchanged device plans nothing.
    pub fn adjust(&self, new_val: u32, current: u32) -> (r: Option<u32>)
        ensures
            r == kbd_plan_spec(new_val, current),
    {
        let new_level: u32 = if new_val < 50 {
            3
        } else if new_val < 60 {
            2
        } else if new_val < 80 {
            1
        } else {
            0
        };
        if current != new_level {
            Some(new_level)
        } else {
            None
        }
    }
}

/// Idempotence of the keyboard plan: after one `adjust` the device sits at
/// the mapped level (whether or not a write was needed), and a second plan
/// for the same percentage writes nothing.
pub proof fn lemma_kbd_adjust_idempotent(ambient_pct: u32, current: u32)
    ensures
        ({
            let after = match kbd_plan_spec(ambient_pct, current) {
                Some(level) => level,
                None => current,
            };
            kbd_plan_spec(ambient_pct, after) == None::<u32>
        }),
{
}

} // verus!
