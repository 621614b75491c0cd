//! The screen-backlight mapper: turns an ambient percentage into a target
//! share of the panel's brightness range, applies the user-adjustable
//! offset, converts the share to an absolute level, and plans a write only
//! when the device is not already there.
//!
//! The offset enters as its absolute value whatever its sign, so raising and
//! lowering it move the target the same way. That mirrors the policy this
//! daemon has always had; it is kept deliberately rather than corrected.

use vstd::prelude::*;

verus! {

/// Largest panel range the mapper accepts: keeps every level computation
/// inside a thirty-two bit word even at the largest offset.
pub const MAX_BRIGHTNESS_BOUND: u32 = 24_000_000;

/// The target share of the panel's range for an ambient percentage, in five
/// percent steps from five (dark room) to fifty (bright room).
pub open spec fn screen_target_spec(ambient_pct: u32) -> u32 {
    if ambient_pct < 1 {
        5
    } else if ambient_pct < 10 {
        10
    } else if ambient_pct < 20 {
        15
    } else if ambient_pct < 30 {
        20
    } else if ambient_pct < 40 {
        25
    } else if ambient_pct < 50 {
        30
    } else if ambient_pct < 60 {
        35
    } else if ambient_pct < 70 {
        40
    } else if ambient_pct < 80 {
        45
    } else {
        50
    }
}

/// The stored offset's magnitude: the offset is applied by absolute value,
/// whatever its sign.
pub open spec fn abs_offset(offset: i8) -> int {
    if offset < 0 {
        -(offset as int)
    } else {
        offset as int
    }
}

/// The target share once the offset's magnitude is added.
pub open spec fn offset_target(ambient_pct: u32, offset: i8) -> int {
    screen_target_spec(ambient_pct) + abs_offset(offset)
}

/// The absolute level for a target share: the share of the panel's range,
/// rounded down, capped at the range itself.
pub open spec fn screen_level_spec(ambient_pct: u32, offset: i8, max_brightness: u32) -> int {
    let level = offset_target(ambient_pct, offset) * max_brightness / 100;
    if level > max_brightness {
        max_brightness as int
    } else {
        level
    }
}

/// The write the mapper plans: the computed level when the device's current
/// level differs, nothing when the device is already there.
pub open spec fn screen_plan_spec(
    ambient_pct: u32,
    offset: i8,
    max_brightness: u32,
    current: u32,
) -> Option<u32> {
    if screen_level_spec(ambient_pct, offset, max_brightness) == current {
        None
    } else {
        Some(screen_level_spec(ambient_pct, offset, max_brightness) as u32)
    }
}

/// The screen-backlight mapper: the device it serves, the panel's range read
/// once at construction, and the signed user offset.
pub struct ScreenBrightness {
    /// The device class the backlight sits under.
    pub subsystem: String,
    /// The device's name within the class.
    pub name: String,
    /// The panel's brightness range, read once at construction.
    pub max_brightness: u32,
    /// The signed user offset.
    pub offset: i8,
}

impl ScreenBrightness {
    /// The panel range stays small enough for the level arithmetic.
    pub open spec fn wf(&self) -> bool {
        self.max_brightness <= MAX_BRIGHTNESS_BOUND
    }

    /// A mapper for the given device and panel range, offset at zero.
    pub fn new(subsystem: String, name: String, max_brightness: u32) -> (r: Self)
        requires
            max_brightness <= MAX_BRIGHTNESS_BOUND,
        ensures
            r.subsystem@ == subsystem@,
            r.name@ == name@,
            r.max_brightness == max_brightness,
            r.offset == 0,
            r.wf(),
    {
        ScreenBrightness { subsystem, name, max_brightness, offset: 0 }
    }

    /// A target share converted to an absolute level: the share of the
    /// panel's range, rounded down.
    pub fn pct_to_brightness(&self, pct: u32) -> (r: u32)
        requires
            pct * self.max_brightness <= u32::MAX,
        ensures
            r == pct * self.max_brightness / 100,
    {
        (pct * self.max_brightness) / 100
    }

    /// Map the ambient percentage to a level and plan a write: `Some(level)`
    /// exactly when the device's current level differs from the target, so a
    /// repeated call with an unchanged device plans nothing.
    pub fn adjust(&self, new_val: u32, current: u32) -> (r: Option<u32>)
        requires
            self.wf(),
        ensures
            r == screen_plan_spec(new_val, self.offset, self.max_brightness, current),
    {
        let new_pct: u32 = if new_val < 1 {
            5
        } else if new_val < 10 {
            10
        } else if new_val < 20 {
            15
        } else if new_val < 30 {
            20
        } else if new_val < 40 {
            25
        } else if new_val < 50 {
            30
        } else if new_val < 60 {
            35
        } else if new_val < 70 {
            40
        } else if new_val < 80 {
            45
        } else {
            50
        };

        let amount: u32 = if self.offset >= 0 {
            self.offset as u32
        } else {
            (-(self.offset as i32)) as u32
        };
        let offset_new_pct: u32 = new_pct + amount;
        proof {
            assert(offset_new_pct == offset_target(new_val, self.offset));
            assert(offset_new_pct * self.max_brightness
                <= 178 * (MAX_BRIGHTNESS_BOUND as int)) by (nonlinear_arith)
                requires
                    offset_new_pct <= 178,
                    self.max_brightness <= MAX_BRIGHTNESS_BOUND,
            ;
        }
        let level: u32 = (offset_new_pct * self.max_brightness) / 100;
        let new_level: u32 = if level > self.max_brightness {
            self.max_brightness
        } else {
            level
        };

        if current != new_level {
            Some(new_level)
        } else {
            None
        }
    }

    /// Raise the stored offset by the given amount.
    pub fn increase(&mut self, amount: i8)
        requires
            i8::MIN <= old(self).offset + amount <= i8::MAX,
        ensures
            final(self).offset == old(self).offset + amount,
            final(self).max_brightness == old(self).max_brightness,
            final(self).subsystem@ == old(self).subsystem@,
            final(self).name@ == old(self).name@,
    {
        self.offset = self.offset + amount;
    }

    /// Lower the stored offset by the given amount.
    pub fn decrease(&mut self, amount: i8)
        requires
            i8::MIN <= old(self).offset - amount <= i8::MAX,
        ensures
            final(self).offset == old(self).offset - amount,
            final(self).max_brightness == old(self).max_brightness,
            final(self).subsystem@ == old(self).subsystem@,
            final(self).name@ == old(self).name@,
    {
        self.offset = self.offset - amount;
    }
}

/// Idempotence of the screen plan: after one `adjust` the device sits at the
/// computed level (whether or not a write was needed), and a second plan for
/// the same percentage and offset writes nothing.
pub proof fn lemma_screen_adjust_idempotent(
    ambient_pct: u32,
    offset: i8,
    max_brightness: u32,
    current: u32,
)
    ensures
        ({
            let after = match screen_plan_spec(ambient_pct, offset, max_brightness, current) {
                Some(level) => level,
                None => current,
            };
            screen_plan_spec(ambient_pct, offset, max_brightness, after) == None::<u32>
        }),
{
    assert(0 <= offset_target(ambient_pct, offset) * max_brightness / 100) by (nonlinear_arith)
        requires
            offset_target(ambient_pct, offset) >= 0,
        ;
}

} // verus!
