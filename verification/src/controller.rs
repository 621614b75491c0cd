//! The scheduler's decision core: one state machine that owns all mutable
//! adjustment state and decides, for every event the runtime multiplexes,
//! how the state changes and what to do next.
//!
//! The runtime layer blocks on the shutdown signal, the command queue and
//! the periodic timer, hands each event to [`AmbientBrightnessController::handle_event`],
//! performs one update pass whenever it is told to, and exits the loop when
//! it is told to stop. An update pass itself is planned by
//! [`AmbientBrightnessController::update`]: the runtime reads the sensor and
//! the two devices, and performs exactly the writes the plan names, keyboard
//! first.

use vstd::prelude::*;

use crate::ambient_brightness::AmbientBrightness;
use crate::ambient_brightness::step_window;
use crate::ambient_brightness::window_percent;
use crate::control::Command;
use crate::kbd_brightness::KBDBrightness;
use crate::kbd_brightness::kbd_plan_spec;
use crate::screen_brightness::ScreenBrightness;
use crate::screen_brightness::screen_plan_spec;

verus! {

/// Where the scheduler's loop stands.
#[derive(Clone, Copy, Debug, PartialEq, Eq, Structural)]
pub enum RunState {
    /// Serving events.
    Running,
    /// A shutdown was seen; the loop is on its way out and takes no more
    /// events.
    Draining,
    /// The loop has exited.
    Stopped,
}

/// One event the runtime multiplexes for the scheduler.
#[derive(Clone, Copy, Debug, PartialEq, Eq, Structural)]
pub enum Event {
    /// The process was asked to shut down.
    Shutdown,
    /// The command channel is gone; the daemon does not run partially, so
    /// this too tears the loop down.
    ChannelClosed,
    /// A decoded control command arrived.
    Command(Command),
    /// The periodic timer fired.
    Tick,
}

/// What the runtime must do after an event is handled.
#[derive(Clone, Copy, Debug, PartialEq, Eq, Structural)]
pub enum Action {
    /// Perform one full update pass.
    UpdatePass,
    /// Leave the loop; no further passes.
    Stop,
}

/// The writes one update pass asks of the runtime, beside the percentage
/// the pass settled on. A `None` means the device already sits at its
/// target and is left alone.
#[derive(Clone, Copy, Debug, PartialEq, Eq, Structural)]
pub struct UpdatePlan {
    /// The smoothed ambient percentage of this pass.
    pub percent: u32,
    /// The level to write to the keyboard backlight, if any.
    pub kbd_write: Option<u32>,
    /// The level to write to the screen backlight, if any.
    pub screen_write: Option<u32>,
}

/// The scheduler: sole owner of the smoothing engine (and its idle flag),
/// the two mappers (and the screen offset), and the loop state. All
/// mutation goes through one decoded command or one tick at a time.
pub struct AmbientBrightnessController {
    /// The smoothing engine.
    pub ambient_brightness: AmbientBrightness,
    /// The keyboard mapper.
    pub kbd_brightness: KBDBrightness,
    /// The screen mapper.
    pub screen_brightness: ScreenBrightness,
    /// Where the loop stands.
    pub state: RunState,
}

impl AmbientBrightnessController {
    /// The engine is seeded and the screen mapper's range is in bounds.
    pub open spec fn wf(&self) -> bool {
        &&& self.ambient_brightness.wf()
        &&& self.ambient_brightness.initialized()
        &&& self.screen_brightness.wf()
    }

    /// A controller over freshly built components, ready to run.
    pub fn create(
        ambient_brightness: AmbientBrightness,
        kbd_brightness: KBDBrightness,
        screen_brightness: ScreenBrightness,
    ) -> (r: Self)
        requires
            ambient_brightness.wf(),
            ambient_brightness.initialized(),
            screen_brightness.wf(),
        ensures
            r.ambient_brightness == ambient_brightness,
            r.kbd_brightness == kbd_brightness,
            r.screen_brightness == screen_brightness,
            r.state == RunState::Running,
            r.wf(),
    {
        AmbientBrightnessController {
            ambient_brightness,
            kbd_brightness,
            screen_brightness,
            state: RunState::Running,
        }
    }

    /// Whether the loop should keep serving events.
    pub fn is_running(&self) -> (r: bool)
        ensures
            r == (self.state == RunState::Running),
    {
        match self.state {
            RunState::Running => true,
            _ => false,
        }
    }

    /// Serve one event: a shutdown or a closed channel drains the loop and
    /// asks it to stop; a command mutates exactly the state it names; a
    /// command or a tick asks for one update pass. The sample window is
    /// never touched here.
    pub fn handle_event(&mut self, event: &Event) -> (action: Action)
        requires
            old(self).wf(),
            old(self).state == RunState::Running,
            match *event {
                Event::Command(Command::Increase(amount)) => i8::MIN <= old(self).screen_brightness.offset + amount <= i8::MAX,
                Event::Command(Command::Decrease(amount)) => i8::MIN <= old(self).screen_brightness.offset - amount <= i8::MAX,
                _ => true,
            },
        ensures
            final(self).wf(),
            final(self).ambient_brightness.samples() == old(self).ambient_brightness.samples(),
            final(self).kbd_brightness == old(self).kbd_brightness,
            final(self).screen_brightness.max_brightness == old(self).screen_brightness.max_brightness,
            match *event {
                Event::Shutdown | Event::ChannelClosed => {
                    &&& final(self).state == RunState::Draining
                    &&& action == Action::Stop
                    &&& final(self).ambient_brightness.is_idle() == old(self).ambient_brightness.is_idle()
                    &&& final(self).screen_brightness.offset == old(self).screen_brightness.offset
                },
                Event::Command(command) => {
                    &&& final(self).state == RunState::Running
                    &&& action == Action::UpdatePass
                    &&& match command {
                        Command::Idle => final(self).ambient_brightness.is_idle() && final(self).screen_brightness.offset == old(self).screen_brightness.offset,
                        Command::Active => !final(self).ambient_brightness.is_idle() && final(self).screen_brightness.offset == old(self).screen_brightness.offset,
                        Command::Increase(amount) => final(self).screen_brightness.offset == old(self).screen_brightness.offset + amount && final(self).ambient_brightness.is_idle() == old(self).ambient_brightness.is_idle(),
                        Command::Decrease(amount) => final(self).screen_brightness.offset == old(self).screen_brightness.offset - amount && final(self).ambient_brightness.is_idle() == old(self).ambient_brightness.is_idle(),
                    }
                },
                Event::Tick => {
                    &&& final(self).state == RunState::Running
                    &&& action == Action::UpdatePass
                    &&& final(self).ambient_brightness.is_idle() == old(self).ambient_brightness.is_idle()
                    &&& final(self).screen_brightness.offset == old(self).screen_brightness.offset
                },
            },
    {
        match event {
            Event::Shutdown => {
                self.state = RunState::Draining;
                Action::Stop
            },
            Event::ChannelClosed => {
                self.state = RunState::Draining;
                Action::Stop
            },
            Event::Command(command) => {
                match command {
                    Command::Idle => self.ambient_brightness.idle(),
                    Command::Active => self.ambient_brightness.active(),
                    Command::Increase(amount) => self.screen_brightness.increase(*amount),
                    Command::Decrease(amount) => self.screen_brightness.decrease(*amount),
                }
                Action::UpdatePass
            },
            Event::Tick => Action::UpdatePass,
        }
    }

    /// The loop has exited after draining.
    pub fn finish(&mut self)
        requires
            old(self).state == RunState::Draining,
        ensures
            final(self).state == RunState::Stopped,
            final(self).ambient_brightness == old(self).ambient_brightness,
            final(self).kbd_brightness == old(self).kbd_brightness,
            final(self).screen_brightness == old(self).screen_brightness,
    {
        self.state = RunState::Stopped;
    }

    /// Plan one full update pass from one sensor sample and the two
    /// devices' current levels: the sample runs through the smoothing
    /// engine, and its percentage through both mappers, keyboard first.
    /// Only the sample window moves; idle flag, offset and loop state stay.
    pub fn update(&mut self, sample: u32, kbd_current: u32, screen_current: u32) -> (plan:
        UpdatePlan)
        requires
            old(self).wf(),
        ensures
            final(self).wf(),
            final(self).state == old(self).state,
            final(self).kbd_brightness == old(self).kbd_brightness,
            final(self).screen_brightness == old(self).screen_brightness,
            final(self).ambient_brightness.is_idle() == old(self).ambient_brightness.is_idle(),
            final(self).ambient_brightness.samples() == step_window(
                old(self).ambient_brightness.samples(),
                sample,
            ),
            plan.percent == window_percent(
                final(self).ambient_brightness.samples(),
                old(self).ambient_brightness.is_idle(),
            ),
            plan.percent <= 100,
            plan.kbd_write == kbd_plan_spec(plan.percent, kbd_current),
            plan.screen_write == screen_plan_spec(
                plan.percent,
                old(self).screen_brightness.offset,
                old(self).screen_brightness.max_brightness,
                screen_current,
            ),
    {
        let percent = self.ambient_brightness.update(sample);
        let kbd_write = self.kbd_brightness.adjust(percent, kbd_current);
        let screen_write = self.screen_brightness.adjust(percent, screen_current);
        UpdatePlan { percent, kbd_write, screen_write }
    }
}

} // verus!
