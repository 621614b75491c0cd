use ambient_brightness::ambient_brightness::AmbientBrightness;
use ambient_brightness::control::Command;
use ambient_brightness::controller::Action;
use ambient_brightness::controller::AmbientBrightnessController;
use ambient_brightness::controller::Event;
use ambient_brightness::kbd_brightness::KBDBrightness;
use ambient_brightness::screen_brightness::ScreenBrightness;

/// The fixed-point log-domain sample for a raw sensor reading, computed the
/// way the runtime layer computes it.
fn log_sample(raw: u32) -> u32 {
    ((raw as f64).log10() * 100_000.0).round() as u32
}

fn controller(first_raw: u32, max_brightness: u32) -> AmbientBrightnessController {
    AmbientBrightnessController::create(
        AmbientBrightness::new().init(log_sample(first_raw)),
        KBDBrightness::new("leds".to_string(), "asus::kbd_backlight".to_string()),
        ScreenBrightness::new(
            "backlight".to_string(),
            "intel_backlight".to_string(),
            max_brightness,
        ),
    )
}

#[test]
fn steady_state_settles_and_writes_once() {
    // Raw reading steady at 316228 (half a decade below the sixth decade):
    // the percentage stabilizes at 92, the keyboard settles at level 0, the
    // screen at half its range — and once there, no further writes.
    let mut daemon = controller(316228, 96_000);
    let sample = log_sample(316228);
    let mut kbd_level = 3u32;
    let mut screen_level = 0u32;
    let mut last_pct = 0u32;
    for _ in 0..10 {
        let plan = daemon.update(sample, kbd_level, screen_level);
        last_pct = plan.percent;
        if let Some(level) = plan.kbd_write {
            kbd_level = level;
        }
        if let Some(level) = plan.screen_write {
            screen_level = level;
        }
    }
    assert_eq!(last_pct, 92);
    assert_eq!(kbd_level, 0);
    assert_eq!(screen_level, 48_000);

    // The devices already sit at their targets: the next pass writes nothing.
    let settled = daemon.update(sample, kbd_level, screen_level);
    assert_eq!(settled.percent, 92);
    assert_eq!(settled.kbd_write, None);
    assert_eq!(settled.screen_write, None);
}

#[test]
fn idle_command_quarters_the_steady_state() {
    let mut daemon = controller(316228, 96_000);
    let sample = log_sample(316228);

    let action = daemon.handle_event(&Event::Command(Command::Idle));
    assert_eq!(action, Action::UpdatePass);

    // Re-run the same steady state: 92 quartered before rounding gives 23,
    // which maps to a 20 percent screen target and keyboard level 3.
    let mut kbd_level = 0u32;
    let mut screen_level = 48_000u32;
    let mut last_pct = 0u32;
    for _ in 0..10 {
        let plan = daemon.update(sample, kbd_level, screen_level);
        last_pct = plan.percent;
        if let Some(level) = plan.kbd_write {
            kbd_level = level;
        }
        if let Some(level) = plan.screen_write {
            screen_level = level;
        }
    }
    assert_eq!(last_pct, 23);
    assert_eq!(kbd_level, 3);
    assert_eq!(screen_level, 19_200);
}

#[test]
fn offset_commands_accumulate_and_apply_by_magnitude() {
    let mut daemon = controller(316228, 96_000);
    let sample = log_sample(316228);

    assert_eq!(
        daemon.handle_event(&Event::Command(Command::Increase(10))),
        Action::UpdatePass
    );
    assert_eq!(
        daemon.handle_event(&Event::Command(Command::Decrease(3))),
        Action::UpdatePass
    );
    assert_eq!(daemon.screen_brightness.offset, 7);

    // Steady 92 percent: the screen target is 50 plus the magnitude 7.
    let plan = daemon.update(sample, 0, 48_000);
    assert_eq!(plan.percent, 92);
    assert_eq!(plan.screen_write, Some(54_720));
}

#[test]
fn active_command_clears_idle() {
    let mut daemon = controller(316228, 96_000);
    let sample = log_sample(316228);
    daemon.handle_event(&Event::Command(Command::Idle));
    let dimmed = daemon.update(sample, 0, 48_000);
    assert_eq!(dimmed.percent, 23);

    daemon.handle_event(&Event::Command(Command::Active));
    let restored = daemon.update(sample, 3, 19_200);
    assert_eq!(restored.percent, 92);
}

#[test]
fn tick_asks_for_a_pass_and_changes_nothing() {
    let mut daemon = controller(316228, 96_000);
    assert_eq!(daemon.handle_event(&Event::Tick), Action::UpdatePass);
    assert_eq!(daemon.screen_brightness.offset, 0);
    assert!(daemon.is_running());
}

#[test]
fn shutdown_drains_and_stops_the_loop() {
    let mut daemon = controller(316228, 96_000);
    assert!(daemon.is_running());
    assert_eq!(daemon.handle_event(&Event::Shutdown), Action::Stop);
    assert!(!daemon.is_running());
    daemon.finish();
    assert!(!daemon.is_running());
}

#[test]
fn closed_channel_tears_the_loop_down() {
    let mut daemon = controller(316228, 96_000);
    assert_eq!(daemon.handle_event(&Event::ChannelClosed), Action::Stop);
    assert!(!daemon.is_running());
}
