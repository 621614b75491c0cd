use ambient_brightness::kbd_brightness::KBDBrightness;
use ambient_brightness::screen_brightness::ScreenBrightness;

fn kbd() -> KBDBrightness {
    KBDBrightness::new("leds".to_string(), "asus::kbd_backlight".to_string())
}

fn screen(max_brightness: u32) -> ScreenBrightness {
    ScreenBrightness::new(
        "backlight".to_string(),
        "intel_backlight".to_string(),
        max_brightness,
    )
}

#[test]
fn kbd_boundaries_are_exact() {
    let mapper = kbd();
    // Current level 99 never matches, so the planned level is returned.
    assert_eq!(mapper.adjust(49, 99), Some(3));
    assert_eq!(mapper.adjust(50, 99), Some(2));
    assert_eq!(mapper.adjust(59, 99), Some(2));
    assert_eq!(mapper.adjust(60, 99), Some(1));
    assert_eq!(mapper.adjust(79, 99), Some(1));
    assert_eq!(mapper.adjust(80, 99), Some(0));
    assert_eq!(mapper.adjust(0, 99), Some(3));
    assert_eq!(mapper.adjust(100, 99), Some(0));
}

#[test]
fn kbd_adjust_is_idempotent() {
    let mapper = kbd();
    let first = mapper.adjust(45, 0);
    assert_eq!(first, Some(3));
    // The device now reports the written level; nothing further is planned.
    assert_eq!(mapper.adjust(45, 3), None);
}

#[test]
fn screen_boundaries_are_exact() {
    let mapper = screen(96_000);
    assert_eq!(mapper.adjust(0, 1), Some(4_800)); // target 5 percent
    assert_eq!(mapper.adjust(9, 1), Some(9_600)); // target 10 percent
    assert_eq!(mapper.adjust(79, 1), Some(43_200)); // target 45 percent
    assert_eq!(mapper.adjust(80, 1), Some(48_000)); // target 50 percent
    assert_eq!(mapper.adjust(19, 1), Some(14_400)); // target 15 percent
    assert_eq!(mapper.adjust(20, 1), Some(19_200)); // target 20 percent
}

#[test]
fn screen_level_rounds_down_and_clamps() {
    // 5 percent of 333 is 16.65: the level is rounded down.
    let mapper = screen(333);
    assert_eq!(mapper.adjust(0, 1), Some(16));

    // A large offset pushes the target past the panel's range: clamped.
    let mut pushed = screen(333);
    pushed.increase(100);
    assert_eq!(pushed.adjust(80, 1), Some(333));
}

#[test]
fn screen_adjust_is_idempotent() {
    let mapper = screen(96_000);
    let first = mapper.adjust(35, 0);
    assert_eq!(first, Some(24_000)); // target 25 percent
    assert_eq!(mapper.adjust(35, 24_000), None);
}

#[test]
fn offset_is_applied_by_absolute_value() {
    // Net offset +7 after increase(10) and decrease(3); the magnitude is
    // added to the target share whatever the offset's sign.
    let mut mapper = screen(96_000);
    mapper.increase(10);
    mapper.decrease(3);
    assert_eq!(mapper.offset, 7);
    // Ambient 92: table gives 50, plus 7 is 57 percent of 96000.
    assert_eq!(mapper.adjust(92, 1), Some(54_720));

    // A net negative offset moves the target the same way.
    let mut negative = screen(96_000);
    negative.decrease(7);
    assert_eq!(negative.offset, -7);
    assert_eq!(negative.adjust(92, 1), Some(54_720));
}

#[test]
fn pct_to_brightness_is_a_plain_share() {
    let mapper = screen(96_000);
    assert_eq!(mapper.pct_to_brightness(50), 48_000);
    assert_eq!(mapper.pct_to_brightness(0), 0);
    assert_eq!(mapper.pct_to_brightness(100), 96_000);
}
