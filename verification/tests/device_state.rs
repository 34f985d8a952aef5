use backlight::device::Device;
use backlight::errors::BrightnessError;

fn fresh_device() -> Device {
    // 500 of 1000: a device standing at 50%.
    Device::new("intel_backlight", "500\n", "1000\n").unwrap()
}

#[test]
fn construction_reads_both_files() {
    let d = fresh_device();
    assert_eq!(d.brightness, 500);
    assert_eq!(d.max_brightness, 1000);
    assert_eq!(d.brightness_path, "/sys/class/backlight/intel_backlight/brightness");
    assert_eq!(
        d.max_brightness_path,
        "/sys/class/backlight/intel_backlight/max_brightness"
    );
}

#[test]
fn construction_rejects_bad_brightness_text() {
    assert!(matches!(
        Device::new("intel_backlight", "abc", "1000"),
        Err(BrightnessError::ReadError)
    ));
    assert!(matches!(
        Device::new("intel_backlight", "", "1000"),
        Err(BrightnessError::ReadError)
    ));
}

#[test]
fn construction_rejects_bad_maximum_text() {
    assert!(matches!(
        Device::new("intel_backlight", "500", "12junk"),
        Err(BrightnessError::ReadError)
    ));
    assert!(matches!(
        Device::new("intel_backlight", "500", "0"),
        Err(BrightnessError::ReadError)
    ));
}

#[test]
fn set_brightness_clamps_low() {
    let mut d = fresh_device();
    d.set_brightness(-5_000);
    assert_eq!(d.get_brightness(), 100);
}

#[test]
fn set_brightness_clamps_high() {
    let mut d = fresh_device();
    d.set_brightness(500_000);
    assert_eq!(d.get_brightness(), 100_000);
}

#[test]
fn set_brightness_is_in_memory_only() {
    let mut d = fresh_device();
    d.set_brightness(75_000);
    assert_eq!(d.brightness, 750);
    assert_eq!(d.max_brightness, 1000);
    assert_eq!(d.brightness_path, "/sys/class/backlight/intel_backlight/brightness");
}

#[test]
fn adjust_composes_with_get() {
    // From 50%, up by 10 percentage points reads 60%.
    let mut d = fresh_device();
    d.adjust_brightness(10_000);
    assert_eq!(d.get_brightness(), 60_000);
}

#[test]
fn adjust_clamps_the_resulting_percentage() {
    // From 50%, down by 70 percentage points clamps at 0.1%.
    let mut d = fresh_device();
    d.adjust_brightness(-70_000);
    assert_eq!(d.get_brightness(), 100);
    // From 50%, up by 70 percentage points clamps at 100%.
    let mut d2 = fresh_device();
    d2.adjust_brightness(70_000);
    assert_eq!(d2.get_brightness(), 100_000);
}

#[test]
fn save_payload_is_the_decimal_raw_value() {
    let mut d = fresh_device();
    d.set_brightness(75_000);
    assert_eq!(d.save_payload(), "750");
}

#[test]
fn save_round_trip_reads_the_same_percentage() {
    let mut d = fresh_device();
    d.set_brightness(75_000);
    let saved = d.save_payload();
    let reloaded = Device::new("intel_backlight", &saved, "1000\n").unwrap();
    assert_eq!(reloaded.brightness, d.brightness);
    assert_eq!(reloaded.get_brightness(), 75_000);
}

#[test]
fn save_round_trip_with_truncation_stays_within_one_unit() {
    // With a coarse maximum the set percentage truncates; the reloaded
    // reading never exceeds it and stays within one raw unit's worth.
    let mut d = Device::new("acpi_video0", "3", "7").unwrap();
    d.set_brightness(50_000);
    let saved = d.save_payload();
    let reloaded = Device::new("acpi_video0", &saved, "7").unwrap();
    let back = reloaded.get_brightness();
    assert!(back <= 50_000);
    assert!((50_000 - back) * 7 < 100_000 + 7);
}

#[test]
fn brightness_beyond_the_maximum_is_kept_and_read_unclamped() {
    // Someone else may have written a raw value beyond the maximum;
    // construction keeps it and reading reports more than 100%.
    let d = Device::new("intel_backlight", "2000", "1000").unwrap();
    assert_eq!(d.brightness, 2000);
    assert_eq!(d.get_brightness(), 200_000);
}

#[test]
fn every_error_has_a_message() {
    assert!(!BrightnessError::NoInterfaceFound.message().is_empty());
    assert!(!BrightnessError::ReadError.message().is_empty());
    assert!(!BrightnessError::WriteError.message().is_empty());
    assert!(!BrightnessError::ArgumentCountError.message().is_empty());
    assert!(!BrightnessError::UnknownActionError(String::from("x")).message().is_empty());
    assert!(!BrightnessError::AmountParseError.message().is_empty());
}
