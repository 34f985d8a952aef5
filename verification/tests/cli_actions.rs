use backlight::cli::execute_action;
use backlight::cli::parse_args;
use backlight::cli::Action;
use backlight::device::Device;
use backlight::errors::BrightnessError;
use backlight::resolve::brightness_path_of;
use backlight::resolve::candidate_interfaces;
use backlight::resolve::get_default_interface_name;
use backlight::resolve::interface_dir_path;
use backlight::resolve::max_brightness_path_of;

fn args_of(parts: &[&str]) -> Vec<String> {
    parts.iter().map(|p| p.to_string()).collect()
}

#[test]
fn no_arguments_means_print() {
    let r = parse_args(&args_of(&["prog"]));
    assert!(matches!(r, Ok(Action::Print)));
}

#[test]
fn set_with_amount_parses() {
    let r = parse_args(&args_of(&["prog", "set", "42"]));
    assert!(matches!(r, Ok(Action::SetTo(v)) if v == 42_000));
}

#[test]
fn up_and_down_with_amounts_parse() {
    let r = parse_args(&args_of(&["prog", "up", "-3"]));
    assert!(matches!(r, Ok(Action::Up(v)) if v == -3_000));
    let r2 = parse_args(&args_of(&["prog", "down", "2.5"]));
    assert!(matches!(r2, Ok(Action::Down(v)) if v == 2_500));
}

#[test]
fn wrong_argument_count_is_reported() {
    let r = parse_args(&args_of(&["prog", "up"]));
    assert!(matches!(r, Err(BrightnessError::ArgumentCountError)));
    let r2 = parse_args(&args_of(&["prog", "set", "42", "extra"]));
    assert!(matches!(r2, Err(BrightnessError::ArgumentCountError)));
}

#[test]
fn unknown_action_keyword_is_reported_with_its_token() {
    let r = parse_args(&args_of(&["prog", "explode", "5"]));
    match r {
        Err(BrightnessError::UnknownActionError(t)) => assert_eq!(t, "explode"),
        _ => panic!("expected an unknown-action error"),
    }
}

#[test]
fn bad_amount_is_reported_before_the_keyword_is_checked() {
    let r = parse_args(&args_of(&["prog", "set", "abc"]));
    assert!(matches!(r, Err(BrightnessError::AmountParseError)));
    let r2 = parse_args(&args_of(&["prog", "explode", "abc"]));
    assert!(matches!(r2, Err(BrightnessError::AmountParseError)));
}

#[test]
fn action_keywords_are_case_sensitive() {
    let r = parse_args(&args_of(&["prog", "Set", "42"]));
    assert!(matches!(r, Err(BrightnessError::UnknownActionError(_))));
}

fn fifty_percent_device() -> Device {
    Device::new("intel_backlight", "500", "1000").unwrap()
}

#[test]
fn print_returns_the_whole_percentage_line() {
    let mut d = fifty_percent_device();
    let out = execute_action(&mut d, &Action::Print);
    assert_eq!(out.as_deref(), Some("50%"));
}

#[test]
fn print_truncates_the_percentage() {
    // 127 of 255 is 49.8%; the printed line discards the fraction.
    let mut d = Device::new("intel_backlight", "127", "255").unwrap();
    let out = execute_action(&mut d, &Action::Print);
    assert_eq!(out.as_deref(), Some("49%"));
}

#[test]
fn print_reports_beyond_one_hundred_percent_unclamped() {
    let mut d = Device::new("intel_backlight", "510", "255").unwrap();
    let out = execute_action(&mut d, &Action::Print);
    assert_eq!(out.as_deref(), Some("200%"));
}

#[test]
fn print_never_mutates_the_device() {
    let mut d = fifty_percent_device();
    let brightness_before = d.brightness;
    let payload_before = d.save_payload();
    let out = execute_action(&mut d, &Action::Print);
    assert!(out.is_some());
    assert_eq!(d.brightness, brightness_before);
    assert_eq!(d.max_brightness, 1000);
    assert_eq!(d.save_payload(), payload_before);
}

#[test]
fn mutating_actions_change_the_device_and_return_no_line() {
    let mut d = fifty_percent_device();
    assert!(execute_action(&mut d, &Action::SetTo(75_000)).is_none());
    assert_eq!(d.brightness, 750);
    assert!(execute_action(&mut d, &Action::Up(10_000)).is_none());
    assert_eq!(d.brightness, 850);
    assert!(execute_action(&mut d, &Action::Down(25_000)).is_none());
    assert_eq!(d.brightness, 600);
}

#[test]
fn down_by_a_huge_amount_clamps_at_the_minimum() {
    let mut d = fifty_percent_device();
    assert!(execute_action(&mut d, &Action::Down(i64::MAX)).is_none());
    assert_eq!(d.get_brightness(), 100);
}

#[test]
fn resolver_takes_the_first_existing_candidate() {
    let only_second = vec!["acpi_video0".to_string()];
    let r = get_default_interface_name(&only_second);
    assert_eq!(r.unwrap(), "acpi_video0");

    let both = vec!["acpi_video0".to_string(), "intel_backlight".to_string()];
    let r2 = get_default_interface_name(&both);
    assert_eq!(r2.unwrap(), "intel_backlight");
}

#[test]
fn resolver_ignores_unknown_directories() {
    let strangers = vec!["nv_backlight".to_string(), "acpi_video0".to_string()];
    let r = get_default_interface_name(&strangers);
    assert_eq!(r.unwrap(), "acpi_video0");
}

#[test]
fn resolver_fails_when_no_candidate_exists() {
    let r = get_default_interface_name(&Vec::new());
    assert!(matches!(r, Err(BrightnessError::NoInterfaceFound)));
    let r2 = get_default_interface_name(&vec!["nv_backlight".to_string()]);
    assert!(matches!(r2, Err(BrightnessError::NoInterfaceFound)));
}

#[test]
fn candidate_list_is_fixed_and_ordered() {
    let c = candidate_interfaces();
    assert_eq!(c, vec!["intel_backlight".to_string(), "acpi_video0".to_string()]);
}

#[test]
fn paths_are_built_under_the_backlight_root() {
    assert_eq!(
        interface_dir_path("acpi_video0"),
        "/sys/class/backlight/acpi_video0"
    );
    assert_eq!(
        brightness_path_of("acpi_video0"),
        "/sys/class/backlight/acpi_video0/brightness"
    );
    assert_eq!(
        max_brightness_path_of("acpi_video0"),
        "/sys/class/backlight/acpi_video0/max_brightness"
    );
}
