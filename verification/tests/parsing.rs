use mac_light_controller::brightness::Direction;
use mac_light_controller::cli::parse_invocation;
use mac_light_controller::cli::parse_steps;
use mac_light_controller::cli::CommandError;
use mac_light_controller::cli::ParseOutcome;
use mac_light_controller::cli::Request;
use mac_light_controller::device::debug_enabled;
use mac_light_controller::device::parse_device;
use mac_light_controller::device::parse_direction;
use mac_light_controller::device::sysfs_paths;
use mac_light_controller::device::Device;
use mac_light_controller::text::canon_bytes;
use mac_light_controller::text::parse_u32_text;
use mac_light_controller::text::trim_bytes;
use mac_light_controller::text::u32_to_decimal;

#[test]
fn tokens_are_trimmed() {
    assert_eq!(trim_bytes(b"  150\t\n"), b"150".to_vec());
    assert_eq!(trim_bytes(b""), b"".to_vec());
    assert_eq!(trim_bytes(b" \t\r\n "), b"".to_vec());
    assert_eq!(trim_bytes(b"a b"), b"a b".to_vec());
}

#[test]
fn tokens_are_lowercased() {
    assert_eq!(canon_bytes(b"  KeyBoard "), b"keyboard".to_vec());
    assert_eq!(canon_bytes(b"TRUE"), b"true".to_vec());
    assert_eq!(canon_bytes(b"+"), b"+".to_vec());
}

#[test]
fn selector_is_case_insensitive() {
    assert_eq!(parse_device(b"keyboard"), Device::Keyboard);
    assert_eq!(parse_device(b"screen"), Device::Screen);
    assert_eq!(parse_device(b"SCREEN"), Device::Screen);
    assert_eq!(parse_device(b" Keyboard\n"), Device::Keyboard);
}

#[test]
fn unknown_selector_is_unsupported() {
    assert_eq!(parse_device(b"mouse"), Device::Unsupported);
    assert_eq!(parse_device(b""), Device::Unsupported);
    assert_eq!(parse_device(b"screens"), Device::Unsupported);
}

#[test]
fn only_plus_means_increase() {
    assert_eq!(parse_direction(b"+"), Direction::Increase);
    assert_eq!(parse_direction(b" + "), Direction::Increase);
    assert_eq!(parse_direction(b"-"), Direction::Decrease);
    assert_eq!(parse_direction(b""), Direction::Decrease);
    assert_eq!(parse_direction(b"++"), Direction::Decrease);
    assert_eq!(parse_direction(b"anything"), Direction::Decrease);
}

#[test]
fn decimal_text_parses() {
    assert_eq!(parse_u32_text(b"150"), Some(150));
    assert_eq!(parse_u32_text(b"0"), Some(0));
    assert_eq!(parse_u32_text(b"007"), Some(7));
    assert_eq!(parse_u32_text(b"+15"), Some(15));
    assert_eq!(parse_u32_text(b"4294967295"), Some(u32::MAX));
}

#[test]
fn bad_decimal_text_is_rejected() {
    assert_eq!(parse_u32_text(b""), None);
    assert_eq!(parse_u32_text(b"+"), None);
    assert_eq!(parse_u32_text(b"-1"), None);
    assert_eq!(parse_u32_text(b"12a"), None);
    assert_eq!(parse_u32_text(b" 12"), None);
    assert_eq!(parse_u32_text(b"4294967296"), None);
    assert_eq!(parse_u32_text(b"99999999999999999999"), None);
}

#[test]
fn rendered_decimal_round_trips() {
    assert_eq!(u32_to_decimal(0), b"0".to_vec());
    assert_eq!(u32_to_decimal(7), b"7".to_vec());
    assert_eq!(u32_to_decimal(150), b"150".to_vec());
    assert_eq!(u32_to_decimal(60000), b"60000".to_vec());
    assert_eq!(u32_to_decimal(u32::MAX), b"4294967295".to_vec());
}

#[test]
fn step_count_must_be_positive() {
    assert_eq!(parse_steps(b"5"), Some(5));
    assert_eq!(parse_steps(b"10"), Some(10));
    assert_eq!(parse_steps(b"0"), None);
    assert_eq!(parse_steps(b"ten"), None);
}

#[test]
fn too_few_arguments_is_the_help_path() {
    assert_eq!(parse_invocation(&vec![]), Ok(ParseOutcome::Usage));
    assert_eq!(parse_invocation(&vec![b"screen".to_vec()]), Ok(ParseOutcome::Usage));
}

#[test]
fn full_invocation_parses() {
    let args = vec![b"screen".to_vec(), b"+".to_vec(), b"20".to_vec()];
    assert_eq!(
        parse_invocation(&args),
        Ok(ParseOutcome::Run(Request {
            device: Device::Screen,
            direction: Direction::Increase,
            total_steps: 20,
        }))
    );
}

#[test]
fn omitted_step_count_equals_explicit_default() {
    let short = vec![b"keyboard".to_vec(), b"-".to_vec()];
    let long = vec![b"keyboard".to_vec(), b"-".to_vec(), b"10".to_vec()];
    assert_eq!(parse_invocation(&short), parse_invocation(&long));
    assert_eq!(
        parse_invocation(&short),
        Ok(ParseOutcome::Run(Request {
            device: Device::Keyboard,
            direction: Direction::Decrease,
            total_steps: 10,
        }))
    );
}

#[test]
fn invalid_selector_aborts_before_any_file_is_named() {
    let args = vec![b"mouse".to_vec(), b"+".to_vec()];
    assert_eq!(parse_invocation(&args), Err(CommandError::InvalidSelector));
}

#[test]
fn bad_step_count_is_its_own_error() {
    let args = vec![b"screen".to_vec(), b"+".to_vec(), b"zero".to_vec()];
    assert_eq!(parse_invocation(&args), Err(CommandError::InvalidStepCount));
    let args = vec![b"screen".to_vec(), b"+".to_vec(), b"0".to_vec()];
    assert_eq!(parse_invocation(&args), Err(CommandError::InvalidStepCount));
}

#[test]
fn debug_switch_is_trimmed_and_case_insensitive() {
    assert!(debug_enabled(b"true"));
    assert!(debug_enabled(b" TRUE \n"));
    assert!(!debug_enabled(b"false"));
    assert!(!debug_enabled(b"truth"));
    assert!(!debug_enabled(b""));
}

#[test]
fn each_device_has_its_path_pair() {
    let (max, cur) = sysfs_paths(Device::Screen);
    assert_eq!(max, "/sys/class/backlight/intel_backlight/max_brightness");
    assert_eq!(cur, "/sys/class/backlight/intel_backlight/brightness");
    let (max, cur) = sysfs_paths(Device::Keyboard);
    assert_eq!(max, "/sys/class/leds/smc::kbd_backlight/max_brightness");
    assert_eq!(cur, "/sys/class/leds/smc::kbd_backlight/brightness");
}
