use gpio_watch::errors::GpioError;
use gpio_watch::pin::GpioPin;
use gpio_watch::pin::ToolOutcome;
use gpio_watch::text::interpret_event;
use gpio_watch::text::parse_u8;
use gpio_watch::text::u8_to_decimal;
use gpio_watch::watcher::GpioWatcher;

fn tool_ok() -> ToolOutcome {
    ToolOutcome { success: true, diagnostic: String::new() }
}

fn tool_failed(msg: &str) -> ToolOutcome {
    ToolOutcome { success: false, diagnostic: msg.to_string() }
}

#[test]
fn gpio_watcher_test() {
    // One fake watch-capable input pin with initial value "0", one channel:
    // the first published value reflects the pin's state at watcher start,
    // the next one the changed file content.
    let gpio1 = GpioPin::Input { pin_number: 1, support_watch: true };
    let pins = vec![gpio1];
    assert!(GpioWatcher::validate_pins(&pins).is_ok());

    let path = gpio1.get_value_path("test_assets/output/gpio");
    assert_eq!(path, "test_assets/output/gpio/gpio1/value");

    let mut watcher = GpioWatcher::new();
    let idx = watcher.register(7, path);
    assert_eq!(idx, 0);

    // Initial publication: the value file holds "0".
    let initial = GpioPin::parse_value("0\n").unwrap();
    let result = initial;
    assert!(result == 0);

    // The value file changes to "1"; a modify event for its watch identifier
    // arrives and is routed to this registration.
    let routed = watcher.route_event(7, true);
    assert_eq!(routed, Some(0));
    let result = interpret_event("1\n");
    assert!(result == 1);
}

#[test]
fn new_input_judges_export_outcome() {
    let pin = GpioPin::new_input(4, tool_ok()).unwrap();
    assert_eq!(pin, GpioPin::Input { pin_number: 4, support_watch: false });
    assert_eq!(pin.get_pin_number(), 4);
    assert!(!pin.support_watch());

    let err = GpioPin::new_input(4, tool_failed("no such pin")).unwrap_err();
    assert!(matches!(err, GpioError::ExportError(ref m) if m == "no such pin"));
}

#[test]
fn new_output_judges_export_outcome() {
    let pin = GpioPin::new_output(9, 1, tool_ok()).unwrap();
    assert_eq!(pin, GpioPin::Output { pin_number: 9 });
    assert!(!pin.support_watch());

    let err = GpioPin::new_output(9, 0, tool_failed("busy")).unwrap_err();
    assert!(matches!(err, GpioError::ExportError(ref m) if m == "busy"));
}

#[test]
fn invalid_levels_are_rejected() {
    // A default or write level outside {0, 1} always fails with
    // InvalidArgument; the checks are pure, so nothing is touched.
    assert!(GpioPin::check_level(0).is_ok());
    assert!(GpioPin::check_level(1).is_ok());
    assert!(matches!(GpioPin::check_level(2), Err(GpioError::InvalidArgument)));
    assert!(matches!(GpioPin::check_level(255), Err(GpioError::InvalidArgument)));
    assert!(matches!(GpioPin::new_output(9, 2, tool_ok()), Err(GpioError::InvalidArgument)));
    assert!(matches!(GpioPin::new_output(9, 200, tool_failed("x")), Err(GpioError::InvalidArgument)));
}

#[test]
fn enable_watch_on_output_is_unsupported() {
    let mut pin = GpioPin::Output { pin_number: 3 };
    assert!(matches!(pin.check_watch_supported(), Err(GpioError::UnsupportedOperation)));
    let err = pin.enable_watch(tool_ok()).unwrap_err();
    assert!(matches!(err, GpioError::UnsupportedOperation));
    // The pin is left unchanged: still an output, still not watch-capable.
    assert_eq!(pin, GpioPin::Output { pin_number: 3 });
    assert!(!pin.support_watch());
}

#[test]
fn enable_watch_on_input_follows_tool_outcome() {
    let mut pin = GpioPin::Input { pin_number: 6, support_watch: false };
    assert!(pin.check_watch_supported().is_ok());

    let err = pin.enable_watch(tool_failed("edge failed")).unwrap_err();
    assert!(matches!(err, GpioError::ExportError(ref m) if m == "edge failed"));
    assert_eq!(pin, GpioPin::Input { pin_number: 6, support_watch: false });

    pin.enable_watch(tool_ok()).unwrap();
    assert_eq!(pin, GpioPin::Input { pin_number: 6, support_watch: true });
    assert!(pin.support_watch());
    assert_eq!(pin.get_pin_number(), 6);
}

#[test]
fn value_path_is_pure_computation() {
    let a = GpioPin::Input { pin_number: 0, support_watch: false };
    assert_eq!(a.get_value_path("/sys/class/gpio"), "/sys/class/gpio/gpio0/value");
    let b = GpioPin::Output { pin_number: 42 };
    assert_eq!(b.get_value_path("/base"), "/base/gpio42/value");
    let c = GpioPin::Output { pin_number: 255 };
    assert_eq!(c.get_value_path(""), "/gpio255/value");
}

#[test]
fn decimal_rendering_is_exact() {
    assert_eq!(u8_to_decimal(0), "0");
    assert_eq!(u8_to_decimal(1), "1");
    assert_eq!(u8_to_decimal(9), "9");
    assert_eq!(u8_to_decimal(10), "10");
    assert_eq!(u8_to_decimal(100), "100");
    assert_eq!(u8_to_decimal(207), "207");
    assert_eq!(u8_to_decimal(255), "255");
}

#[test]
fn parse_accepts_trimmed_decimals() {
    assert_eq!(parse_u8("0"), Some(0));
    assert_eq!(parse_u8("1\n"), Some(1));
    assert_eq!(parse_u8(" 42\t"), Some(42));
    assert_eq!(parse_u8("255"), Some(255));
    assert_eq!(parse_u8("007"), Some(7));
    assert_eq!(parse_u8("\r\n1 "), Some(1));
}

#[test]
fn parse_rejects_unparseable_content() {
    assert_eq!(parse_u8(""), None);
    assert_eq!(parse_u8("  \n"), None);
    assert_eq!(parse_u8("256"), None);
    assert_eq!(parse_u8("1x"), None);
    assert_eq!(parse_u8("x1"), None);
    assert_eq!(parse_u8("1 1"), None);
    assert_eq!(parse_u8("-1"), None);
    assert_eq!(parse_u8("99999999999999999999"), None);
    assert!(matches!(GpioPin::parse_value("abc"), Err(GpioError::ParseError)));
    assert!(matches!(GpioPin::parse_value("1\n"), Ok(1)));
}

#[test]
fn write_read_round_trip() {
    // The text the write path produces for a level parses back to it.
    for v in 0..=255u8 {
        let text = u8_to_decimal(v);
        assert_eq!(parse_u8(&text), Some(v));
    }
}

#[test]
fn event_value_is_one_iff_content_has_digit_one() {
    assert_eq!(interpret_event("1\n"), 1);
    assert_eq!(interpret_event("0\n"), 0);
    assert_eq!(interpret_event(""), 0);
    assert_eq!(interpret_event("   "), 0);
    assert_eq!(interpret_event("x1x"), 1);
    assert_eq!(interpret_event("11"), 1);
    assert_eq!(interpret_event("0"), 0);
}

#[test]
fn watcher_rejects_unwatchable_pins() {
    // Construction validates every pin before any resource is allocated and
    // names the first pin that cannot be watched.
    let capable = GpioPin::Input { pin_number: 1, support_watch: true };
    let plain_input = GpioPin::Input { pin_number: 2, support_watch: false };
    let output = GpioPin::Output { pin_number: 3 };

    assert!(GpioWatcher::validate_pins(&vec![capable]).is_ok());
    assert!(GpioWatcher::validate_pins(&vec![]).is_ok());

    let err = GpioWatcher::validate_pins(&vec![capable, plain_input, output]).unwrap_err();
    assert!(matches!(err, GpioError::UnwatchablePin(2)));
    let err = GpioWatcher::validate_pins(&vec![capable, output]).unwrap_err();
    assert!(matches!(err, GpioError::UnwatchablePin(3)));
}

#[test]
fn events_are_routed_only_to_their_own_registration() {
    // Two pins on one watcher: a change event carries one registration's
    // identifier and is never delivered to the other.
    let mut watcher = GpioWatcher::new();
    let a = watcher.register(10, "base/gpio1/value".to_string());
    let b = watcher.register(20, "base/gpio2/value".to_string());
    assert_eq!(a, 0);
    assert_eq!(b, 1);
    assert_eq!(watcher.reg_len(), 2);

    assert_eq!(watcher.route_event(10, true), Some(0));
    assert_eq!(watcher.route_event(20, true), Some(1));
    // Unknown identifiers are skipped; create/delete events are ignored.
    assert_eq!(watcher.route_event(30, true), None);
    assert_eq!(watcher.route_event(10, false), None);

    assert_eq!(watcher.get_path(0).unwrap(), "base/gpio1/value");
    assert_eq!(watcher.get_path(1).unwrap(), "base/gpio2/value");
    assert!(watcher.get_path(2).is_none());
}

#[test]
fn register_replaces_an_existing_identifier() {
    let mut watcher = GpioWatcher::new();
    let first = watcher.register(5, "old/path".to_string());
    let second = watcher.register(5, "new/path".to_string());
    assert_eq!(first, 0);
    assert_eq!(second, 0);
    assert_eq!(watcher.reg_len(), 1);
    assert_eq!(watcher.get_path(0).unwrap(), "new/path");
}
