use gammar::monitor::{device_name_len, find_monitor, initial_selection, primary_first, MonitorInfo};

fn monitor(id: &str, device: &str, is_primary: bool) -> MonitorInfo {
    MonitorInfo {
        id: id.to_string(),
        name: if is_primary { format!("{device} (Primary)") } else { device.to_string() },
        device_name: device.to_string(),
        is_primary,
    }
}

fn wide(text: &str, len: usize) -> Vec<u16> {
    let mut buffer: Vec<u16> = text.encode_utf16().collect();
    buffer.resize(len, 0);
    buffer
}

#[test]
fn find_by_id() {
    let monitors = vec![monitor("1", "A", false), monitor("2", "B", true), monitor("3", "C", false)];
    assert_eq!(find_monitor(&monitors, Some("3")), Some(monitors[2].clone()));
    assert_eq!(find_monitor(&monitors, Some("1")), Some(monitors[0].clone()));
}

#[test]
fn find_without_id_prefers_the_primary() {
    let monitors = vec![monitor("1", "A", false), monitor("2", "B", true), monitor("3", "C", true)];
    assert_eq!(find_monitor(&monitors, None), Some(monitors[1].clone()));
}

#[test]
fn find_without_primary_takes_the_first() {
    let monitors = vec![monitor("1", "A", false), monitor("2", "B", false)];
    assert_eq!(find_monitor(&monitors, None), Some(monitors[0].clone()));
}

#[test]
fn unknown_id_falls_through_to_the_primary() {
    let monitors = vec![monitor("1", "A", false), monitor("2", "B", true)];
    assert_eq!(find_monitor(&monitors, Some("9")), Some(monitors[1].clone()));
    assert_eq!(find_monitor(&monitors, Some("")), Some(monitors[1].clone()));
}

#[test]
fn unknown_id_without_primary_falls_through_to_the_first() {
    let monitors = vec![monitor("1", "A", false), monitor("2", "B", false)];
    assert_eq!(find_monitor(&monitors, Some("9")), Some(monitors[0].clone()));
}

#[test]
fn an_empty_list_has_no_target() {
    assert_eq!(find_monitor(&[], None), None);
    assert_eq!(find_monitor(&[], Some("1")), None);
}

#[test]
fn the_first_of_two_equal_ids_is_found() {
    let monitors = vec![monitor("7", "A", false), monitor("7", "B", true)];
    assert_eq!(find_monitor(&monitors, Some("7")), Some(monitors[0].clone()));
}

#[test]
fn primary_displays_come_first_in_enumeration_order() {
    let monitors = vec![
        monitor("1", "A", false),
        monitor("2", "B", true),
        monitor("3", "C", false),
        monitor("4", "D", true),
    ];
    let ordered = primary_first(&monitors);
    let ids: Vec<&str> = ordered.iter().map(|m| m.id.as_str()).collect();
    assert_eq!(ids, vec!["2", "4", "1", "3"]);
    assert!(primary_first(&[]).is_empty());
}

#[test]
fn a_display_is_described_from_what_the_system_reports() {
    let primary = MonitorInfo::from_raw(65537, &wide("\\\\.\\DISPLAY1", 32), 1);
    assert_eq!(
        primary,
        MonitorInfo {
            id: "65537".to_string(),
            name: "\\\\.\\DISPLAY1 (Primary)".to_string(),
            device_name: "\\\\.\\DISPLAY1".to_string(),
            is_primary: true,
        }
    );
    let other = MonitorInfo::from_raw(0, &wide("\\\\.\\DISPLAY2", 32), 0);
    assert_eq!(
        other,
        MonitorInfo {
            id: "0".to_string(),
            name: "\\\\.\\DISPLAY2".to_string(),
            device_name: "\\\\.\\DISPLAY2".to_string(),
            is_primary: false,
        }
    );
}

#[test]
fn only_the_lowest_flag_bit_marks_the_primary() {
    assert!(MonitorInfo::from_raw(1, &wide("D", 4), 3).is_primary);
    assert!(MonitorInfo::from_raw(1, &wide("D", 4), u32::MAX).is_primary);
    assert!(!MonitorInfo::from_raw(1, &wide("D", 4), 2).is_primary);
    assert!(!MonitorInfo::from_raw(1, &wide("D", 4), 0xffff_fffe).is_primary);
}

#[test]
fn the_handle_value_is_written_in_decimal() {
    assert_eq!(MonitorInfo::from_raw(usize::MAX, &[], 0).id, usize::MAX.to_string());
    assert_eq!(MonitorInfo::from_raw(1000, &[], 0).id, "1000");
}

#[test]
fn the_device_name_ends_at_the_first_zero() {
    assert_eq!(device_name_len(&[]), 0);
    assert_eq!(device_name_len(&[0]), 0);
    assert_eq!(device_name_len(&[65, 66, 0, 67, 0]), 2);
    assert_eq!(device_name_len(&[65, 66, 67]), 3);
    let mut buffer = wide("AB", 8);
    buffer[5] = 'Z' as u16;
    assert_eq!(MonitorInfo::from_raw(1, &buffer, 0).device_name, "AB");
    assert_eq!(MonitorInfo::from_raw(1, &wide("ABC", 3), 0).device_name, "ABC");
    assert_eq!(MonitorInfo::from_raw(1, &[], 1).name, " (Primary)");
}

#[test]
fn undecodable_units_are_replaced() {
    let monitor = MonitorInfo::from_raw(1, &[0x0041, 0xD800, 0x0042, 0], 0);
    assert_eq!(monitor.device_name, "A\u{fffd}B");
    let pair = MonitorInfo::from_raw(1, &[0xD83D, 0xDE00, 0], 0);
    assert_eq!(pair.device_name, "\u{1f600}");
}

#[test]
fn the_wide_device_name_ends_in_a_zero() {
    let m = monitor("1", "\\\\.\\DISPLAY1", true);
    let mut expected: Vec<u16> = "\\\\.\\DISPLAY1".encode_utf16().collect();
    expected.push(0);
    assert_eq!(m.device_name_wide(), expected);
    assert_eq!(monitor("1", "", false).device_name_wide(), vec![0]);
    assert_eq!(monitor("1", "\u{1f600}", false).device_name_wide(), vec![0xD83D, 0xDE00, 0]);
}

#[test]
fn a_lost_selection_is_replaced_by_the_primary() {
    let monitors = vec![monitor("1", "A", false), monitor("2", "B", true)];
    assert_eq!(initial_selection(&monitors, ""), Some("2".to_string()));
    assert_eq!(initial_selection(&monitors, "9"), Some("2".to_string()));
    let plain = vec![monitor("1", "A", false), monitor("2", "B", false)];
    assert_eq!(initial_selection(&plain, "9"), Some("1".to_string()));
}

#[test]
fn a_selection_that_is_attached_stays() {
    let monitors = vec![monitor("1", "A", false), monitor("2", "B", true)];
    assert_eq!(initial_selection(&monitors, "1"), None);
    assert_eq!(initial_selection(&monitors, "2"), None);
}

#[test]
fn nothing_is_selected_when_no_display_is_attached() {
    assert_eq!(initial_selection(&[], ""), None);
    assert_eq!(initial_selection(&[], "1"), None);
}

#[test]
fn an_enumeration_lists_the_primary_first() {
    let report = |handle: usize, device: &str, flags: u32| gammar::monitor::MonitorReport {
        handle,
        device_name: wide(device, 32),
        flags,
    };
    let reports = vec![
        report(10, "\\\\.\\DISPLAY1", 0),
        report(20, "\\\\.\\DISPLAY2", 1),
        report(30, "\\\\.\\DISPLAY3", 0),
    ];
    let monitors = gammar::monitor::enumerate_monitors(&reports);
    assert_eq!(
        monitors,
        vec![
            monitor("20", "\\\\.\\DISPLAY2", true),
            monitor("10", "\\\\.\\DISPLAY1", false),
            monitor("30", "\\\\.\\DISPLAY3", false),
        ]
    );
    assert_eq!(find_monitor(&monitors, None), Some(monitors[0].clone()));
    assert!(gammar::monitor::enumerate_monitors(&[]).is_empty());
}

#[test]
fn a_display_is_described_from_its_decoded_name() {
    assert_eq!(
        MonitorInfo::from_parts(42, "\\\\.\\DISPLAY7".to_string(), 1),
        monitor("42", "\\\\.\\DISPLAY7", true)
    );
    assert_eq!(
        MonitorInfo::from_parts(0, "Left screen".to_string(), 6),
        monitor("0", "Left screen", false)
    );
    assert_eq!(MonitorInfo::from_parts(7, String::new(), 1).name, " (Primary)");
    assert_eq!(MonitorInfo::from_parts(7, String::new(), 0).name, "");
}

#[test]
fn utf16_units_are_those_of_the_standard_encoder() {
    let samples = [
        "", "A", "\\\\.\\DISPLAY1", "\u{7f}\u{80}\u{7ff}\u{800}", "\u{d7ff}\u{e000}\u{ffff}",
        "\u{10000}", "\u{103ff}\u{10400}", "\u{1f600}", "\u{10ffff}", "a\u{10ffff}b\u{fffd}\u{10000}c",
    ];
    for text in samples {
        let expected: Vec<u16> = text.encode_utf16().collect();
        assert_eq!(gammar::monitor::encode_utf16(text), expected, "{text:?}");
    }
    assert_eq!(gammar::monitor::encode_utf16("\u{10000}"), vec![0xd800, 0xdc00]);
    assert_eq!(gammar::monitor::encode_utf16("\u{10ffff}"), vec![0xdbff, 0xdfff]);
    assert_eq!(gammar::monitor::encode_utf16("\u{ffff}"), vec![0xffff]);
}
