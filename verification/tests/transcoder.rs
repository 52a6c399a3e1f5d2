use plistform::decode::parse_plist_xml;
use plistform::encode::plist_to_xml;
use plistform::model::{LimitLoadToSessionType, PlistData};

#[test]
fn test_parse_label_element() {
    let xml = r#"<dict>
    <key>Label</key>
    <string>com.user.test</string>
</dict>"#;

    let parsed = parse_plist_xml(xml);
    assert_eq!(parsed.label, Some("com.user.test".to_string()));
}

#[test]
fn test_parse_start_interval_element() {
    let xml = r#"<dict>
    <key>StartInterval</key>
    <integer>300</integer>
</dict>"#;

    let parsed = parse_plist_xml(xml);
    assert_eq!(parsed.start_interval, Some(300));
}

#[test]
fn test_parse_boolean_true_element() {
    let xml = r#"<dict>
    <key>RunAtLoad</key>
    <true/>
</dict>"#;

    let parsed = parse_plist_xml(xml);
    assert_eq!(parsed.run_at_load, Some(true));
}

#[test]
fn test_parse_boolean_false_element() {
    let xml = r#"<dict>
    <key>KeepAlive</key>
    <false/>
</dict>"#;

    let parsed = parse_plist_xml(xml);
    assert_eq!(parsed.keep_alive, Some(false));
}

#[test]
fn test_parse_program_arguments_array() {
    let xml = r#"<dict>
    <key>ProgramArguments</key>
    <array>
        <string>/usr/bin/test</string>
        <string>--flag</string>
    </array>
</dict>"#;

    let parsed = parse_plist_xml(xml);
    assert_eq!(
        parsed.program_arguments,
        Some(vec!["/usr/bin/test".to_string(), "--flag".to_string()])
    );
}

#[test]
fn test_parse_string_paths() {
    let xml = r#"<dict>
    <key>StandardOutPath</key>
    <string>/tmp/out.log</string>
    <key>StandardErrorPath</key>
    <string>/tmp/err.log</string>
    <key>WorkingDirectory</key>
    <string>/tmp</string>
</dict>"#;

    let parsed = parse_plist_xml(xml);
    assert_eq!(parsed.standard_out_path, Some("/tmp/out.log".to_string()));
    assert_eq!(parsed.standard_error_path, Some("/tmp/err.log".to_string()));
    assert_eq!(parsed.working_directory, Some("/tmp".to_string()));
}

#[test]
fn test_example_plist_file() {
    let xml = r#"<?xml version="1.0" encoding="UTF-8"?>
<!DOCTYPE plist PUBLIC "-//Apple//DTD PLIST 1.0//EN" "http://www.apple.com/DTDs/PropertyList-1.0.dtd">
<plist version="1.0">
<dict>
    <key>Label</key>
    <string>com.user.price-checker-eth</string>

    <key>ProgramArguments</key>
    <array>
        <string>/Users/dev/.local/bin/price-checker-eth</string>
    </array>

    <key>StartInterval</key>
    <integer>600</integer>

    <key>RunAtLoad</key>
    <true/>

    <key>KeepAlive</key>
    <false/>

    <key>StandardOutPath</key>
    <string>/Users/dev/Documents/github.com/hollanddd/price-checker-eth/logs/price-checker-eth.log</string>

    <key>StandardErrorPath</key>
    <string>/Users/dev/Documents/github.com/hollanddd/price-checker-eth/logs/price-checker-eth.error.log</string>

    <key>WorkingDirectory</key>
    <string>/Users/dev/Documents/github.com/hollanddd/price-checker-eth</string>
</dict>
</plist>"#;

    let parsed = parse_plist_xml(xml);

    assert_eq!(parsed.label, Some("com.user.price-checker-eth".to_string()));
    assert_eq!(
        parsed.program_arguments,
        Some(vec!["/Users/dev/.local/bin/price-checker-eth".to_string()])
    );
    assert_eq!(parsed.start_interval, Some(600));
    assert_eq!(parsed.run_at_load, Some(true));
    assert_eq!(parsed.keep_alive, Some(false));
    assert_eq!(parsed.standard_out_path, Some("/Users/dev/Documents/github.com/hollanddd/price-checker-eth/logs/price-checker-eth.log".to_string()));
    assert_eq!(parsed.standard_error_path, Some("/Users/dev/Documents/github.com/hollanddd/price-checker-eth/logs/price-checker-eth.error.log".to_string()));
    assert_eq!(
        parsed.working_directory,
        Some("/Users/dev/Documents/github.com/hollanddd/price-checker-eth".to_string())
    );
}

fn full_document() -> PlistData {
    let mut d = PlistData::default();
    d.label = Some("com.example.worker".to_string());
    d.program = Some("/usr/local/bin/worker".to_string());
    d.program_arguments = Some(vec!["/usr/local/bin/worker".to_string(), "--verbose".to_string()]);
    d.start_interval = Some(600);
    d.throttle_interval = Some(-5);
    d.run_at_load = Some(true);
    d.keep_alive = Some(false);
    d.standard_out_path = Some("/tmp/worker.log".to_string());
    d.standard_error_path = Some("/tmp/worker.err".to_string());
    d.working_directory = Some("/tmp".to_string());
    d.posix_spawn_type = Some("Interactive".to_string());
    d.abandon_process_group = Some(true);
    d.enable_pressured_exit = Some(false);
    d.enable_transactions = Some(true);
    d.event_monitor = Some(false);
    d.associated_bundle_identifiers = Some(vec!["com.example.app".to_string()]);
    d.limit_load_to_session_type =
        Some(LimitLoadToSessionType::Multiple(vec!["Aqua".to_string(), "Background".to_string()]));
    d.environment_variables = Some(vec![
        ("PATH".to_string(), "/usr/bin:/bin".to_string()),
        ("HOME".to_string(), "/var/empty".to_string()),
    ]);
    d
}

#[test]
fn round_trip_preserves_every_attribute() {
    let d = full_document();
    let text = plist_to_xml(&d);
    let back = parse_plist_xml(&text);
    assert_eq!(back, d);
}

#[test]
fn round_trip_single_session_type() {
    let mut d = PlistData::default();
    d.limit_load_to_session_type =
        Some(LimitLoadToSessionType::Single("LoginWindow".to_string()));
    let back = parse_plist_xml(&plist_to_xml(&d));
    assert_eq!(back, d);
}

#[test]
fn round_trip_empty_document() {
    let d = PlistData::default();
    let back = parse_plist_xml(&plist_to_xml(&d));
    assert_eq!(back, d);
}

#[test]
fn round_trip_empty_list_and_empty_strings() {
    let mut d = PlistData::default();
    d.program_arguments = Some(vec![]);
    d.label = Some(String::new());
    let back = parse_plist_xml(&plist_to_xml(&d));
    assert_eq!(back, d);
}

#[test]
fn reencode_is_stable() {
    let d = full_document();
    let once = plist_to_xml(&parse_plist_xml(&plist_to_xml(&d)));
    let twice = plist_to_xml(&parse_plist_xml(&once));
    assert_eq!(once, twice);
}

#[test]
fn duplicate_label_last_occurrence_wins() {
    let xml = r#"<dict>
    <key>Label</key>
    <string>first.value</string>
    <key>Label</key>
    <string>second.value</string>
</dict>"#;
    let parsed = parse_plist_xml(xml);
    assert_eq!(parsed.label, Some("second.value".to_string()));
}

#[test]
fn decode_of_unstructured_text_is_default() {
    let parsed = parse_plist_xml("no structure here at all");
    assert_eq!(parsed, PlistData::default());
}

#[test]
fn decode_skips_unknown_keys_and_bad_integers() {
    let xml = r#"<dict>
    <key>SomebodyElse</key>
    <string>ignored</string>
    <key>StartInterval</key>
    <integer>not-a-number</integer>
    <key>Label</key>
    <string>kept</string>
</dict>"#;
    let parsed = parse_plist_xml(xml);
    assert_eq!(parsed.label, Some("kept".to_string()));
    assert_eq!(parsed.start_interval, None);
}

#[test]
fn decode_reads_environment_dictionary() {
    let xml = r#"<dict>
    <key>EnvironmentVariables</key>
    <dict>
        <key>PATH</key>
        <string>/usr/bin</string>
        <key>LANG</key>
        <string>C</string>
    </dict>
</dict>"#;
    let parsed = parse_plist_xml(xml);
    assert_eq!(
        parsed.environment_variables,
        Some(vec![
            ("PATH".to_string(), "/usr/bin".to_string()),
            ("LANG".to_string(), "C".to_string()),
        ])
    );
}

#[test]
fn decode_parses_signed_and_padded_integers() {
    let xml = "<dict>\n<key>StartInterval</key>\n<integer>+0042</integer>\n<key>ThrottleInterval</key>\n<integer>-7</integer>\n</dict>";
    let parsed = parse_plist_xml(xml);
    assert_eq!(parsed.start_interval, Some(42));
    assert_eq!(parsed.throttle_interval, Some(-7));
}

#[test]
fn decode_drops_out_of_range_integer() {
    let xml = "<dict>\n<key>StartInterval</key>\n<integer>2147483648</integer>\n</dict>";
    let parsed = parse_plist_xml(xml);
    assert_eq!(parsed.start_interval, None);
    let xml2 = "<dict>\n<key>StartInterval</key>\n<integer>-2147483648</integer>\n</dict>";
    let parsed2 = parse_plist_xml(xml2);
    assert_eq!(parsed2.start_interval, Some(i32::MIN));
}

#[test]
fn encode_emits_exact_frame_and_elements() {
    let mut d = PlistData::default();
    d.label = Some("com.user.test".to_string());
    d.start_interval = Some(600);
    d.run_at_load = Some(true);
    let text = plist_to_xml(&d);
    let expected = "<?xml version=\"1.0\" encoding=\"UTF-8\"?>\n<!DOCTYPE plist PUBLIC \"-//Apple//DTD PLIST 1.0//EN\" \"http://www.apple.com/DTDs/PropertyList-1.0.dtd\">\n<plist version=\"1.0\">\n<dict>\n    <key>Label</key>\n    <string>com.user.test</string>\n    \n    <key>StartInterval</key>\n    <integer>600</integer>\n    \n    <key>RunAtLoad</key>\n    <true/>\n    \n</dict>\n</plist>\n";
    assert_eq!(text, expected);
}

#[test]
fn decode_line_oriented_scenario() {
    let xml = r#"<dict>
<key>Label</key>
<string>com.user.test</string>
<key>ProgramArguments</key>
<array>
<string>/usr/bin/test</string>
<string>--flag</string>
</array>
<key>StartInterval</key>
<integer>600</integer>
<key>RunAtLoad</key>
<true/>
<key>KeepAlive</key>
<false/>
</dict>"#;
    let parsed = parse_plist_xml(xml);
    assert_eq!(parsed.label, Some("com.user.test".to_string()));
    assert_eq!(
        parsed.program_arguments,
        Some(vec!["/usr/bin/test".to_string(), "--flag".to_string()])
    );
    assert_eq!(parsed.start_interval, Some(600));
    assert_eq!(parsed.run_at_load, Some(true));
    assert_eq!(parsed.keep_alive, Some(false));
    assert_eq!(parsed.program, None);
    assert_eq!(parsed.throttle_interval, None);
    assert_eq!(parsed.standard_out_path, None);
    assert_eq!(parsed.standard_error_path, None);
    assert_eq!(parsed.working_directory, None);
    assert_eq!(parsed.posix_spawn_type, None);
    assert_eq!(parsed.abandon_process_group, None);
    assert_eq!(parsed.enable_pressured_exit, None);
    assert_eq!(parsed.enable_transactions, None);
    assert_eq!(parsed.event_monitor, None);
    assert_eq!(parsed.environment_variables, None);
    assert_eq!(parsed.associated_bundle_identifiers, None);
    assert!(parsed.limit_load_to_session_type.is_none());
}
