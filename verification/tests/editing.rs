use plistform::agents::{enabled_from_probe, get_filtered_agents, status_from_probe, wrap_next, wrap_prev};
use plistform::fields::{
    commit_field, field_name, next_field, prev_field, scroll_offset_for_field, seed_buffer,
    FormField,
};
use plistform::model::{AgentStatus, LaunchAgent, LimitLoadToSessionType, PlistData, TabLocation};
use plistform::session::EditSession;

#[test]
fn boolean_commit_is_literal_strict() {
    let mut d = PlistData::default();
    commit_field(&mut d, FormField::RunAtLoad, "True");
    assert_eq!(d.run_at_load, Some(false));
    commit_field(&mut d, FormField::RunAtLoad, "true");
    assert_eq!(d.run_at_load, Some(true));
    commit_field(&mut d, FormField::KeepAlive, "yes");
    assert_eq!(d.keep_alive, Some(false));
}

#[test]
fn integer_commit_clears_on_bad_input() {
    let mut d = PlistData::default();
    d.start_interval = Some(600);
    let mut s = EditSession::new();
    s.select_next();
    s.select_next();
    s.select_next();
    assert_eq!(s.current_field, FormField::StartInterval);
    s.start_editing(&d);
    assert_eq!(s.edit_buffer, "600");
    s.delete_char();
    s.delete_char();
    s.delete_char();
    s.insert_char('a');
    s.insert_char('b');
    s.insert_char('c');
    s.save_field_edit(&mut d);
    assert_eq!(d.start_interval, None);
}

#[test]
fn map_commit_drops_lines_without_separator() {
    let mut d = PlistData::default();
    commit_field(&mut d, FormField::EnvironmentVariables, "FOO=bar\nNOPE");
    assert_eq!(
        d.environment_variables,
        Some(vec![("FOO".to_string(), "bar".to_string())])
    );
}

#[test]
fn map_commit_trims_and_takes_last_duplicate() {
    let mut d = PlistData::default();
    commit_field(&mut d, FormField::EnvironmentVariables, " A = 1 \nB=2\nA=3");
    assert_eq!(
        d.environment_variables,
        Some(vec![("A".to_string(), "3".to_string()), ("B".to_string(), "2".to_string())])
    );
    commit_field(&mut d, FormField::EnvironmentVariables, "no separators here");
    assert_eq!(d.environment_variables, None);
}

#[test]
fn session_commit_single_for_one_line() {
    let mut d = PlistData::default();
    commit_field(&mut d, FormField::LimitLoadToSessionType, "Aqua");
    assert_eq!(
        d.limit_load_to_session_type,
        Some(LimitLoadToSessionType::Single("Aqua".to_string()))
    );
}

#[test]
fn session_commit_multiple_for_two_lines() {
    let mut d = PlistData::default();
    commit_field(&mut d, FormField::LimitLoadToSessionType, "Aqua\nBackground");
    assert_eq!(
        d.limit_load_to_session_type,
        Some(LimitLoadToSessionType::Multiple(vec![
            "Aqua".to_string(),
            "Background".to_string()
        ]))
    );
    commit_field(&mut d, FormField::LimitLoadToSessionType, "  \n  ");
    assert_eq!(d.limit_load_to_session_type, None);
}

#[test]
fn string_commit_empty_clears() {
    let mut d = PlistData::default();
    d.label = Some("x".to_string());
    commit_field(&mut d, FormField::Label, "");
    assert_eq!(d.label, None);
    commit_field(&mut d, FormField::Label, "y");
    assert_eq!(d.label, Some("y".to_string()));
}

#[test]
fn list_commit_keeps_order_and_trims() {
    let mut d = PlistData::default();
    commit_field(&mut d, FormField::ProgramArguments, " /bin/a \n\n --flag ");
    assert_eq!(
        d.program_arguments,
        Some(vec!["/bin/a".to_string(), "--flag".to_string()])
    );
    commit_field(&mut d, FormField::ProgramArguments, "\n \n");
    assert_eq!(d.program_arguments, None);
}

#[test]
fn integer_commit_parses_signs_and_bounds() {
    let mut d = PlistData::default();
    commit_field(&mut d, FormField::ThrottleInterval, "+42");
    assert_eq!(d.throttle_interval, Some(42));
    commit_field(&mut d, FormField::ThrottleInterval, "-2147483648");
    assert_eq!(d.throttle_interval, Some(i32::MIN));
    commit_field(&mut d, FormField::ThrottleInterval, "2147483648");
    assert_eq!(d.throttle_interval, None);
    commit_field(&mut d, FormField::StartInterval, "007");
    assert_eq!(d.start_interval, Some(7));
}

#[test]
fn seed_renders_each_kind() {
    let mut d = PlistData::default();
    d.label = Some("com.x".to_string());
    d.start_interval = Some(-12);
    d.run_at_load = Some(true);
    d.program_arguments = Some(vec!["a".to_string(), "b".to_string()]);
    d.environment_variables = Some(vec![("K".to_string(), "V".to_string())]);
    d.limit_load_to_session_type =
        Some(LimitLoadToSessionType::Multiple(vec!["x".to_string(), "y".to_string()]));
    assert_eq!(seed_buffer(&d, FormField::Label), "com.x");
    assert_eq!(seed_buffer(&d, FormField::Program), "");
    assert_eq!(seed_buffer(&d, FormField::StartInterval), "-12");
    assert_eq!(seed_buffer(&d, FormField::ThrottleInterval), "");
    assert_eq!(seed_buffer(&d, FormField::RunAtLoad), "true");
    assert_eq!(seed_buffer(&d, FormField::KeepAlive), "false");
    assert_eq!(seed_buffer(&d, FormField::ProgramArguments), "a\nb");
    assert_eq!(seed_buffer(&d, FormField::EnvironmentVariables), "K=V");
    assert_eq!(seed_buffer(&d, FormField::LimitLoadToSessionType), "x\ny");
}

#[test]
fn navigation_wraps_both_ways() {
    let mut f = FormField::Label;
    for _ in 0..18 {
        f = next_field(f);
    }
    assert_eq!(f, FormField::Label);
    assert_eq!(next_field(FormField::EnvironmentVariables), FormField::Label);
    assert_eq!(prev_field(FormField::Label), FormField::EnvironmentVariables);
    assert_eq!(prev_field(next_field(FormField::KeepAlive)), FormField::KeepAlive);
}

#[test]
fn editing_captures_input_and_cancel_discards() {
    let d = PlistData::default();
    let mut s = EditSession::new();
    assert_eq!(s.current_field, FormField::Label);
    s.start_editing(&d);
    assert!(s.editing);
    s.select_next();
    assert_eq!(s.current_field, FormField::Label);
    s.insert_char('h');
    s.insert_char('j');
    s.insert_char('i');
    assert_eq!(s.edit_buffer, "hi");
    s.cancel_editing();
    assert!(!s.editing);
    assert_eq!(s.edit_buffer, "");
    s.select_next();
    assert_eq!(s.current_field, FormField::Program);
}

#[test]
fn field_names_match_catalog() {
    assert_eq!(field_name(FormField::Label), "Label");
    assert_eq!(field_name(FormField::POSIXSpawnType), "POSIX Spawn Type");
    assert_eq!(field_name(FormField::EnvironmentVariables), "Environment Variables");
    let s = EditSession::new();
    assert_eq!(s.get_current_field_name(), "Label");
    assert_eq!(s.get_editing_field_name(), "Unknown");
}

#[test]
fn scroll_follows_the_selected_field() {
    assert_eq!(scroll_offset_for_field(FormField::Label, 10), 0);
    assert_eq!(scroll_offset_for_field(FormField::EnvironmentVariables, 0), 38);
    assert_eq!(scroll_offset_for_field(FormField::RunAtLoad, 10), 10);
}

#[test]
fn model_defaults_and_display_names() {
    let d = PlistData::default();
    assert_eq!(d, PlistData::default());
    assert_eq!(d.label, None);
    assert_eq!(
        LimitLoadToSessionType::default(),
        LimitLoadToSessionType::Single(String::new())
    );
    assert_eq!(TabLocation::User.get_display_name(), "\u{1F464} User");
    assert_eq!(TabLocation::Global.get_display_name(), "\u{1F310} Global");
    assert_eq!(TabLocation::Apple.get_display_name(), "\u{1F34E} Apple");
    let agent = LaunchAgent {
        filename: "a.plist".to_string(),
        label: Some("a".to_string()),
        status: AgentStatus::Running,
        enabled: true,
    };
    assert_eq!(agent.status, AgentStatus::Running);
}

fn agent(filename: &str, label: Option<&str>) -> LaunchAgent {
    LaunchAgent {
        filename: filename.to_string(),
        label: label.map(|l| l.to_string()),
        status: AgentStatus::Unknown,
        enabled: false,
    }
}

#[test]
fn filtering_is_case_insensitive_on_filename_and_label() {
    let agents = vec![
        agent("Alpha.plist", Some("com.a")),
        agent("beta.plist", Some("COM.B")),
        agent("gamma.plist", None),
    ];
    let hits = get_filtered_agents(&agents, "ALPHA");
    assert_eq!(hits.len(), 1);
    assert_eq!(hits[0].filename, "Alpha.plist");
    let hits = get_filtered_agents(&agents, "com.b");
    assert_eq!(hits.len(), 1);
    assert_eq!(hits[0].filename, "beta.plist");
    assert_eq!(get_filtered_agents(&agents, "").len(), 3);
    assert_eq!(get_filtered_agents(&agents, "zzz").len(), 0);
}

#[test]
fn selection_wraps_around_the_list() {
    assert_eq!(wrap_next(None, 3), 0);
    assert_eq!(wrap_next(Some(0), 3), 1);
    assert_eq!(wrap_next(Some(2), 3), 0);
    assert_eq!(wrap_prev(None, 3), 0);
    assert_eq!(wrap_prev(Some(0), 3), 2);
    assert_eq!(wrap_prev(Some(2), 3), 1);
}

#[test]
fn probe_output_classification() {
    assert_eq!(status_from_probe("No such service"), AgentStatus::Stopped);
    assert_eq!(status_from_probe("  No such service \n"), AgentStatus::Stopped);
    assert_eq!(
        status_from_probe("service = {\n state = running\n}"),
        AgentStatus::Running
    );
    assert_eq!(
        status_from_probe("service = {\n state = stopped\n}"),
        AgentStatus::Stopped
    );
    assert_eq!(status_from_probe("unparsable report"), AgentStatus::Error);
    assert!(enabled_from_probe("{\"com.other\": false}", "com.me"));
    assert!(!enabled_from_probe("{\"com.me\": false}", "com.me"));
}
