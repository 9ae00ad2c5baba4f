use monitor_control::capabilities::MonitorCapabilities;
use monitor_control::input::{get_all_inputs_from_capabilities_string, MonitorInput};
use monitor_control::mccs::{ParserErrorKind, VCPCommand};

fn plain(code: &str) -> VCPCommand {
    VCPCommand { command: code.to_string(), values: vec![] }
}

fn with_values(code: &str, values: &[&str]) -> VCPCommand {
    VCPCommand { command: code.to_string(), values: values.iter().map(|v| plain(v)).collect() }
}

fn with_vcp(vcp_codes: Vec<VCPCommand>) -> MonitorCapabilities {
    MonitorCapabilities { vcp_codes, ..MonitorCapabilities::default() }
}

#[test]
fn capabilities_clone_is_equal() {
    let text = "(prot(monitor)type(lcd)model(X1)cmds(01 02 03)vcp(02 04 60(01 03 11))mccs_ver(2.1))";
    let caps = MonitorCapabilities::from_cap_string(text.to_string()).unwrap();
    assert_eq!(caps.clone(), caps);
}

#[test]
fn from_cap_string_fills_every_field() {
    let text = "(prot(monitor)type(lcd)model(X1)cmds(01 02 03)vcp(02 04 60(01 03 11))mccs_ver(2.1))";
    let caps = MonitorCapabilities::from_cap_string(text.to_string()).unwrap();
    assert_eq!(caps.protocol_class, "monitor");
    assert_eq!(caps.display_type, "lcd");
    assert_eq!(caps.display_model, "X1");
    assert_eq!(caps.mccs_version, "2.1");
    assert_eq!(caps.commands, vec![plain("01"), plain("02"), plain("03")]);
    assert_eq!(
        caps.vcp_codes,
        vec![plain("02"), plain("04"), with_values("60", &["01", "03", "11"])]
    );
}

#[test]
fn from_cap_string_leaves_missing_fields_empty() {
    let caps = MonitorCapabilities::from_cap_string("(type(lcd))".to_string()).unwrap();
    assert_eq!(
        caps,
        MonitorCapabilities {
            protocol_class: String::new(),
            display_type: "lcd".to_string(),
            commands: vec![],
            vcp_codes: vec![],
            display_model: String::new(),
            mccs_version: String::new(),
        }
    );
    let caps = MonitorCapabilities::from_cap_string("()".to_string()).unwrap();
    assert_eq!(caps, MonitorCapabilities::default());
}

#[test]
fn from_cap_string_passes_over_unknown_keys() {
    let caps = MonitorCapabilities::from_cap_string(
        "(asset_eep(40)model(X1)window1(type(PIP) area(25 25 1895 1175)))".to_string(),
    )
    .unwrap();
    assert_eq!(caps, MonitorCapabilities { display_model: "X1".to_string(), ..Default::default() });
}

#[test]
fn from_cap_string_lets_the_last_entry_win() {
    let caps = MonitorCapabilities::from_cap_string(
        "(model(A) vcp(10) model(B) vcp(60(01)) model(C))".to_string(),
    )
    .unwrap();
    assert_eq!(caps.display_model, "C");
    assert_eq!(caps.vcp_codes, vec![with_values("60", &["01"])]);
}

#[test]
fn from_cap_string_later_empty_entry_clears_the_field() {
    let caps =
        MonitorCapabilities::from_cap_string("(model(A) model() type(lcd) type x)".to_string())
            .unwrap();
    assert_eq!(caps.display_model, "");
    assert_eq!(caps.display_type, "");
}

#[test]
fn from_cap_string_compares_keys_letter_for_letter() {
    let caps = MonitorCapabilities::from_cap_string("(Model(A) MODEL(B) models(C))".to_string())
        .unwrap();
    assert_eq!(caps, MonitorCapabilities::default());
}

#[test]
fn from_cap_string_hands_on_the_parser_error() {
    assert_eq!(
        MonitorCapabilities::from_cap_string("(prot(monitor)".to_string()).unwrap_err().kind,
        ParserErrorKind::UnexpectedEof
    );
    assert_eq!(
        MonitorCapabilities::from_cap_string(")".to_string()).unwrap_err().kind,
        ParserErrorKind::InvalidStructure
    );
    assert_eq!(
        MonitorCapabilities::from_cap_string("(prot(monitor) type)".to_string()).unwrap_err().kind,
        ParserErrorKind::MalformedTopLevel
    );
    assert_eq!(
        MonitorCapabilities::from_cap_string("((prot) monitor)".to_string()).unwrap_err().kind,
        ParserErrorKind::KeyNotAtom
    );
}

#[test]
fn inputs_are_resolved_in_the_order_of_the_monitor() {
    let caps = with_vcp(vec![plain("10"), with_values("60", &["01", "0F", "11"]), plain("AC")]);
    assert_eq!(
        get_all_inputs_from_capabilities_string(&caps),
        Ok(vec![MonitorInput::AnalogVideo1, MonitorInput::DisplayPort1, MonitorInput::HDMI1])
    );
}

#[test]
fn unknown_input_code_resolves_to_unknown() {
    let caps = with_vcp(vec![with_values("60", &["99", "11", "0f", "1", ""])]);
    assert_eq!(
        get_all_inputs_from_capabilities_string(&caps),
        Ok(vec![
            MonitorInput::Unknown,
            MonitorInput::HDMI1,
            MonitorInput::Unknown,
            MonitorInput::Unknown,
            MonitorInput::Unknown,
        ])
    );
}

#[test]
fn missing_input_command_gives_no_inputs() {
    assert_eq!(get_all_inputs_from_capabilities_string(&with_vcp(vec![])), Ok(vec![]));
    let caps = with_vcp(vec![plain("10"), with_values("14", &["01", "02"]), plain("600")]);
    assert_eq!(get_all_inputs_from_capabilities_string(&caps), Ok(vec![]));
}

#[test]
fn input_command_without_values_gives_no_inputs() {
    assert_eq!(get_all_inputs_from_capabilities_string(&with_vcp(vec![plain("60")])), Ok(vec![]));
}

#[test]
fn first_input_command_counts() {
    let caps = with_vcp(vec![with_values("60", &["11"]), with_values("60", &["01", "02"])]);
    assert_eq!(get_all_inputs_from_capabilities_string(&caps), Ok(vec![MonitorInput::HDMI1]));
}

#[test]
fn input_command_among_the_commands_does_not_count() {
    let caps = MonitorCapabilities {
        commands: vec![with_values("60", &["11"])],
        ..MonitorCapabilities::default()
    };
    assert_eq!(get_all_inputs_from_capabilities_string(&caps), Ok(vec![]));
}

#[test]
fn inputs_from_a_capability_string() {
    let caps = MonitorCapabilities::from_cap_string(
        "(prot(monitor)vcp(02 04 05 08 10 12 60(01 03 11)))".to_string(),
    )
    .unwrap();
    assert_eq!(
        get_all_inputs_from_capabilities_string(&caps),
        Ok(vec![MonitorInput::AnalogVideo1, MonitorInput::DVI1, MonitorInput::HDMI1])
    );
}

#[test]
fn every_code_of_the_table_has_its_input() {
    let table = [
        ("01", MonitorInput::AnalogVideo1, 1, "Analog Video 1"),
        ("02", MonitorInput::AnalogVideo2, 2, "Analog Video 2"),
        ("03", MonitorInput::DVI1, 3, "DVI 1"),
        ("04", MonitorInput::DVI2, 4, "DVI 2"),
        ("05", MonitorInput::CompositeVideo1, 5, "Composite Video 1"),
        ("06", MonitorInput::CompositeVideo2, 6, "Composite Video 2"),
        ("07", MonitorInput::SVideo1, 7, "SVideo 1"),
        ("08", MonitorInput::SVideo2, 8, "SVideo 2"),
        ("09", MonitorInput::Tuner1, 9, "Tuner 1"),
        ("0A", MonitorInput::Tuner2, 10, "Tuner 2"),
        ("0B", MonitorInput::Tuner3, 11, "Tuner 3"),
        ("0C", MonitorInput::ComponentVideo1, 12, "Component Video 1"),
        ("0D", MonitorInput::ComponentVideo2, 13, "Component Video 2"),
        ("0E", MonitorInput::ComponentVideo3, 14, "Component Video 3"),
        ("0F", MonitorInput::DisplayPort1, 15, "DP 1"),
        ("10", MonitorInput::DisplayPort2, 16, "DP 2"),
        ("11", MonitorInput::HDMI1, 17, "HDMI 1"),
        ("12", MonitorInput::HDMI2, 18, "HDMI 2"),
    ];
    for (code, input, value, name) in table {
        assert_eq!(MonitorInput::from_code(code), input);
        assert_eq!(input.value(), value);
        assert_eq!(input.code(), Some(value));
        assert_eq!(u16::from_str_radix(code, 16), Ok(value));
        assert_eq!(input.display_name(), name);
    }
}

#[test]
fn codes_outside_the_table_are_unknown() {
    for code in ["00", "13", "99", "0a", "0f", "1", "011", " 01", "", "FF"] {
        assert_eq!(MonitorInput::from_code(code), MonitorInput::Unknown);
    }
}

#[test]
fn unknown_and_reserved_are_shown_as_unknown() {
    assert_eq!(MonitorInput::Unknown.display_name(), "Unknown");
    assert_eq!(MonitorInput::Reserved.display_name(), "Unknown");
    assert_eq!(MonitorInput::Unknown.value(), 19);
    assert_eq!(MonitorInput::Reserved.value(), 20);
    assert_eq!(MonitorInput::Unknown.code(), None);
    assert_eq!(MonitorInput::Reserved.code(), None);
}
