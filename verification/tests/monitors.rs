use monitor_control::capabilities::MonitorCapabilities;
use monitor_control::errors::{MonitorError, MonitorErrorKind};
use monitor_control::input::MonitorInput;
use monitor_control::mccs::{ParserErrorKind, VCPCommand};
use monitor_control::monitor::{
    decode_capability_bytes, Monitor, VcpWrite, WriteOutcome, INPUT_SELECT,
};

fn reply(text: &str) -> Option<Vec<u8>> {
    Some(text.as_bytes().to_vec())
}

fn padded_reply(text: &str, zeros: usize) -> Option<Vec<u8>> {
    let mut bytes = text.as_bytes().to_vec();
    bytes.extend(std::iter::repeat(0u8).take(zeros));
    Some(bytes)
}

#[test]
fn decode_trims_the_zero_bytes_at_the_end() {
    assert_eq!(decode_capability_bytes(b"(prot(monitor))\0\0\0".to_vec()).unwrap(), "(prot(monitor))");
    assert_eq!(decode_capability_bytes(b"abc".to_vec()).unwrap(), "abc");
    assert_eq!(decode_capability_bytes(b"\0\0".to_vec()).unwrap(), "");
    assert_eq!(decode_capability_bytes(vec![]).unwrap(), "");
}

#[test]
fn decode_keeps_zero_bytes_that_are_not_at_the_end() {
    assert_eq!(decode_capability_bytes(b"\0a\0b\0".to_vec()).unwrap(), "\0a\0b");
}

#[test]
fn decode_reads_utf8() {
    assert_eq!(decode_capability_bytes("modèle(Ü)\0".as_bytes().to_vec()).unwrap(), "modèle(Ü)");
}

#[test]
fn decode_refuses_bytes_that_are_no_text() {
    let err = decode_capability_bytes(vec![b'(', 0xff, b')']).unwrap_err();
    assert_eq!(err.kind, MonitorErrorKind::Decode);
    assert_eq!(err.description, "Unable to build cap string from buffer");
    // A sequence that the zero bytes cut short is no text either.
    assert_eq!(
        decode_capability_bytes(vec![b'a', 0xc3, 0, 0]).unwrap_err().kind,
        MonitorErrorKind::Decode
    );
}

#[test]
fn monitor_from_capability_bytes_holds_capabilities_and_inputs() {
    let monitor = Monitor::from_capability_bytes(
        3,
        7,
        b"(prot(monitor)model(X1)vcp(10 60(11 0F)))\0".to_vec(),
    )
    .unwrap();
    assert_eq!(monitor.id(), 3);
    assert_eq!(monitor.handle(), 7);
    let caps = monitor.capabilities().as_ref().unwrap();
    assert_eq!(caps.display_model, "X1");
    assert_eq!(caps.protocol_class, "monitor");
    assert_eq!(
        monitor.get_inputs(),
        Ok(vec![MonitorInput::HDMI1, MonitorInput::DisplayPort1])
    );
}

#[test]
fn monitor_from_capability_bytes_reports_why_it_failed() {
    let err = Monitor::from_capability_bytes(0, 0, vec![0xff]).unwrap_err();
    assert_eq!(err.kind, MonitorErrorKind::Decode);
    let err = Monitor::from_capability_bytes(0, 0, b"(prot(monitor)".to_vec()).unwrap_err();
    assert_eq!(err.kind, MonitorErrorKind::Parser(ParserErrorKind::UnexpectedEof));
    assert_eq!(err.description, "Parser Error: unexpected eof");
    let err = Monitor::from_capability_bytes(0, 0, b"(prot monitor type)".to_vec()).unwrap_err();
    assert_eq!(err.kind, MonitorErrorKind::Parser(ParserErrorKind::MalformedTopLevel));
    let err = Monitor::from_capability_bytes(0, 0, vec![]).unwrap_err();
    assert_eq!(err.kind, MonitorErrorKind::Parser(ParserErrorKind::UnexpectedEof));
}

#[test]
fn monitor_from_reading_tells_a_missing_reply_apart() {
    let err = Monitor::from_reading(0, 0, None).unwrap_err();
    assert_eq!(err.kind, MonitorErrorKind::DeviceRead);
    assert_eq!(err.description, "Failed to read cap string from monitor");
    let err = Monitor::from_reading(0, 0, Some(vec![0xc0])).unwrap_err();
    assert_eq!(err.kind, MonitorErrorKind::Decode);
    let err = Monitor::from_reading(0, 0, Some(b"((a) b)".to_vec())).unwrap_err();
    assert_eq!(err.kind, MonitorErrorKind::Parser(ParserErrorKind::KeyNotAtom));
    let monitor = Monitor::from_reading(5, 6, Some(b"(vcp(60(03)))".to_vec())).unwrap();
    assert_eq!((monitor.id(), monitor.handle()), (5, 6));
    assert_eq!(monitor.get_inputs(), Ok(vec![MonitorInput::DVI1]));
}

#[test]
fn monitor_new_derives_inputs_from_capabilities() {
    let caps = MonitorCapabilities {
        vcp_codes: vec![VCPCommand {
            command: "60".to_string(),
            values: vec![
                VCPCommand { command: "12".to_string(), values: vec![] },
                VCPCommand { command: "zz".to_string(), values: vec![] },
            ],
        }],
        ..MonitorCapabilities::default()
    };
    let monitor = Monitor::new(1, 1, Some(caps));
    assert_eq!(monitor.get_inputs(), Ok(vec![MonitorInput::HDMI2, MonitorInput::Unknown]));
    let bare = Monitor::new(2, 2, None);
    assert_eq!(bare.get_inputs(), Ok(vec![]));
    assert_eq!(bare.capabilities(), &None);
}

#[test]
fn unreadable_monitor_is_left_out_of_the_list() {
    let readings = vec![reply("(prot(monitor)model(A)vcp(60(11 0F)))"), reply("")];
    let monitors = Monitor::get_all_monitors(readings).unwrap();
    assert_eq!(monitors.len(), 1);
    assert_eq!(monitors[0].id(), 0);
    assert_eq!(monitors[0].capabilities().as_ref().unwrap().display_model, "A");
    assert_eq!(
        monitors[0].get_inputs(),
        Ok(vec![MonitorInput::HDMI1, MonitorInput::DisplayPort1])
    );
}

#[test]
fn failed_reading_is_left_out_of_the_list() {
    let readings = vec![None, reply("(model(B))"), Some(vec![0xff, 0xfe]), reply("(model(D)")];
    let monitors = Monitor::get_all_monitors(readings).unwrap();
    assert_eq!(monitors.len(), 1);
    assert_eq!(monitors[0].id(), 1);
    assert_eq!(monitors[0].handle(), 1);
    assert_eq!(monitors[0].capabilities().as_ref().unwrap().display_model, "B");
}

#[test]
fn monitors_are_listed_in_the_order_of_the_enumeration() {
    let readings = vec![
        padded_reply("(model(A))", 4),
        None,
        reply("(model(C)vcp(60(01)))"),
        reply("(model(D))"),
    ];
    let monitors = Monitor::get_all_monitors(readings).unwrap();
    let seen: Vec<(u8, usize, String)> = monitors
        .iter()
        .map(|m| (m.id(), m.handle(), m.capabilities().as_ref().unwrap().display_model.clone()))
        .collect();
    assert_eq!(
        seen,
        vec![(0, 0, "A".to_string()), (2, 2, "C".to_string()), (3, 3, "D".to_string())]
    );
}

#[test]
fn no_readings_give_no_monitors() {
    assert_eq!(Monitor::get_all_monitors(vec![]), Ok(vec![]));
    assert_eq!(Monitor::get_all_monitors(vec![None, None]), Ok(vec![]));
}

#[test]
fn ids_start_again_after_255() {
    let mut readings = vec![];
    for _ in 0..258 {
        readings.push(reply("(model(M))"));
    }
    let monitors = Monitor::get_all_monitors(readings).unwrap();
    assert_eq!(monitors.len(), 258);
    assert_eq!((monitors[255].id(), monitors[255].handle()), (255, 255));
    assert_eq!((monitors[256].id(), monitors[256].handle()), (0, 256));
    assert_eq!((monitors[257].id(), monitors[257].handle()), (1, 257));
}

#[test]
fn get_inputs_gives_the_same_list_every_time() {
    let monitor =
        Monitor::from_capability_bytes(0, 0, b"(vcp(60(01 03 0F 11 12)))".to_vec()).unwrap();
    let first = monitor.get_inputs();
    let second = monitor.get_inputs();
    assert_eq!(first, second);
    assert_eq!(
        first,
        Ok(vec![
            MonitorInput::AnalogVideo1,
            MonitorInput::DVI1,
            MonitorInput::DisplayPort1,
            MonitorInput::HDMI1,
            MonitorInput::HDMI2,
        ])
    );
}

#[test]
fn set_input_writes_the_input_select_feature() {
    let monitor = Monitor::from_capability_bytes(4, 9, b"(vcp(60(11)))".to_vec()).unwrap();
    assert_eq!(INPUT_SELECT, 0x60);
    assert_eq!(
        monitor.set_input(MonitorInput::HDMI1),
        VcpWrite { handle: 9, code: 0x60, value: 17 }
    );
    assert_eq!(
        monitor.set_input(MonitorInput::DisplayPort2),
        VcpWrite { handle: 9, code: 0x60, value: 16 }
    );
    // An input that the monitor did not list is written all the same.
    assert_eq!(
        monitor.set_input(MonitorInput::AnalogVideo1),
        VcpWrite { handle: 9, code: 0x60, value: 1 }
    );
}

#[test]
fn write_result_tells_the_outcomes_apart() {
    assert_eq!(Monitor::write_result(WriteOutcome::Done), Ok(()));
    let failed = Monitor::write_result(WriteOutcome::Failed).unwrap_err();
    assert_eq!(failed.kind, MonitorErrorKind::DeviceWrite);
    assert_eq!(failed.description, "Failed to set VCP feature");
    let busy = Monitor::write_result(WriteOutcome::Busy).unwrap_err();
    assert_eq!(busy.kind, MonitorErrorKind::HandleContention);
    assert_eq!(busy.description, "already borrowed");
}

#[test]
fn monitor_error_to_string_names_the_monitor() {
    assert_eq!(
        MonitorError::write_failed().to_string(),
        "Monitor Error: Failed to set VCP feature"
    );
    assert_eq!(
        MonitorError::decode().to_string(),
        "Monitor Error: Unable to build cap string from buffer"
    );
    assert_eq!(
        MonitorError::read_failed().to_string(),
        "Monitor Error: Failed to read cap string from monitor"
    );
    let listing = MonitorError::new(MonitorErrorKind::DeviceEnumeration, "no bus".to_string());
    assert_eq!(listing.kind, MonitorErrorKind::DeviceEnumeration);
    assert_eq!(listing.to_string(), "Monitor Error: no bus");
}

#[test]
fn monitor_error_clone_is_equal() {
    let err = MonitorError::new(MonitorErrorKind::DeviceRead, "no reply".to_string());
    assert_eq!(err.clone(), err);
}

#[test]
fn monitor_error_from_parser_keeps_kind_and_text() {
    let err = MonitorCapabilities::from_cap_string(")".to_string()).unwrap_err();
    let wrapped = MonitorError::from_parser(err);
    assert_eq!(wrapped.kind, MonitorErrorKind::Parser(ParserErrorKind::InvalidStructure));
    assert_eq!(wrapped.description, "Parser Error: invalid cap string");
    assert_eq!(wrapped.to_string(), "Monitor Error: Parser Error: invalid cap string");
}
