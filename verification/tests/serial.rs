use iot_debugger::framing::Frame;
use iot_debugger::serial::{encode_payload, SendFormat, SerialTool};
use iot_debugger::settings::{DataBits, Parity, SerialSettings, StopBits, READ_TIMEOUT_MS};

fn ports() -> Vec<String> {
    vec!["/dev/ttyUSB0".to_string(), "/dev/ttyS1".to_string()]
}

#[test]
fn a_new_serial_tool_is_disconnected() {
    let tool = SerialTool::new(ports());
    assert_eq!(tool.available_ports, ports());
    assert_eq!(tool.selected_port, None);
    assert_eq!(tool.baud_rate, 9600);
    assert_eq!(tool.data_bits, DataBits::Eight);
    assert_eq!(tool.parity, Parity::NoParity);
    assert_eq!(tool.stop_bits, StopBits::One);
    assert!(tool.logs.is_empty());
    assert_eq!(tool.input_text, "");
    assert_eq!(tool.status, "Disconnected");
    assert!(!tool.connected);
    assert_eq!(tool.send_format, SendFormat::ASCII);
}

#[test]
fn refresh_replaces_the_list_of_ports() {
    let mut tool = SerialTool::new(ports());
    tool.refresh_ports(vec!["COM3".to_string()]);
    assert_eq!(tool.available_ports, vec!["COM3".to_string()]);
    assert_eq!(tool.status, "Disconnected");
}

#[test]
fn connect_without_a_port_asks_for_one() {
    let mut tool = SerialTool::new(ports());
    assert_eq!(tool.connect(), None);
    assert_eq!(tool.status, "Please select a serial port");
    assert!(!tool.connected);
}

#[test]
fn connect_gives_the_settings_to_open() {
    let mut tool = SerialTool::new(ports());
    tool.selected_port = Some("/dev/ttyUSB0".to_string());
    tool.baud_rate = 115200;
    tool.data_bits = DataBits::Seven;
    tool.parity = Parity::Even;
    tool.stop_bits = StopBits::Two;
    let settings = tool.connect();
    assert_eq!(
        settings,
        Some(SerialSettings {
            port_name: "/dev/ttyUSB0".to_string(),
            baud_rate: 115200,
            data_bits: DataBits::Seven,
            parity: Parity::Even,
            stop_bits: StopBits::Two,
            timeout_ms: READ_TIMEOUT_MS,
        })
    );
    assert_eq!(tool.status, "Disconnected");
    tool.finish_connect(&settings.unwrap(), Ok(()));
    assert_eq!(tool.status, "Connected to /dev/ttyUSB0");
    assert!(tool.connected);
}

#[test]
fn a_failed_connect_names_the_reason() {
    let mut tool = SerialTool::new(ports());
    tool.selected_port = Some("/dev/ttyS1".to_string());
    let settings = tool.connect().unwrap();
    tool.finish_connect(&settings, Err("Permission denied".to_string()));
    assert_eq!(tool.status, "Connection failed: Permission denied");
    assert!(!tool.connected);
}

#[test]
fn disconnect_resets_the_status() {
    let mut tool = SerialTool::new(ports());
    tool.selected_port = Some("/dev/ttyS1".to_string());
    let settings = tool.connect().unwrap();
    tool.finish_connect(&settings, Ok(()));
    tool.disconnect();
    assert!(!tool.connected);
    assert_eq!(tool.status, "Disconnected");
    assert_eq!(tool.selected_port, Some("/dev/ttyS1".to_string()));
}

#[test]
fn data_and_stop_bit_counts() {
    assert_eq!(DataBits::Five.bits(), 5);
    assert_eq!(DataBits::Six.bits(), 6);
    assert_eq!(DataBits::Seven.bits(), 7);
    assert_eq!(DataBits::Eight.bits(), 8);
    assert_eq!(StopBits::One.bits(), 1);
    assert_eq!(StopBits::Two.bits(), 2);
    assert_eq!(READ_TIMEOUT_MS, 100);
}

#[test]
fn payload_of_text_is_its_utf8() {
    assert_eq!(encode_payload(SendFormat::ASCII, "AT\r\n"), b"AT\r\n".to_vec());
    assert_eq!(encode_payload(SendFormat::ASCII, ""), Vec::<u8>::new());
    assert_eq!(encode_payload(SendFormat::ASCII, "\u{e9}"), vec![0xC3, 0xA9]);
    assert_eq!(encode_payload(SendFormat::ASCII, "01 02"), b"01 02".to_vec());
}

#[test]
fn payload_of_hex_is_the_bytes_it_stands_for() {
    assert_eq!(encode_payload(SendFormat::Hex, "01 02 fF"), vec![1, 2, 255]);
    assert_eq!(encode_payload(SendFormat::Hex, ""), Vec::<u8>::new());
}

#[test]
fn send_without_a_port_is_logged() {
    let mut tool = SerialTool::new(ports());
    tool.input_text = "hello".to_string();
    assert_eq!(tool.send_data(), None);
    assert_eq!(tool.logs, vec!["Not connected to serial port".to_string()]);
    assert_eq!(tool.input_text, "hello");
}

#[test]
fn send_gives_the_bytes_and_logs_the_text() {
    let mut tool = SerialTool::new(ports());
    tool.connected = true;
    tool.input_text = "hello".to_string();
    assert_eq!(tool.send_data(), Some(b"hello".to_vec()));
    assert!(tool.logs.is_empty());
    tool.finish_send(Ok(()));
    assert_eq!(tool.logs, vec!["TX: hello".to_string()]);
    assert_eq!(tool.input_text, "");
    tool.send_format = SendFormat::Hex;
    tool.input_text = "0A 0d".to_string();
    assert_eq!(tool.send_data(), Some(vec![0x0A, 0x0D]));
    tool.finish_send(Ok(()));
    assert_eq!(tool.logs, vec!["TX: hello".to_string(), "TX: 0A 0d".to_string()]);
}

#[test]
fn a_failed_write_is_logged_and_the_input_emptied() {
    let mut tool = SerialTool::new(ports());
    tool.connected = true;
    tool.input_text = "x".to_string();
    tool.send_data();
    tool.finish_send(Err("broken pipe".to_string()));
    assert_eq!(tool.logs, vec!["Send failed: broken pipe".to_string()]);
    assert_eq!(tool.input_text, "");
}

#[test]
fn received_bytes_are_logged_in_hex() {
    let mut tool = SerialTool::new(ports());
    tool.receive_data(&[0x01, 0xAB]);
    tool.receive_data(&[]);
    tool.receive_data(&[0xFF]);
    assert_eq!(tool.logs, vec!["RX: 01 AB".to_string(), "RX: FF".to_string()]);
}

#[test]
fn frames_add_to_the_log_in_order() {
    let mut tool = SerialTool::new(ports());
    tool.receive_data(&[0x00]);
    let frames = vec![
        Frame { bytes: vec![1, 2, 3] },
        Frame { bytes: vec![] },
        Frame { bytes: vec![0x10] },
    ];
    tool.receive_frames(&frames);
    tool.receive_frames(&Vec::new());
    assert_eq!(
        tool.logs,
        vec!["RX: 00".to_string(), "RX: 01 02 03".to_string(), "RX: 10".to_string()]
    );
}
