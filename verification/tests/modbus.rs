use iot_debugger::codec::{Decoded, DisplayFormat};
use iot_debugger::modbus::{ModbusTool, PollCommand};
use iot_debugger::poll::{Delivery, Origin, SessionState};
use iot_debugger::settings::{DataBits, Parity, StopBits};
use iot_debugger::transport::{ModbusFunction, ModbusMode, RegisterBlock};

fn delivery(origin: Origin, words: &[u16]) -> Delivery {
    Delivery { origin, block: RegisterBlock { words: words.to_vec() } }
}

#[test]
fn a_new_modbus_tool_has_its_defaults() {
    let tool = ModbusTool::new(vec!["COM1".to_string()]);
    assert_eq!(tool.mode, ModbusMode::Tcp);
    assert!(!tool.connected);
    assert_eq!(tool.tcp_ip, "127.0.0.1");
    assert_eq!(tool.tcp_port, 502);
    assert_eq!(tool.available_ports, vec!["COM1".to_string()]);
    assert_eq!(tool.selected_port, None);
    assert_eq!(tool.baud_rate, 9600);
    assert_eq!(tool.data_bits, DataBits::Eight);
    assert_eq!(tool.parity, Parity::NoParity);
    assert_eq!(tool.stop_bits, StopBits::One);
    assert_eq!(tool.slave_id, 1);
    assert_eq!(tool.function, ModbusFunction::ReadHolding);
    assert_eq!(tool.address, 0);
    assert_eq!(tool.quantity, 10);
    assert_eq!(tool.view_rows, 10);
    assert_eq!(tool.display_format, DisplayFormat::Signed);
    assert!(tool.data.is_empty());
    assert!(tool.logs.is_empty());
    assert!(!tool.scroll_to_bottom);
    assert!(!tool.auto_poll);
    assert_eq!(tool.session.state(), SessionState::Idle);
    assert_eq!(tool.session.epoch(), 0);
}

#[test]
fn the_request_follows_the_settings() {
    let mut tool = ModbusTool::new(Vec::new());
    tool.tcp_ip = "10.0.0.2".to_string();
    tool.tcp_port = 1502;
    tool.slave_id = 17;
    tool.function = ModbusFunction::ReadCoils;
    tool.address = 100;
    tool.quantity = 8;
    let request = tool.request();
    assert_eq!(request.host, "10.0.0.2");
    assert_eq!(request.port, 1502);
    assert_eq!(request.unit_id, 17);
    assert_eq!(request.function, ModbusFunction::ReadCoils);
    assert_eq!(request.address, 100);
    assert_eq!(request.quantity, 8);
    assert_eq!(request.endpoint(), "10.0.0.2:1502");
}

#[test]
fn a_single_read_is_logged() {
    let mut tool = ModbusTool::new(Vec::new());
    let request = tool.start_read_once();
    assert_eq!(request.endpoint(), "127.0.0.1:502");
    assert_eq!(request.quantity, 10);
    assert_eq!(tool.logs, vec!["TX Read Holding Registers".to_string()]);
    assert!(tool.scroll_to_bottom);
    assert_eq!(tool.session.state(), SessionState::Idle);
}

#[test]
fn auto_poll_starts_and_stops_the_session() {
    let mut tool = ModbusTool::new(Vec::new());
    assert!(matches!(tool.handle_auto_poll(), PollCommand::Nothing));
    tool.auto_poll = true;
    match tool.handle_auto_poll() {
        PollCommand::Start { request, epoch } => {
            assert_eq!(epoch, 1);
            assert_eq!(request.endpoint(), "127.0.0.1:502");
        }
        other => panic!("no start: {:?}", other),
    }
    assert_eq!(tool.session.state(), SessionState::Running);
    assert_eq!(tool.logs, vec!["Auto Poll started (1s)".to_string()]);
    assert!(tool.scroll_to_bottom);
    assert!(matches!(tool.handle_auto_poll(), PollCommand::Nothing));
    assert_eq!(tool.logs.len(), 1);
    tool.auto_poll = false;
    assert!(matches!(tool.handle_auto_poll(), PollCommand::Stop));
    assert_eq!(tool.session.state(), SessionState::Idle);
    assert_eq!(
        tool.logs,
        vec!["Auto Poll started (1s)".to_string(), "Auto Poll stopped".to_string()]
    );
    assert!(matches!(tool.handle_auto_poll(), PollCommand::Nothing));
    tool.auto_poll = true;
    assert!(matches!(tool.handle_auto_poll(), PollCommand::Start { epoch: 2, .. }));
}

#[test]
fn a_block_replaces_the_one_shown() {
    let mut tool = ModbusTool::new(Vec::new());
    tool.receive(delivery(Origin::Once, &[1, 2, 3]));
    assert_eq!(tool.data, vec![1, 2, 3]);
    assert_eq!(tool.logs, vec!["RX 3 registers".to_string()]);
    assert!(tool.scroll_to_bottom);
    tool.receive(delivery(Origin::Once, &[9]));
    assert_eq!(tool.data, vec![9]);
    assert_eq!(tool.logs, vec!["RX 3 registers".to_string(), "RX 1 registers".to_string()]);
    tool.receive(delivery(Origin::Once, &[]));
    assert_eq!(tool.data, Vec::<u16>::new());
    assert_eq!(tool.logs[2], "RX 0 registers");
}

#[test]
fn the_last_block_of_a_batch_wins() {
    let mut tool = ModbusTool::new(Vec::new());
    tool.auto_poll = true;
    tool.handle_auto_poll();
    tool.receive_all(vec![
        delivery(Origin::Session(1), &[1; 10]),
        delivery(Origin::Session(1), &[2; 12]),
        delivery(Origin::Session(1), &[3; 125]),
    ]);
    assert_eq!(tool.data, vec![3; 125]);
    assert_eq!(
        tool.logs[1..],
        [
            "RX 10 registers".to_string(),
            "RX 12 registers".to_string(),
            "RX 125 registers".to_string()
        ]
    );
    tool.receive_all(Vec::new());
    assert_eq!(tool.data, vec![3; 125]);
    assert_eq!(tool.logs.len(), 4);
}

#[test]
fn blocks_of_an_old_session_are_dropped() {
    let mut tool = ModbusTool::new(Vec::new());
    tool.auto_poll = true;
    tool.handle_auto_poll();
    tool.receive(delivery(Origin::Session(1), &[1]));
    tool.auto_poll = false;
    tool.handle_auto_poll();
    tool.auto_poll = true;
    tool.handle_auto_poll();
    let logged = tool.logs.len();
    tool.receive_all(vec![
        delivery(Origin::Session(1), &[7, 7]),
        delivery(Origin::Session(0), &[8, 8]),
    ]);
    assert_eq!(tool.data, vec![1]);
    assert_eq!(tool.logs.len(), logged);
    tool.receive_all(vec![
        delivery(Origin::Session(2), &[5, 5]),
        delivery(Origin::Session(1), &[7, 7]),
    ]);
    assert_eq!(tool.data, vec![5, 5]);
    assert_eq!(tool.logs.len(), logged + 1);
}

#[test]
fn format_value_decodes_like_the_format() {
    assert_eq!(
        ModbusTool::format_value(&[0xFFFF], DisplayFormat::Signed),
        Decoded::Text("-1".to_string())
    );
    assert_eq!(
        ModbusTool::format_value(&[], DisplayFormat::Unsigned),
        Decoded::Text("-".to_string())
    );
    assert_eq!(
        ModbusTool::format_value(&[5], DisplayFormat::Long),
        Decoded::Text("-".to_string())
    );
    assert_eq!(
        ModbusTool::format_value(&[0x3FC0, 0], DisplayFormat::Float),
        Decoded::Single(0x3FC0_0000)
    );
}

#[test]
fn end_to_end_ten_holding_registers() {
    let mut tool = ModbusTool::new(Vec::new());
    tool.function = ModbusFunction::ReadHolding;
    tool.address = 100;
    tool.quantity = 10;
    tool.display_format = DisplayFormat::Signed;
    let request = tool.start_read_once();
    assert_eq!(request.address, 100);
    assert_eq!(request.quantity, 10);
    let words: Vec<u16> = (1..=10).collect();
    tool.receive(delivery(Origin::Once, &words));
    let rows = tool.rows();
    assert_eq!(rows.len(), 10);
    let addresses: Vec<u16> = rows.iter().map(|r| r.addr).collect();
    assert_eq!(addresses, (100..=109).collect::<Vec<u16>>());
    let values: Vec<Decoded> = rows.iter().map(|r| r.display_value.clone()).collect();
    let expected: Vec<Decoded> = (1..=10).map(|n: u16| Decoded::Text(n.to_string())).collect();
    assert_eq!(values, expected);
    tool.display_format = DisplayFormat::Hex;
    let rows = tool.rows();
    assert_eq!(rows[9].addr, 109);
    assert_eq!(rows[9].display_value, Decoded::Text("0x000A".to_string()));
}
