use iot_debugger::transport::{
    block_from_reply, widen_bits, ModbusFunction, PollRequest, RegisterBlock, Reply,
    TransportFailure, QUANTITY_MAX, QUANTITY_MIN, UNIT_ID_MAX, UNIT_ID_MIN,
};

fn request(unit_id: u8, quantity: u16) -> PollRequest {
    PollRequest {
        host: "192.168.0.7".to_string(),
        port: 502,
        unit_id,
        function: ModbusFunction::ReadHolding,
        address: 100,
        quantity,
    }
}

#[test]
fn function_codes() {
    assert_eq!(ModbusFunction::ReadCoils.code(), 1);
    assert_eq!(ModbusFunction::ReadDiscrete.code(), 2);
    assert_eq!(ModbusFunction::ReadHolding.code(), 3);
    assert_eq!(ModbusFunction::ReadInput.code(), 4);
}

#[test]
fn functions_from_codes() {
    assert_eq!(ModbusFunction::from_code(0), None);
    assert_eq!(ModbusFunction::from_code(1), Some(ModbusFunction::ReadCoils));
    assert_eq!(ModbusFunction::from_code(2), Some(ModbusFunction::ReadDiscrete));
    assert_eq!(ModbusFunction::from_code(3), Some(ModbusFunction::ReadHolding));
    assert_eq!(ModbusFunction::from_code(4), Some(ModbusFunction::ReadInput));
    assert_eq!(ModbusFunction::from_code(5), None);
    assert_eq!(ModbusFunction::from_code(255), None);
}

#[test]
fn coils_and_discrete_inputs_read_bits() {
    assert!(ModbusFunction::ReadCoils.reads_bits());
    assert!(ModbusFunction::ReadDiscrete.reads_bits());
    assert!(!ModbusFunction::ReadHolding.reads_bits());
    assert!(!ModbusFunction::ReadInput.reads_bits());
}

#[test]
fn endpoint_is_host_colon_port() {
    assert_eq!(request(1, 1).endpoint(), "192.168.0.7:502");
    let mut other = request(1, 1);
    other.host = "[::1]".to_string();
    other.port = 0;
    assert_eq!(other.endpoint(), "[::1]:0");
    other.host = String::new();
    other.port = 65535;
    assert_eq!(other.endpoint(), ":65535");
}

#[test]
fn unit_id_and_quantity_ranges() {
    assert_eq!((UNIT_ID_MIN, UNIT_ID_MAX), (1, 247));
    assert_eq!((QUANTITY_MIN, QUANTITY_MAX), (1, 125));
    assert!(request(1, 1).is_in_range());
    assert!(request(247, 125).is_in_range());
    assert!(!request(0, 10).is_in_range());
    assert!(!request(248, 10).is_in_range());
    assert!(!request(1, 0).is_in_range());
    assert!(!request(1, 126).is_in_range());
}

#[test]
fn bits_are_widened_in_order() {
    assert_eq!(widen_bits(&[]), Vec::<u16>::new());
    assert_eq!(widen_bits(&[true, false, false, true, true]), vec![1, 0, 0, 1, 1]);
}

#[test]
fn a_reply_of_bits_becomes_a_block_of_zeros_and_ones() {
    let reply = Reply::Bits(vec![true, true, false]);
    assert_eq!(
        block_from_reply(ModbusFunction::ReadCoils, 3, reply.clone()),
        Ok(RegisterBlock { words: vec![1, 1, 0] })
    );
    assert_eq!(
        block_from_reply(ModbusFunction::ReadDiscrete, 3, reply),
        Ok(RegisterBlock { words: vec![1, 1, 0] })
    );
}

#[test]
fn a_reply_of_words_is_taken_as_it_is() {
    let reply = Reply::Words(vec![0xFFFF, 0, 7, 0x8000]);
    assert_eq!(
        block_from_reply(ModbusFunction::ReadHolding, 4, reply.clone()),
        Ok(RegisterBlock { words: vec![0xFFFF, 0, 7, 0x8000] })
    );
    assert_eq!(
        block_from_reply(ModbusFunction::ReadInput, 4, reply),
        Ok(RegisterBlock { words: vec![0xFFFF, 0, 7, 0x8000] })
    );
}

#[test]
fn a_reply_of_the_wrong_kind_is_a_failure() {
    assert_eq!(
        block_from_reply(ModbusFunction::ReadHolding, 2, Reply::Bits(vec![true, false])),
        Err(TransportFailure)
    );
    assert_eq!(
        block_from_reply(ModbusFunction::ReadCoils, 2, Reply::Words(vec![1, 0])),
        Err(TransportFailure)
    );
}

#[test]
fn a_short_or_long_reply_is_a_failure() {
    assert_eq!(
        block_from_reply(ModbusFunction::ReadHolding, 3, Reply::Words(vec![1, 2])),
        Err(TransportFailure)
    );
    assert_eq!(
        block_from_reply(ModbusFunction::ReadHolding, 1, Reply::Words(vec![1, 2])),
        Err(TransportFailure)
    );
    assert_eq!(
        block_from_reply(ModbusFunction::ReadCoils, 1, Reply::Bits(vec![])),
        Err(TransportFailure)
    );
    assert_eq!(
        block_from_reply(ModbusFunction::ReadInput, 0, Reply::Words(vec![])),
        Ok(RegisterBlock { words: vec![] })
    );
}
