use eomi_weact::radio::{radio_config, radio_poll, CrcMode, DataRate, RadioPoll};

#[test]
fn config_values() {
    let c = radio_config();
    assert_eq!(c.frequency, 8);
    assert_eq!(c.retransmit_delay, 15);
    assert_eq!(c.retransmit_count, 15);
    assert_eq!(c.data_rate, DataRate::R2Mbps);
    assert_eq!(c.power, 0);
    assert_eq!(c.pipes_rx_enable, [true, false, false, false, false, false]);
    assert_eq!(c.auto_ack, [true, false, false, false, false, false]);
    assert_eq!(c.pipes_rx_lengths, [None; 6]);
    assert_eq!(c.crc, CrcMode::TwoBytes);
    assert_eq!(c.rx_pipe, 0);
    assert_eq!(c.rx_addr, "fnord");
    assert_eq!(c.tx_addr, "fnord");
    assert_eq!(c.packet, "packet");
}

#[test]
fn connection_sets_rf_state() {
    assert_eq!(radio_poll(false, true, false), RadioPoll { rf_state: true, send_packet: false });
    assert_eq!(radio_poll(false, false, false), RadioPoll { rf_state: false, send_packet: false });
}

#[test]
fn rf_state_is_never_cleared() {
    let mut rf = false;
    for connected in [false, true, false, false] {
        rf = radio_poll(rf, connected, false).rf_state;
    }
    assert!(rf);
    assert!(radio_poll(true, false, true).rf_state);
}

#[test]
fn packet_sent_when_queue_has_room() {
    assert!(radio_poll(false, false, true).send_packet);
    assert!(!radio_poll(true, true, false).send_packet);
}
