//! The nRF24L01 radio: its configuration and what each poll of it decides.
use vstd::prelude::*;

verus! {

/// Air data rate of the radio.
#[derive(PartialEq, Eq, Structural, Clone, Copy, Debug)]
pub enum DataRate {
    R250Kbps,
    R1Mbps,
    R2Mbps,
}

/// Checksum that the radio appends to each packet.
#[derive(PartialEq, Eq, Structural, Clone, Copy, Debug)]
pub enum CrcMode {
    Disabled,
    OneByte,
    TwoBytes,
}

/// The settings written to the radio before it starts sending.
#[derive(Debug)]
pub struct RadioConfig {
    /// RF channel, 2400 MHz plus this many MHz.
    pub frequency: u8,
    /// Auto-retransmit delay, in steps of 250 µs.
    pub retransmit_delay: u8,
    /// Number of automatic retransmissions.
    pub retransmit_count: u8,
    pub data_rate: DataRate,
    /// Output power level (0 is the lowest).
    pub power: u8,
    /// Which of the six receive pipes are enabled.
    pub pipes_rx_enable: [bool; 6],
    /// Which of the six pipes acknowledge automatically.
    pub auto_ack: [bool; 6],
    /// Fixed payload length of each pipe; `None` for dynamic length.
    pub pipes_rx_lengths: [Option<u8>; 6],
    pub crc: CrcMode,
    /// The receive pipe whose address is set.
    pub rx_pipe: usize,
    /// Address of that receive pipe.
    pub rx_addr: &'static str,
    /// Address packets are sent to.
    pub tx_addr: &'static str,
    /// The payload sent whenever the transmit queue has room.
    pub packet: &'static str,
}

/// The radio configuration: channel 8, 15 retransmissions 15 steps apart,
/// 2 Mbps at the lowest power, only pipe 0 enabled and acknowledging, dynamic
/// payload lengths, two-byte checksums, and "fnord" as the address both ways.
pub fn radio_config() -> (c: RadioConfig)
    ensures
        c.frequency == 8,
        c.retransmit_delay == 15,
        c.retransmit_count == 15,
        c.data_rate == DataRate::R2Mbps,
        c.power == 0,
        c.pipes_rx_enable@ == seq![true, false, false, false, false, false],
        c.auto_ack@ == seq![true, false, false, false, false, false],
        c.pipes_rx_lengths@ == Seq::new(6, |i: int| None::<u8>),
        c.crc == CrcMode::TwoBytes,
        c.rx_pipe == 0,
        c.rx_addr@ == "fnord"@,
        c.tx_addr@ == "fnord"@,
        c.packet@ == "packet"@,
{
    let c = RadioConfig {
        frequency: 8,
        retransmit_delay: 15,
        retransmit_count: 15,
        data_rate: DataRate::R2Mbps,
        power: 0,
        pipes_rx_enable: [true, false, false, false, false, false],
        auto_ack: [true, false, false, false, false, false],
        pipes_rx_lengths: [None, None, None, None, None, None],
        crc: CrcMode::TwoBytes,
        rx_pipe: 0,
        rx_addr: "fnord",
        tx_addr: "fnord",
        packet: "packet",
    };
    assert(c.pipes_rx_lengths@ =~= Seq::new(6, |i: int| None::<u8>));
    c
}

/// What one poll of the radio decides.
#[derive(Debug, PartialEq, Eq)]
pub struct RadioPoll {
    /// The radio state the status screen shows from now on.
    pub rf_state: bool,
    /// Whether to hand the packet to the radio.
    pub send_packet: bool,
}

/// One poll of the radio: the radio state becomes set once the radio answers as
/// connected, and stays set; the packet is sent whenever the transmit queue has room.
pub fn radio_poll(rf_state: bool, connected: bool, can_send: bool) -> (p: RadioPoll)
    ensures
        p.rf_state == (rf_state || connected),
        p.send_packet == can_send,
{
    let mut next = rf_state;
    if connected {
        next = true;
    }
    RadioPoll { rf_state: next, send_packet: can_send }
}

/// The radio state after polls that found the radio connected or not, in order.
pub open spec fn rf_state_after(rf_state: bool, readings: Seq<bool>) -> bool
    decreases readings.len(),
{
    if readings.len() == 0 {
        rf_state
    } else {
        rf_state_after(rf_state, readings.drop_last()) || readings.last()
    }
}

/// Over any run of polls, the radio state is set exactly when it was set before
/// or some poll found the radio connected: it is never cleared.
pub proof fn lemma_rf_state_latches(rf_state: bool, readings: Seq<bool>)
    ensures
        rf_state_after(rf_state, readings) == (rf_state || readings.contains(true)),
    decreases readings.len(),
{
    if readings.len() > 0 {
        let init = readings.drop_last();
        lemma_rf_state_latches(rf_state, init);
        if init.contains(true) {
            let k = choose|k: int| 0 <= k < init.len() && init[k] == true;
            assert(readings[k] == true);
        }
        if readings.contains(true) && !readings.last() {
            let k = choose|k: int| 0 <= k < readings.len() && readings[k] == true;
            assert(init[k] == true);
        }
        if readings.last() {
            assert(readings[readings.len() - 1] == true);
        }
    }
}

} // verus!
