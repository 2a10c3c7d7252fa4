use nrf_unifying::esb_radio::{
    hw_address, EsbRadio, RadioAction, RadioInput, RadioOp, Transmission, TxPhase, DMA_BUF_LEN,
};

/// Drives a transmission. `answers` says of each attempt in turn whether no frame
/// comes, one with a bad CRC, or a valid one with the given receive buffer.
#[derive(Clone, Copy)]
enum Answer {
    Silence,
    BadCrc,
    Ack([u8; DMA_BUF_LEN]),
}

struct Air {
    answers: Vec<Answer>,
    cycles: u32,
    sent: usize,
    disabled: usize,
    gaps: Vec<u32>,
}

impl Air {
    fn new(answers: Vec<Answer>) -> Air {
        Air { answers, cycles: 0xffff_0000, sent: 0, disabled: 0, gaps: Vec::new() }
    }

    fn run(&mut self, radio: &mut EsbRadio, mut tx: Transmission) -> bool {
        let mut gap_from: Option<u32> = None;
        loop {
            if let TxPhase::GapClock { since } = tx.phase {
                gap_from = Some(since);
            }
            let input = match tx.action() {
                RadioAction::Op(op) => {
                    if op == RadioOp::EnableTx {
                        if let Some(since) = gap_from {
                            self.gaps.push(self.cycles.wrapping_sub(since));
                            gap_from = None;
                        }
                        self.sent += 1;
                    }
                    if op == RadioOp::Disable {
                        self.disabled += 1;
                    }
                    RadioInput::Done
                }
                RadioAction::ReadCycles => {
                    self.cycles = self.cycles.wrapping_add(640);
                    RadioInput::Cycles(self.cycles)
                }
                RadioAction::ReadEnd => match self.answers[self.sent - 1] {
                    Answer::Silence => RadioInput::End(false),
                    _ => RadioInput::End(true),
                },
                RadioAction::ReadFrame => match self.answers[self.sent - 1] {
                    Answer::Ack(rx_buf) => RadioInput::Frame { crc_ok: true, rx_buf },
                    _ => RadioInput::Frame { crc_ok: false, rx_buf: [0xee; DMA_BUF_LEN] },
                },
                RadioAction::Finished(acked) => return acked,
            };
            tx.step(radio, &input);
        }
    }
}

fn ack(len: u8) -> [u8; DMA_BUF_LEN] {
    let mut buf = [0u8; DMA_BUF_LEN];
    buf[0] = len;
    for i in 2..DMA_BUF_LEN {
        buf[i] = i as u8;
    }
    buf
}

#[test]
fn addresses_in_registers() {
    let address = [0xBB, 0x0A, 0xDC, 0xA5, 0x75];
    let r = |b: u8| b.reverse_bits();
    assert_eq!(
        hw_address(&address, 0),
        (u32::from_be_bytes([r(0x75), r(0xA5), r(0xDC), r(0x0A)]), r(0xBB))
    );
    assert_eq!(
        hw_address(&address, 1),
        (u32::from_be_bytes([r(0xA5), r(0xDC), r(0x0A), r(0xBB)]), r(0x75))
    );
    assert_eq!(
        hw_address(&address, 2),
        (u32::from_be_bytes([r(0xBB), r(0x0A), r(0xDC), r(0xA5)]), r(0x75))
    );
    assert_eq!(
        hw_address(&address, 3),
        (u32::from_be_bytes([r(0x0A), r(0xDC), r(0xA5), r(0x75)]), r(0xBB))
    );
    assert_eq!(hw_address(&address, 9), hw_address(&address, 3));
    assert_eq!(hw_address(&address, 1), (0xA53B_50DD, 0xAE));
    let mut radio = EsbRadio::new();
    assert_eq!(radio.set_address(&address), Ok((0xA53B_50DD, 0xAE)));
    radio.set_addr_encoding(0);
    assert_eq!(radio.set_address(&address), Ok(hw_address(&address, 0)));
    assert_eq!(EsbRadio::ADDR_ENCODINGS, 4);
}

#[test]
fn registers_of_the_driver() {
    let mut radio = EsbRadio::new();
    assert_eq!(radio.set_channel(5), Ok(5));
    assert_eq!(radio.set_channel(100), Ok(100));
    assert_eq!(radio.set_channel(101), Ok(100));
    let ops = radio.configure_unifying().unwrap();
    assert_eq!(ops[0], RadioOp::Power(false));
    assert_eq!(ops[1], RadioOp::Power(true));
    assert_eq!(ops[9], RadioOp::CrcInit(0xffff));
    assert_eq!(ops[10], RadioOp::CrcPolynomial(0x1_1021));
    assert_eq!(
        EsbRadio::disable(),
        [
            RadioOp::Shorts { ready_start: false, end_disable: false },
            RadioOp::ClearDisabled,
            RadioOp::Disable,
            RadioOp::AwaitDisabled,
            RadioOp::ClearDisabled,
        ]
    );
}

#[test]
fn packet_is_framed() {
    let mut radio = EsbRadio::new();
    let tx = radio.transmit_payload(&[0x00, 0x4F, 0x00, 0x00, 0xB1]);
    assert_eq!(tx.attempts, 16);
    assert_eq!(&radio.tx_buf[..7], &[5, 0x03, 0x00, 0x4F, 0x00, 0x00, 0xB1]);
    let tx = radio.probe_once(&[0xaa; 40]);
    assert_eq!(tx.attempts, 1);
    assert_eq!(radio.tx_buf[0], 32);
    assert_eq!(radio.tx_buf[1], 0x05);
    assert_eq!(&radio.tx_buf[2..], &[0xaa; 32]);
    radio.probe_once(&[]);
    radio.probe_once(&[]);
    assert_eq!(radio.tx_buf[1], 0x01);
}

#[test]
fn acknowledged_at_once() {
    let mut radio = EsbRadio::new();
    let tx = radio.transmit_payload(&[1, 2, 3]);
    let mut air = Air::new(vec![Answer::Ack(ack(3))]);
    assert!(air.run(&mut radio, tx));
    assert_eq!(air.sent, 1);
    assert_eq!(air.disabled, 0);
    assert_eq!(radio.payload_available(), Ok(true));
    assert_eq!(radio.payload_size(), Ok(3));
    let mut payload = [0u8; 5];
    assert_eq!(radio.receive_payload(&mut payload), Ok(3));
    assert_eq!(payload, [2, 3, 4, 0, 0]);
    assert_eq!(radio.payload_available(), Ok(false));
    assert_eq!(radio.receive_payload(&mut payload), Ok(0));
}

#[test]
fn ack_payload_is_cut_at_the_buffer() {
    let mut radio = EsbRadio::new();
    let tx = radio.transmit_payload(&[1]);
    assert!(Air::new(vec![Answer::Ack(ack(10))]).run(&mut radio, tx));
    let mut payload = [0u8; 4];
    assert_eq!(radio.receive_payload(&mut payload), Ok(4));
    assert_eq!(payload, [2, 3, 4, 5]);
}

#[test]
fn ack_without_usable_payload() {
    for len in [0u8, 33, 255] {
        let mut radio = EsbRadio::new();
        let tx = radio.transmit_payload(&[1]);
        assert!(Air::new(vec![Answer::Ack(ack(len))]).run(&mut radio, tx));
        assert_eq!(radio.payload_size(), Ok(0));
    }
}

#[test]
fn retries_until_acknowledged() {
    let mut radio = EsbRadio::new();
    assert!(radio.set_retries(2, 5).is_ok());
    let tx = radio.transmit_payload(&[1]);
    let mut air = Air::new(vec![Answer::Silence, Answer::BadCrc, Answer::Ack(ack(0))]);
    assert!(air.run(&mut radio, tx));
    assert_eq!(air.sent, 3);
    assert_eq!(air.disabled, 1);
    assert_eq!(air.gaps, vec![32_000, 32_000]);
}

#[test]
fn gives_up_after_all_retries() {
    let mut radio = EsbRadio::new();
    let tx = radio.transmit_payload(&[1]);
    let mut air = Air::new(vec![Answer::Silence; 16]);
    assert!(!air.run(&mut radio, tx));
    assert_eq!(air.sent, 16);
    assert_eq!(air.disabled, 16);
    assert_eq!(air.gaps, vec![96_000; 15]);
    assert_eq!(radio.payload_available(), Ok(false));

    let tx = radio.probe_once(&[1]);
    let mut air = Air::new(vec![Answer::BadCrc]);
    assert!(!air.run(&mut radio, tx));
    assert_eq!(air.sent, 1);
}
