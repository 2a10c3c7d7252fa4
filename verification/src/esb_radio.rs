//! The on-chip RADIO as an nRF24L01+ compatible Enhanced ShockBurst (ESB)
//! transmitter.
//!
//! A transmission sends a packet, listens for the auto-ACK, and retransmits if
//! none arrives in time. The ACK frame may carry a payload, which
//! `payload_available` and `receive_payload` surface.
//!
//! The registers are driven from outside: a transmission says which register
//! operation comes next, and is told what was read.

use crate::storage::ADDRESS_LEN;
use crate::text::{splice, write_bytes};
use vstd::prelude::*;

verus! {

/// Longest payload of one packet.
pub const MAX_PAYLOAD_LEN: usize = 32;

/// DMA layout: `[LENGTH, S1, payload...]`.
pub const DMA_HEADER: usize = 2;

/// Size of a DMA buffer.
pub const DMA_BUF_LEN: usize = 34;

/// How long to wait for an ACK frame after a transmission, in microseconds.
pub const ACK_WAIT_US: u32 = 600;

/// Longest gap between two attempts, in microseconds.
pub const MAX_GAP_US: u32 = 1500;

/// nRF24L01+ compatible CRC-16 start value.
pub const CRC_INIT: u32 = 0x0000_FFFF;

/// nRF24L01+ compatible CRC-16 polynomial.
pub const CRC_POLY: u32 = 0x0001_1021;

/// The native RADIO never fails at the register level.
#[derive(Debug, Clone, Copy, PartialEq, Eq)]
pub struct EsbError;

/// One operation on the registers of the RADIO.
#[derive(Debug, Clone, Copy, PartialEq, Eq)]
pub enum RadioOp {
    /// Power the peripheral on or off.
    Power(bool),
    /// Disable the interrupts of this mask.
    DisableInterrupts(u32),
    /// Nordic proprietary mode at 2 Mbit/s.
    Mode2Mbit,
    /// Fast ramp-up, with the centre frequency as default output.
    FastRampUp,
    /// Output power of +8 dBm.
    TxPowerPos8Dbm,
    /// Widths of the length, S0 and S1 fields.
    PacketLayout { length_bits: u8, s0: bool, s1_bits: u8 },
    /// Longest and fixed payload, base address length, bit order, whitening.
    PacketLimits {
        max_len: u8,
        static_len: u8,
        base_len: u8,
        big_endian: bool,
        whitening: bool,
    },
    /// Width of the CRC in bytes, and whether it covers the address.
    CrcLayout { bytes: u8, over_address: bool },
    /// Start value of the CRC.
    CrcInit(u32),
    /// Polynomial of the CRC.
    CrcPolynomial(u32),
    /// Logical address to transmit on.
    TxAddress(u8),
    /// Mask of logical addresses to receive on.
    RxAddresses(u32),
    /// Clear the READY event.
    ClearReady,
    /// Clear the END event.
    ClearEnd,
    /// Clear the DISABLED event.
    ClearDisabled,
    /// Point the DMA at the transmit buffer.
    PointAtTx,
    /// Point the DMA at the receive buffer.
    PointAtRx,
    /// Set the shortcuts READY to START and END to DISABLE.
    Shorts { ready_start: bool, end_disable: bool },
    /// Data synchronisation barrier.
    Barrier,
    /// Start the transmitter.
    EnableTx,
    /// Start the receiver.
    EnableRx,
    /// Start to disable the radio.
    Disable,
    /// Wait for the DISABLED event.
    AwaitDisabled,
}

/// What a transmission asks for.
#[derive(Debug, Clone, Copy, PartialEq, Eq)]
pub enum RadioAction {
    /// Perform a register operation.
    Op(RadioOp),
    /// Read the CPU cycle counter.
    ReadCycles,
    /// Read the END event.
    ReadEnd,
    /// Read the CRC status and the receive buffer.
    ReadFrame,
    /// Over; whether a CRC-valid ACK frame was received.
    Finished(bool),
}

/// What came of what a transmission asked for.
#[derive(Debug, Clone, Copy, PartialEq, Eq)]
pub enum RadioInput {
    /// The operation was performed.
    Done,
    /// The cycle counter.
    Cycles(u32),
    /// Whether the END event is set.
    End(bool),
    /// The CRC status and the receive buffer.
    Frame { crc_ok: bool, rx_buf: [u8; DMA_BUF_LEN] },
}

/// The state of the driver.
#[derive(Debug, Clone, Copy, PartialEq, Eq)]
pub struct EsbRadio {
    pub tx_buf: [u8; DMA_BUF_LEN],
    pub rx_buf: [u8; DMA_BUF_LEN],
    /// 2-bit packet id, incremented for every new (not retransmitted) packet.
    pub pid: u8,
    /// Number of retransmissions after the first try.
    pub retransmit_count: u8,
    /// Retransmission delay in units of 250 us.
    pub retransmit_delay: u8,
    /// Length of the last received ACK payload (0 = none pending).
    pub rx_len: u8,
    /// CPU cycles per microsecond.
    pub cycles_per_us: u32,
    /// How an address maps to the BASE0 and PREFIX0 registers.
    pub addr_encoding: u8,
}

/// The on-air bytes `[LENGTH, S1, payload...]` at the start of a DMA buffer
/// that held `buf`; the payload is cut at `MAX_PAYLOAD_LEN`.
pub open spec fn frame(buf: Seq<u8>, pid: u8, payload: Seq<u8>) -> Seq<u8> {
    let body = payload.take(frame_len(payload));
    splice(buf, 0, seq![body.len() as u8, (2 * pid + 1) as u8] + body)
}

/// How much of a payload fits into one packet.
pub open spec fn frame_len(payload: Seq<u8>) -> int {
    if payload.len() <= MAX_PAYLOAD_LEN {
        payload.len() as int
    } else {
        MAX_PAYLOAD_LEN as int
    }
}

/// The driver with a new packet in its transmit buffer.
pub open spec fn with_packet(before: EsbRadio, after: EsbRadio, payload: Seq<u8>) -> bool {
    &&& after.pid == (before.pid + 1) % 4
    &&& after.tx_buf@ == frame(before.tx_buf@, after.pid, payload)
    &&& after == EsbRadio { tx_buf: after.tx_buf, pid: after.pid, rx_len: 0, ..before }
}

impl EsbRadio {
    /// Number of address-encoding variants that the self-test sweeps.
    pub const ADDR_ENCODINGS: u8 = 4;

    /// The packet id has two bits, and a pending payload lies in the buffer.
    pub open spec fn wf(self) -> bool {
        self.pid < 4 && self.rx_len <= MAX_PAYLOAD_LEN
    }

    /// The driver at power-on. Address encoding 1 is the one that a Unifying
    /// receiver answers.
    pub fn new() -> (radio: Self)
        ensures
            radio.wf(),
            forall|i: int| 0 <= i < 34 ==> radio.tx_buf@[i] == 0 && radio.rx_buf@[i] == 0,
            radio.pid == 0,
            radio.retransmit_count == 15,
            radio.retransmit_delay == 15,
            radio.rx_len == 0,
            radio.cycles_per_us == 64,
            radio.addr_encoding == 1,
    {
        EsbRadio {
            tx_buf: [0u8; DMA_BUF_LEN],
            rx_buf: [0u8; DMA_BUF_LEN],
            pid: 0,
            retransmit_count: 15,
            retransmit_delay: 15,
            rx_len: 0,
            cycles_per_us: 64,
            addr_encoding: 1,
        }
    }

    /// Selects the address-encoding variant used by `set_address`.
    pub fn set_addr_encoding(&mut self, encoding: u8)
        ensures
            *final(self) == (EsbRadio { addr_encoding: encoding, ..*old(self) }),
    {
        self.addr_encoding = encoding;
    }

    /// Puts a new packet into the transmit buffer, under the next packet id.
    fn load_packet(&mut self, payload: &[u8])
        requires
            old(self).wf(),
        ensures
            with_packet(*old(self), *final(self), payload@),
            final(self).wf(),
    {
        let len: usize = if payload.len() <= MAX_PAYLOAD_LEN {
            payload.len()
        } else {
            MAX_PAYLOAD_LEN
        };
        let next_pid: u8 = self.pid + 1;
        assert(next_pid & 0x03 == next_pid % 4) by (bit_vector);
        let pid: u8 = next_pid & 0x03;
        assert(pid < 4 ==> (pid << 1) | 0x01 == 2 * pid + 1) by (bit_vector);
        let mut buf: [u8; DMA_BUF_LEN] = self.tx_buf;
        buf[0] = len as u8;
        buf[1] = (pid << 1) | 0x01;
        let ghost headed = buf@;
        write_bytes(&mut buf, DMA_HEADER, vstd::slice::slice_subrange(payload, 0, len));
        assert(payload@.subrange(0, len as int) =~= payload@.take(len as int));
        assert(buf@ =~= frame(self.tx_buf@, pid, payload@));
        self.tx_buf = buf;
        self.pid = pid;
        self.rx_len = 0;
    }

    /// Starts one transmit attempt of `payload` on the current channel and
    /// address, as the radio self-test does.
    pub fn probe_once(&mut self, payload: &[u8]) -> (tx: Transmission)
        requires
            old(self).wf(),
        ensures
            with_packet(*old(self), *final(self), payload@),
            final(self).wf(),
            tx == (Transmission { attempts: 1, phase: TxPhase::Sending(0) }),
    {
        self.load_packet(payload);
        Transmission { attempts: 1, phase: TxPhase::Sending(0) }
    }

    /// Starts to transmit `payload`: a first attempt plus `retransmit_count`
    /// retries.
    pub fn transmit_payload(&mut self, payload: &[u8]) -> (tx: Transmission)
        requires
            old(self).wf(),
        ensures
            with_packet(*old(self), *final(self), payload@),
            final(self).wf(),
            tx == (Transmission {
                attempts: (old(self).retransmit_count + 1) as u32,
                phase: TxPhase::Sending(0),
            }),
    {
        self.load_packet(payload);
        Transmission { attempts: self.retransmit_count as u32 + 1, phase: TxPhase::Sending(0) }
    }

    /// Takes the pending ACK payload, cut at the length of `payload`.
    pub fn receive_payload(&mut self, payload: &mut [u8]) -> (taken: Result<u8, EsbError>)
        requires
            old(self).wf(),
        ensures
            taken matches Ok(len) && len == (if old(self).rx_len <= old(payload)@.len() {
                old(self).rx_len as int
            } else {
                old(payload)@.len() as int
            }) && final(payload)@ == splice(
                old(payload)@,
                0,
                old(self).rx_buf@.subrange(DMA_HEADER as int, DMA_HEADER + len),
            ),
            taken matches Ok(len) && forall|i: int|
                0 <= i < len ==> #[trigger] final(payload)@[i] == old(self).rx_buf@[2 + i],
            *final(self) == (EsbRadio { rx_len: 0, ..*old(self) }),
            final(self).wf(),
    {
        let len: usize = if self.rx_len as usize <= payload.len() {
            self.rx_len as usize
        } else {
            payload.len()
        };
        let rx: [u8; DMA_BUF_LEN] = self.rx_buf;
        let bytes = vstd::slice::slice_subrange(rx.as_slice(), DMA_HEADER, DMA_HEADER + len);
        write_bytes(payload, 0, bytes);
        self.rx_len = 0;
        Ok(len as u8)
    }

    /// Whether an ACK payload is pending.
    pub fn payload_available(&self) -> (available: Result<bool, EsbError>)
        ensures
            available == Ok::<bool, EsbError>(self.rx_len != 0),
    {
        Ok(self.rx_len != 0)
    }

    /// Length of the pending ACK payload.
    pub fn payload_size(&self) -> (size: Result<u8, EsbError>)
        ensures
            size == Ok::<u8, EsbError>(self.rx_len),
    {
        Ok(self.rx_len)
    }

    /// The values of BASE0 and of AP0 in PREFIX0 for an address.
    pub fn set_address(&self, address: &[u8; ADDRESS_LEN]) -> (registers: Result<(u32, u8), EsbError>)
        ensures
            registers == Ok::<(u32, u8), EsbError>(
                address_registers(address@, self.addr_encoding),
            ),
    {
        Ok(hw_address(address, self.addr_encoding))
    }

    /// The value of FREQUENCY for a channel, which is the offset above 2400 MHz.
    pub fn set_channel(&self, channel: u8) -> (frequency: Result<u8, EsbError>)
        ensures
            frequency == Ok::<u8, EsbError>(
                if channel <= 100 {
                    channel
                } else {
                    100
                },
            ),
    {
        Ok(
            if channel <= 100 {
                channel
            } else {
                100
            },
        )
    }

    /// Sets the retransmission delay (units of 250 us) and count.
    pub fn set_retries(&mut self, delay: u8, count: u8) -> (set: Result<(), EsbError>)
        ensures
            set is Ok,
            *final(self) == (EsbRadio {
                retransmit_delay: delay,
                retransmit_count: count,
                ..*old(self)
            }),
    {
        self.retransmit_delay = delay;
        self.retransmit_count = count;
        Ok(())
    }

    /// The register operations that configure the radio for Unifying, in order.
    /// Any pending ACK payload is dropped.
    pub fn configure_unifying(&mut self) -> (ops: Result<[RadioOp; 11], EsbError>)
        ensures
            ops matches Ok(list) && list@ == configuration(),
            *final(self) == (EsbRadio { rx_len: 0, ..*old(self) }),
    {
        assert(CRC_INIT & 0x00FF_FFFF == 0xFFFF && CRC_POLY & 0x00FF_FFFF == 0x1_1021)
            by (bit_vector);
        let list: [RadioOp; 11] = [
            RadioOp::Power(false),
            RadioOp::Power(true),
            RadioOp::DisableInterrupts(0xFFFF_FFFF),
            RadioOp::Mode2Mbit,
            RadioOp::FastRampUp,
            RadioOp::TxPowerPos8Dbm,
            RadioOp::PacketLayout { length_bits: 6, s0: false, s1_bits: 3 },
            RadioOp::PacketLimits {
                max_len: MAX_PAYLOAD_LEN as u8,
                static_len: 0,
                base_len: 4,
                big_endian: true,
                whitening: false,
            },
            RadioOp::CrcLayout { bytes: 2, over_address: true },
            RadioOp::CrcInit(CRC_INIT & 0x00FF_FFFF),
            RadioOp::CrcPolynomial(CRC_POLY & 0x00FF_FFFF),
        ];
        assert(list@ =~= configuration());
        self.rx_len = 0;
        Ok(list)
    }

    /// The register operations that force the radio into the DISABLED state.
    pub fn disable() -> (ops: [RadioOp; 5])
        ensures
            ops@ == disable_ops(),
    {
        let ops: [RadioOp; 5] = [
            RadioOp::Shorts { ready_start: false, end_disable: false },
            RadioOp::ClearDisabled,
            RadioOp::Disable,
            RadioOp::AwaitDisabled,
            RadioOp::ClearDisabled,
        ];
        assert(ops@ =~= disable_ops());
        ops
    }
}

/// The configuration for Unifying: 2 Mbit/s, a 6-bit length field and a 3-bit
/// S1 field, 4 + 1 address bytes, big-endian, no whitening, CRC-16 over the
/// address as well.
pub open spec fn configuration() -> Seq<RadioOp> {
    seq![
        RadioOp::Power(false),
        RadioOp::Power(true),
        RadioOp::DisableInterrupts(0xFFFF_FFFF),
        RadioOp::Mode2Mbit,
        RadioOp::FastRampUp,
        RadioOp::TxPowerPos8Dbm,
        RadioOp::PacketLayout { length_bits: 6, s0: false, s1_bits: 3 },
        RadioOp::PacketLimits {
            max_len: 32,
            static_len: 0,
            base_len: 4,
            big_endian: true,
            whitening: false,
        },
        RadioOp::CrcLayout { bytes: 2, over_address: true },
        RadioOp::CrcInit(0xFFFF),
        RadioOp::CrcPolynomial(0x1_1021),
    ]
}

/// Send the packet, wait for the radio to disable, and start to listen.
pub open spec fn send_ops() -> Seq<RadioOp> {
    seq![
        RadioOp::TxAddress(0),
        RadioOp::RxAddresses(1),
        RadioOp::ClearReady,
        RadioOp::ClearEnd,
        RadioOp::ClearDisabled,
        RadioOp::PointAtTx,
        RadioOp::Shorts { ready_start: true, end_disable: true },
        RadioOp::Barrier,
        RadioOp::EnableTx,
        RadioOp::AwaitDisabled,
        RadioOp::ClearDisabled,
        RadioOp::ClearEnd,
        RadioOp::Barrier,
        RadioOp::PointAtRx,
        RadioOp::Shorts { ready_start: true, end_disable: true },
        RadioOp::Barrier,
        RadioOp::EnableRx,
    ]
}

/// Force the radio back to the DISABLED state.
pub open spec fn disable_ops() -> Seq<RadioOp> {
    seq![
        RadioOp::Shorts { ready_start: false, end_disable: false },
        RadioOp::ClearDisabled,
        RadioOp::Disable,
        RadioOp::AwaitDisabled,
        RadioOp::ClearDisabled,
    ]
}

/// After an ACK: wait for the radio to disable by itself.
pub open spec fn settle_ops() -> Seq<RadioOp> {
    seq![RadioOp::AwaitDisabled, RadioOp::ClearEnd, RadioOp::ClearDisabled, RadioOp::Barrier]
}

/// Where a transmission stands.
#[derive(Debug, Clone, Copy, PartialEq, Eq)]
pub enum TxPhase {
    /// At this operation of `send_ops`.
    Sending(u8),
    /// About to note when listening began.
    AckStart,
    /// Listening since `since`: is there time left?
    AckClock { since: u32 },
    /// Listening since `since`: has a frame ended?
    AckEvent { since: u32 },
    /// No ACK in time; at this operation of `disable_ops`.
    Disabling(u8),
    /// A frame ended; at this operation of `settle_ops`.
    Settling(u8),
    /// About to look at the frame.
    Receiving,
    /// About to note when the gap before the next attempt began.
    GapStart,
    /// In the gap since `since`.
    GapClock { since: u32 },
    /// Over.
    Finished(bool),
}

/// One packet on its way: the attempts left, this one included, and where the
/// current one stands.
#[derive(Debug, Clone, Copy, PartialEq, Eq)]
pub struct Transmission {
    pub attempts: u32,
    pub phase: TxPhase,
}

/// Cycles from `since` to `now`, on a counter that wraps.
pub open spec fn cycles_between(since: u32, now: u32) -> int {
    (now - since) % 0x1_0000_0000
}

/// The cycles of `us` microseconds, in 32 bits.
pub open spec fn cycles_of(us: int, cycles_per_us: u32) -> int {
    (us * cycles_per_us) % 0x1_0000_0000
}

/// The gap between two attempts: 250 us per unit, capped.
pub open spec fn gap_us(delay: u8) -> int {
    if delay * 250 <= MAX_GAP_US {
        delay * 250
    } else {
        MAX_GAP_US as int
    }
}

/// The length of the ACK payload in a receive buffer; 0 if its LENGTH byte is
/// no length of a payload.
pub open spec fn ack_len(rx_buf: Seq<u8>) -> u8 {
    if rx_buf[0] <= MAX_PAYLOAD_LEN {
        rx_buf[0]
    } else {
        0
    }
}

impl Transmission {
    /// The operation that the transmission is at exists.
    pub open spec fn wf(self) -> bool {
        match self.phase {
            TxPhase::Sending(i) => i < 17,
            TxPhase::Disabling(i) => i < 5,
            TxPhase::Settling(i) => i < 4,
            _ => true,
        }
    }

    /// What comes next.
    pub open spec fn asks(self) -> RadioAction {
        match self.phase {
            TxPhase::Sending(i) => RadioAction::Op(send_ops()[i as int]),
            TxPhase::AckStart => RadioAction::ReadCycles,
            TxPhase::AckClock { .. } => RadioAction::ReadCycles,
            TxPhase::AckEvent { .. } => RadioAction::ReadEnd,
            TxPhase::Disabling(i) => RadioAction::Op(disable_ops()[i as int]),
            TxPhase::Settling(i) => RadioAction::Op(settle_ops()[i as int]),
            TxPhase::Receiving => RadioAction::ReadFrame,
            TxPhase::GapStart => RadioAction::ReadCycles,
            TxPhase::GapClock { .. } => RadioAction::ReadCycles,
            TxPhase::Finished(acked) => RadioAction::Finished(acked),
        }
    }

    /// The transmission after an attempt without a valid ACK.
    pub open spec fn failed(self) -> Transmission {
        if self.attempts > 1 {
            Transmission { attempts: (self.attempts - 1) as u32, phase: TxPhase::GapStart }
        } else {
            Transmission { attempts: self.attempts, phase: TxPhase::Finished(false) }
        }
    }

    /// The transmission once `input` came of what it asked for.
    pub open spec fn next(self, radio: EsbRadio, input: RadioInput) -> Transmission {
        let at = |phase: TxPhase| Transmission { attempts: self.attempts, phase };
        match (self.phase, input) {
            (TxPhase::Sending(i), RadioInput::Done) => if i + 1 < 17 {
                at(TxPhase::Sending((i + 1) as u8))
            } else {
                at(TxPhase::AckStart)
            },
            (TxPhase::AckStart, RadioInput::Cycles(now)) => at(TxPhase::AckClock { since: now }),
            (TxPhase::AckClock { since }, RadioInput::Cycles(now)) => if cycles_between(since, now)
                < cycles_of(ACK_WAIT_US as int, radio.cycles_per_us) {
                at(TxPhase::AckEvent { since })
            } else {
                at(TxPhase::Disabling(0))
            },
            (TxPhase::AckEvent { since }, RadioInput::End(ended)) => if ended {
                at(TxPhase::Settling(0))
            } else {
                at(TxPhase::AckClock { since })
            },
            (TxPhase::Disabling(i), RadioInput::Done) => if i + 1 < 5 {
                at(TxPhase::Disabling((i + 1) as u8))
            } else {
                self.failed()
            },
            (TxPhase::Settling(i), RadioInput::Done) => if i + 1 < 4 {
                at(TxPhase::Settling((i + 1) as u8))
            } else {
                at(TxPhase::Receiving)
            },
            (TxPhase::Receiving, RadioInput::Frame { crc_ok, rx_buf }) => if crc_ok {
                at(TxPhase::Finished(true))
            } else {
                self.failed()
            },
            (TxPhase::GapStart, RadioInput::Cycles(now)) => at(TxPhase::GapClock { since: now }),
            (TxPhase::GapClock { since }, RadioInput::Cycles(now)) => if cycles_between(since, now)
                < cycles_of(gap_us(radio.retransmit_delay), radio.cycles_per_us) {
                self
            } else {
                at(TxPhase::Sending(0))
            },
            _ => self,
        }
    }

    /// The driver once `input` came of what the transmission asked for: only a
    /// frame changes it.
    pub open spec fn driver_next(self, radio: EsbRadio, input: RadioInput) -> EsbRadio {
        match (self.phase, input) {
            (TxPhase::Receiving, RadioInput::Frame { crc_ok, rx_buf }) => EsbRadio {
                rx_buf,
                rx_len: if crc_ok {
                    ack_len(rx_buf@)
                } else {
                    0
                },
                ..radio
            },
            _ => radio,
        }
    }

    /// What comes next.
    pub fn action(&self) -> (action: RadioAction)
        requires
            self.wf(),
        ensures
            action == self.asks(),
    {
        match self.phase {
            TxPhase::Sending(i) => RadioAction::Op(send_op(i)),
            TxPhase::AckStart => RadioAction::ReadCycles,
            TxPhase::AckClock { .. } => RadioAction::ReadCycles,
            TxPhase::AckEvent { .. } => RadioAction::ReadEnd,
            TxPhase::Disabling(i) => {
                let ops: [RadioOp; 5] = EsbRadio::disable();
                RadioAction::Op(ops[i as usize])
            },
            TxPhase::Settling(i) => RadioAction::Op(settle_op(i)),
            TxPhase::Receiving => RadioAction::ReadFrame,
            TxPhase::GapStart => RadioAction::ReadCycles,
            TxPhase::GapClock { .. } => RadioAction::ReadCycles,
            TxPhase::Finished(acked) => RadioAction::Finished(acked),
        }
    }

    /// Ends an attempt without a valid ACK.
    fn fail(&mut self)
        ensures
            *final(self) == old(self).failed(),
    {
        if self.attempts > 1 {
            self.attempts = self.attempts - 1;
            self.phase = TxPhase::GapStart;
        } else {
            self.phase = TxPhase::Finished(false);
        }
    }

    /// Takes what came of what the transmission asked for.
    pub fn step(&mut self, radio: &mut EsbRadio, input: &RadioInput)
        requires
            old(self).wf(),
            old(radio).wf(),
        ensures
            *final(self) == old(self).next(*old(radio), *input),
            *final(radio) == old(self).driver_next(*old(radio), *input),
            final(self).wf(),
            final(radio).wf(),
    {
        match (self.phase, *input) {
            (TxPhase::Sending(i), RadioInput::Done) => {
                self.phase = if i + 1 < 17 {
                    TxPhase::Sending(i + 1)
                } else {
                    TxPhase::AckStart
                };
            },
            (TxPhase::AckStart, RadioInput::Cycles(now)) => {
                self.phase = TxPhase::AckClock { since: now };
            },
            (TxPhase::AckClock { since }, RadioInput::Cycles(now)) => {
                self.phase = if now.wrapping_sub(since) < ACK_WAIT_US.wrapping_mul(
                    radio.cycles_per_us,
                ) {
                    TxPhase::AckEvent { since }
                } else {
                    TxPhase::Disabling(0)
                };
            },
            (TxPhase::AckEvent { since }, RadioInput::End(ended)) => {
                self.phase = if ended {
                    TxPhase::Settling(0)
                } else {
                    TxPhase::AckClock { since }
                };
            },
            (TxPhase::Disabling(i), RadioInput::Done) => {
                if i + 1 < 5 {
                    self.phase = TxPhase::Disabling(i + 1);
                } else {
                    self.fail();
                }
            },
            (TxPhase::Settling(i), RadioInput::Done) => {
                self.phase = if i + 1 < 4 {
                    TxPhase::Settling(i + 1)
                } else {
                    TxPhase::Receiving
                };
            },
            (TxPhase::Receiving, RadioInput::Frame { crc_ok, rx_buf }) => {
                radio.rx_buf = rx_buf;
                if crc_ok {
                    radio.rx_len = if rx_buf[0] as usize <= MAX_PAYLOAD_LEN {
                        rx_buf[0]
                    } else {
                        0
                    };
                    self.phase = TxPhase::Finished(true);
                } else {
                    radio.rx_len = 0;
                    self.fail();
                }
            },
            (TxPhase::GapStart, RadioInput::Cycles(now)) => {
                self.phase = TxPhase::GapClock { since: now };
            },
            (TxPhase::GapClock { since }, RadioInput::Cycles(now)) => {
                let full: u32 = radio.retransmit_delay as u32 * 250;
                let gap: u32 = if full <= MAX_GAP_US {
                    full
                } else {
                    MAX_GAP_US
                };
                if now.wrapping_sub(since) >= gap.wrapping_mul(radio.cycles_per_us) {
                    self.phase = TxPhase::Sending(0);
                }
            },
            _ => {},
        }
    }
}

fn send_op(i: u8) -> (op: RadioOp)
    requires
        i < 17,
    ensures
        op == send_ops()[i as int],
{
    let ops: [RadioOp; 17] = [
        RadioOp::TxAddress(0),
        RadioOp::RxAddresses(1),
        RadioOp::ClearReady,
        RadioOp::ClearEnd,
        RadioOp::ClearDisabled,
        RadioOp::PointAtTx,
        RadioOp::Shorts { ready_start: true, end_disable: true },
        RadioOp::Barrier,
        RadioOp::EnableTx,
        RadioOp::AwaitDisabled,
        RadioOp::ClearDisabled,
        RadioOp::ClearEnd,
        RadioOp::Barrier,
        RadioOp::PointAtRx,
        RadioOp::Shorts { ready_start: true, end_disable: true },
        RadioOp::Barrier,
        RadioOp::EnableRx,
    ];
    assert(ops@ =~= send_ops());
    ops[i as usize]
}

fn settle_op(i: u8) -> (op: RadioOp)
    requires
        i < 4,
    ensures
        op == settle_ops()[i as int],
{
    let ops: [RadioOp; 4] = [
        RadioOp::AwaitDisabled,
        RadioOp::ClearEnd,
        RadioOp::ClearDisabled,
        RadioOp::Barrier,
    ];
    assert(ops@ =~= settle_ops());
    ops[i as usize]
}

// Addresses.

/// The bits of a byte in reverse order.
#[verifier::opaque]
pub open spec fn reversed(b: u8) -> u8 {
    ((b & 0x01) << 7) | ((b & 0x02) << 5) | ((b & 0x04) << 3) | ((b & 0x08) << 1) | ((b & 0x10)
        >> 1) | ((b & 0x20) >> 3) | ((b & 0x40) >> 5) | ((b & 0x80) >> 7)
}

/// Four bytes as a 32-bit register, the first one most significant, each with
/// its bits reversed.
pub open spec fn base_register(a: u8, b: u8, c: u8, d: u8) -> u32 {
    (0x100_0000 * reversed(a) + 0x1_0000 * reversed(b) + 0x100 * reversed(c) + reversed(
        d,
    )) as u32
}

/// The (BASE0, AP0) pair that puts an address on air, for each variant of the
/// byte order between the two.
pub open spec fn address_registers(a: Seq<u8>, encoding: u8) -> (u32, u8) {
    if encoding == 0 {
        (base_register(a[4], a[3], a[2], a[1]), reversed(a[0]))
    } else if encoding == 1 {
        (base_register(a[3], a[2], a[1], a[0]), reversed(a[4]))
    } else if encoding == 2 {
        (base_register(a[0], a[1], a[2], a[3]), reversed(a[4]))
    } else {
        (base_register(a[1], a[2], a[3], a[4]), reversed(a[0]))
    }
}

fn reverse_bits(b: u8) -> (r: u8)
    ensures
        r == reversed(b),
{
    reveal(reversed);
    ((b & 0x01) << 7) | ((b & 0x02) << 5) | ((b & 0x04) << 3) | ((b & 0x08) << 1) | ((b & 0x10)
        >> 1) | ((b & 0x20) >> 3) | ((b & 0x40) >> 5) | ((b & 0x80) >> 7)
}

fn pack_base(a: u8, b: u8, c: u8, d: u8) -> (base: u32)
    ensures
        base == base_register(a, b, c, d),
{
    0x100_0000 * reverse_bits(a) as u32 + 0x1_0000 * reverse_bits(b) as u32 + 0x100 * reverse_bits(
        c,
    ) as u32 + reverse_bits(d) as u32
}

/// Maps a 5-byte nRF24L01+ on-air address to the (BASE0, PREFIX0.AP0) pair.
///
/// The nRF24L01+ orders the bits of an address in hardware; each byte is
/// bit-reversed to put the same bits on air. `encoding` selects among the
/// permutations of the bytes.
pub fn hw_address(address: &[u8; ADDRESS_LEN], encoding: u8) -> (registers: (u32, u8))
    ensures
        registers == address_registers(address@, encoding),
{
    let rev: [u8; 5] = [address[4], address[3], address[2], address[1], address[0]];
    if encoding == 0 {
        (pack_base(rev[0], rev[1], rev[2], rev[3]), reverse_bits(rev[4]))
    } else if encoding == 1 {
        (pack_base(rev[1], rev[2], rev[3], rev[4]), reverse_bits(rev[0]))
    } else if encoding == 2 {
        (pack_base(address[0], address[1], address[2], address[3]), reverse_bits(address[4]))
    } else {
        (pack_base(address[1], address[2], address[3], address[4]), reverse_bits(address[0]))
    }
}

/// Reversing the bits of a byte moves bit `i` to bit `7 - i`, and doing it
/// twice changes nothing.
pub proof fn reversed_bits(b: u8, i: u8)
    requires
        i < 8,
    ensures
        (reversed(b) >> i) & 1 == (b >> ((7 - i) as u8)) & 1,
        reversed(reversed(b)) == b,
{
    reveal(reversed);
    let j = (7 - i) as u8;
    let r = reversed(b);
    assert((r >> i) & 1 == (b >> j) & 1) by (bit_vector)
        requires
            i < 8,
            j == 7 - i,
            r == ((b & 0x01) << 7) | ((b & 0x02) << 5) | ((b & 0x04) << 3) | ((b & 0x08) << 1) | ((b
                & 0x10) >> 1) | ((b & 0x20) >> 3) | ((b & 0x40) >> 5) | ((b & 0x80) >> 7),
    ;
    assert(((r & 0x01) << 7) | ((r & 0x02) << 5) | ((r & 0x04) << 3) | ((r & 0x08) << 1) | ((r
        & 0x10) >> 1) | ((r & 0x20) >> 3) | ((r & 0x40) >> 5) | ((r & 0x80) >> 7) == b)
        by (bit_vector)
        requires
            r == ((b & 0x01) << 7) | ((b & 0x02) << 5) | ((b & 0x04) << 3) | ((b & 0x08) << 1) | ((b
                & 0x10) >> 1) | ((b & 0x20) >> 3) | ((b & 0x40) >> 5) | ((b & 0x80) >> 7),
    ;
}

proof fn base_register_distinct(
    a0: u8,
    a1: u8,
    a2: u8,
    a3: u8,
    b0: u8,
    b1: u8,
    b2: u8,
    b3: u8,
)
    requires
        base_register(a0, a1, a2, a3) == base_register(b0, b1, b2, b3),
    ensures
        a0 == b0 && a1 == b1 && a2 == b2 && a3 == b3,
{
    assert(reversed(a0) == reversed(b0) && reversed(a1) == reversed(b1) && reversed(a2) == reversed(
        b2,
    ) && reversed(a3) == reversed(b3));
    reversed_distinct(a0, b0);
    reversed_distinct(a1, b1);
    reversed_distinct(a2, b2);
    reversed_distinct(a3, b3);
}

proof fn reversed_distinct(a: u8, b: u8)
    requires
        reversed(a) == reversed(b),
    ensures
        a == b,
{
    reversed_bits(a, 0);
    reversed_bits(b, 0);
}

/// Under every encoding, different addresses have different registers.
pub proof fn addresses_distinct(a: Seq<u8>, b: Seq<u8>, encoding: u8)
    requires
        a.len() == ADDRESS_LEN,
        b.len() == ADDRESS_LEN,
        address_registers(a, encoding) == address_registers(b, encoding),
    ensures
        a == b,
{
    if encoding == 0 {
        base_register_distinct(a[4], a[3], a[2], a[1], b[4], b[3], b[2], b[1]);
        reversed_distinct(a[0], b[0]);
    } else if encoding == 1 {
        base_register_distinct(a[3], a[2], a[1], a[0], b[3], b[2], b[1], b[0]);
        reversed_distinct(a[4], b[4]);
    } else if encoding == 2 {
        base_register_distinct(a[0], a[1], a[2], a[3], b[0], b[1], b[2], b[3]);
        reversed_distinct(a[4], b[4]);
    } else {
        base_register_distinct(a[1], a[2], a[3], a[4], b[1], b[2], b[3], b[4]);
        reversed_distinct(a[0], b[0]);
    }
    assert(a =~= b);
}

// What a whole transmission does.

/// The transmission and the driver after `inputs`.
pub open spec fn tx_after(tx: Transmission, radio: EsbRadio, inputs: Seq<RadioInput>) -> (
    Transmission,
    EsbRadio,
)
    decreases inputs.len(),
{
    if inputs.len() == 0 {
        (tx, radio)
    } else {
        tx_after(tx.next(radio, inputs[0]), tx.driver_next(radio, inputs[0]), inputs.skip(1))
    }
}

/// How often the transmitter was started during `inputs`.
pub open spec fn tx_sent(tx: Transmission, radio: EsbRadio, inputs: Seq<RadioInput>) -> nat
    decreases inputs.len(),
{
    if inputs.len() == 0 {
        0
    } else {
        (if tx.asks() == RadioAction::Op(RadioOp::EnableTx) && inputs[0] == RadioInput::Done {
            1nat
        } else {
            0nat
        }) + tx_sent(tx.next(radio, inputs[0]), tx.driver_next(radio, inputs[0]), inputs.skip(1))
    }
}

/// The starts of the transmitter that are still allowed.
spec fn sends_left(tx: Transmission) -> int {
    match tx.phase {
        TxPhase::Sending(i) => if i <= 8 {
            tx.attempts as int
        } else {
            tx.attempts - 1
        },
        TxPhase::GapStart => tx.attempts as int,
        TxPhase::GapClock { .. } => tx.attempts as int,
        _ => tx.attempts - 1,
    }
}

proof fn tx_counts(tx: Transmission, radio: EsbRadio, inputs: Seq<RadioInput>)
    requires
        tx.wf(),
        tx.attempts >= 1,
        tx.phase == TxPhase::Finished(false) ==> tx.attempts == 1,
    ensures
        tx_sent(tx, radio, inputs) + sends_left(tx_after(tx, radio, inputs).0) == sends_left(tx),
        tx_after(tx, radio, inputs).0.attempts >= 1,
        tx_after(tx, radio, inputs).0.phase == TxPhase::Finished(false) ==> tx_after(
            tx,
            radio,
            inputs,
        ).0.attempts == 1,
        tx_after(tx, radio, inputs).1 == (EsbRadio {
            rx_buf: tx_after(tx, radio, inputs).1.rx_buf,
            rx_len: tx_after(tx, radio, inputs).1.rx_len,
            ..radio
        }),
    decreases inputs.len(),
{
    if inputs.len() > 0 {
        let next = tx.next(radio, inputs[0]);
        tx_counts(next, tx.driver_next(radio, inputs[0]), inputs.skip(1));
    }
}

/// A packet is sent at most as often as there are attempts, every time as it
/// stands in the transmit buffer and under the same packet id; it is given up
/// only after all attempts.
pub proof fn transmission_attempts(attempts: u32, radio: EsbRadio, inputs: Seq<RadioInput>)
    requires
        attempts >= 1,
    ensures
        ({
            let start = Transmission { attempts, phase: TxPhase::Sending(0) };
            let (tx, after) = tx_after(start, radio, inputs);
            &&& tx_sent(start, radio, inputs) <= attempts
            &&& tx.phase == TxPhase::Finished(false) ==> tx_sent(start, radio, inputs) == attempts
            &&& after.tx_buf == radio.tx_buf && after.pid == radio.pid
        }),
{
    tx_counts(Transmission { attempts, phase: TxPhase::Sending(0) }, radio, inputs);
}

/// A frame with a valid CRC ends the transmission at once, acknowledged. If its
/// LENGTH byte says so, its payload of 1 to 32 bytes is then pending, as it was
/// received; any other LENGTH byte leaves none pending. A frame with a bad CRC is
/// a failed attempt, and leaves none pending.
pub proof fn ack_payload_pending(
    tx: Transmission,
    radio: EsbRadio,
    crc_ok: bool,
    rx_buf: [u8; DMA_BUF_LEN],
)
    requires
        tx.phase is Receiving,
    ensures
        ({
            let frame = RadioInput::Frame { crc_ok, rx_buf };
            let after = tx.driver_next(radio, frame);
            let n = rx_buf@[0];
            &&& after.rx_len == if crc_ok && 1 <= n <= 32 {
                n as int
            } else {
                0
            }
            &&& after.rx_buf == rx_buf
            &&& after.tx_buf == radio.tx_buf
            &&& after.pid == radio.pid
            &&& after.retransmit_count == radio.retransmit_count
            &&& after.retransmit_delay == radio.retransmit_delay
            &&& after.cycles_per_us == radio.cycles_per_us
            &&& after.addr_encoding == radio.addr_encoding
            &&& tx.asks() is ReadFrame
            &&& crc_ok ==> tx.next(radio, frame).asks() == RadioAction::Finished(true)
            &&& !crc_ok && tx.attempts <= 1 ==> tx.next(radio, frame).asks()
                == RadioAction::Finished(false)
            &&& !crc_ok && tx.attempts > 1 ==> tx.next(radio, frame) == (Transmission {
                attempts: (tx.attempts - 1) as u32,
                phase: TxPhase::GapStart,
            })
        }),
{
}

/// The bytes on the air: the length, cut at 32, the packet id with the request
/// for an ACK, and the payload as far as it fits. The rest of the buffer stays.
pub proof fn frame_layout(buf: Seq<u8>, pid: u8, payload: Seq<u8>)
    requires
        buf.len() == 34,
        pid < 4,
    ensures
        ({
            let f = frame(buf, pid, payload);
            let n = if payload.len() <= 32 {
                payload.len() as int
            } else {
                32
            };
            &&& f.len() == 34
            &&& f[0] == n
            &&& f[1] == 2 * pid + 1
            &&& forall|i: int| 0 <= i < n ==> f[2 + i] == #[trigger] payload[i]
            &&& forall|i: int| 2 + n <= i < 34 ==> #[trigger] f[i] == buf[i]
        }),
{
}

/// A new packet takes the next of the four packet ids and drops a pending
/// payload; nothing else of the driver changes but the transmit buffer.
pub proof fn packet_ids_advance(before: EsbRadio, after: EsbRadio, payload: Seq<u8>)
    requires
        with_packet(before, after, payload),
    ensures
        after.pid == if before.pid == 3 {
            0int
        } else {
            (before.pid + 1) % 4
        },
        after.tx_buf@ == frame(before.tx_buf@, after.pid, payload),
        after.rx_len == 0,
        after.rx_buf == before.rx_buf,
        after.retransmit_count == before.retransmit_count,
        after.retransmit_delay == before.retransmit_delay,
        after.cycles_per_us == before.cycles_per_us,
        after.addr_encoding == before.addr_encoding,
{
}

proof fn counter_wraps(since: u32, elapsed: u32, now: u32)
    requires
        now as int == (since + elapsed) % 0x1_0000_0000,
    ensures
        cycles_between(since, now) == elapsed,
{
}

/// The wait for an ACK: listening goes on for exactly 600 microseconds of the
/// cycle counter, also where the counter wraps. A frame that ends in that time
/// is taken, once the radio has come to rest; if none does, the radio is
/// disabled and the attempt has failed.
pub proof fn ack_is_awaited(tx: Transmission, radio: EsbRadio, elapsed: u32, now: u32)
    requires
        600 * radio.cycles_per_us < 0x1_0000_0000,
    ensures
        tx.phase is AckStart ==> tx.asks() is ReadCycles && tx.next(
            radio,
            RadioInput::Cycles(now),
        ).phase == (TxPhase::AckClock { since: now }),
        tx.phase matches TxPhase::AckClock { since } ==> tx.asks() is ReadCycles && (now as int == (
        since + elapsed) % 0x1_0000_0000 ==> tx.next(radio, RadioInput::Cycles(now)).phase
            == if elapsed < 600 * radio.cycles_per_us {
            TxPhase::AckEvent { since }
        } else {
            TxPhase::Disabling(0)
        }),
        tx.phase matches TxPhase::AckEvent { since } ==> {
            &&& tx.asks() is ReadEnd
            &&& tx.next(radio, RadioInput::End(false)).phase == (TxPhase::AckClock { since })
            &&& tx.next(radio, RadioInput::End(true)).phase == TxPhase::Settling(0)
        },
        tx.phase matches TxPhase::Settling(i) ==> tx.next(radio, RadioInput::Done).phase == if i
            < 3 {
            TxPhase::Settling((i + 1) as u8)
        } else {
            TxPhase::Receiving
        },
        tx.phase matches TxPhase::Disabling(i) ==> if i < 4 {
            tx.next(radio, RadioInput::Done).phase == TxPhase::Disabling((i + 1) as u8)
        } else if tx.attempts > 1 {
            tx.next(radio, RadioInput::Done) == (Transmission {
                attempts: (tx.attempts - 1) as u32,
                phase: TxPhase::GapStart,
            })
        } else {
            tx.next(radio, RadioInput::Done).phase == TxPhase::Finished(false)
        },
{
    if let TxPhase::AckClock { since } = tx.phase {
        if now as int == (since + elapsed) % 0x1_0000_0000 {
            counter_wraps(since, elapsed, now);
        }
    }
}

/// The gap before the next attempt: 250 microseconds for each unit of the
/// retransmission delay, but no more than 1500, on the cycle counter, also where
/// it wraps. Then the packet is sent again.
pub proof fn gap_is_kept(tx: Transmission, radio: EsbRadio, elapsed: u32, now: u32)
    requires
        1500 * radio.cycles_per_us < 0x1_0000_0000,
    ensures
        tx.phase is GapStart ==> tx.asks() is ReadCycles && tx.next(
            radio,
            RadioInput::Cycles(now),
        ).phase == (TxPhase::GapClock { since: now }),
        ({
            let gap = if radio.retransmit_delay <= 6 {
                250 * radio.retransmit_delay
            } else {
                1500
            };
            tx.phase matches TxPhase::GapClock { since } ==> tx.asks() is ReadCycles && (now as int
                == (since + elapsed) % 0x1_0000_0000 ==> tx.next(radio, RadioInput::Cycles(now))
                == if elapsed < gap * radio.cycles_per_us {
                tx
            } else {
                Transmission { attempts: tx.attempts, phase: TxPhase::Sending(0) }
            })
        }),
{
    let gap = if radio.retransmit_delay <= 6 {
        250 * radio.retransmit_delay
    } else {
        1500
    };
    let c = radio.cycles_per_us as int;
    assert(gap_us(radio.retransmit_delay) == gap);
    assert(0 <= gap * c <= 1500 * c) by (nonlinear_arith)
        requires
            0 <= gap <= 1500,
            c >= 0,
    ;
    if let TxPhase::GapClock { since } = tx.phase {
        if now as int == (since + elapsed) % 0x1_0000_0000 {
            counter_wraps(since, elapsed, now);
        }
    }
}

/// The operations of an attempt, in order: logical address 0 for both ways, the
/// events cleared, the packet sent from the transmit buffer until the radio has
/// disabled itself, and then the receiver started on the receive buffer.
pub proof fn attempt_operations(tx: Transmission, radio: EsbRadio, i: u8)
    requires
        tx.phase == TxPhase::Sending(i),
        i < 17,
    ensures
        tx.asks() == RadioAction::Op(
            if i == 0 {
                RadioOp::TxAddress(0)
            } else if i == 1 {
                RadioOp::RxAddresses(1)
            } else if i == 2 {
                RadioOp::ClearReady
            } else if i == 3 || i == 11 {
                RadioOp::ClearEnd
            } else if i == 4 || i == 10 {
                RadioOp::ClearDisabled
            } else if i == 5 {
                RadioOp::PointAtTx
            } else if i == 6 || i == 14 {
                RadioOp::Shorts { ready_start: true, end_disable: true }
            } else if i == 7 || i == 12 || i == 15 {
                RadioOp::Barrier
            } else if i == 8 {
                RadioOp::EnableTx
            } else if i == 9 {
                RadioOp::AwaitDisabled
            } else if i == 13 {
                RadioOp::PointAtRx
            } else {
                RadioOp::EnableRx
            },
        ),
        tx.next(radio, RadioInput::Done) == (Transmission {
            attempts: tx.attempts,
            phase: if i < 16 {
                TxPhase::Sending((i + 1) as u8)
            } else {
                TxPhase::AckStart
            },
        }),
        disable_ops().len() == 5 && settle_ops().len() == 4,
        disable_ops()[0] == (RadioOp::Shorts { ready_start: false, end_disable: false }),
        disable_ops()[1] == RadioOp::ClearDisabled && disable_ops()[2] == RadioOp::Disable,
        disable_ops()[3] == RadioOp::AwaitDisabled && disable_ops()[4] == RadioOp::ClearDisabled,
        settle_ops()[0] == RadioOp::AwaitDisabled && settle_ops()[1] == RadioOp::ClearEnd,
        settle_ops()[2] == RadioOp::ClearDisabled && settle_ops()[3] == RadioOp::Barrier,
{
}

/// The radio is configured as an nRF24L01+ compatible transmitter at 2 Mbit/s:
/// power-cycled, without interrupts, with a 6-bit length field, payloads of up to
/// 32 bytes, 5-byte addresses, and a 16-bit CRC that covers the address.
pub proof fn configuration_contents()
    ensures
        configuration().len() == 11,
        configuration()[0] == RadioOp::Power(false) && configuration()[1] == RadioOp::Power(true),
        configuration()[2] == RadioOp::DisableInterrupts(0xFFFF_FFFF),
        configuration()[3] == RadioOp::Mode2Mbit && configuration()[4] == RadioOp::FastRampUp,
        configuration()[5] == RadioOp::TxPowerPos8Dbm,
        configuration()[6] == (RadioOp::PacketLayout { length_bits: 6, s0: false, s1_bits: 3 }),
        configuration()[7] == (RadioOp::PacketLimits {
            max_len: 32,
            static_len: 0,
            base_len: 4,
            big_endian: true,
            whitening: false,
        }),
        configuration()[8] == (RadioOp::CrcLayout { bytes: 2, over_address: true }),
        configuration()[9] == RadioOp::CrcInit(0xFFFF),
        configuration()[10] == RadioOp::CrcPolynomial(0x1_1021),
{
}

/// Which bytes of the address stand in the registers, each with its bits
/// reversed, from the most significant byte of BASE0 to the prefix: with the
/// encodings 0 and 1 the address backwards, with the others as it is, and with
/// the odd ones the first of these bytes is the prefix.
pub proof fn address_bytes_in_registers(a: Seq<u8>, encoding: u8)
    requires
        a.len() == 5,
    ensures
        ({
            let (base, prefix) = address_registers(a, encoding);
            let order = if encoding == 0 {
                seq![a[4], a[3], a[2], a[1], a[0]]
            } else if encoding == 1 {
                seq![a[3], a[2], a[1], a[0], a[4]]
            } else if encoding == 2 {
                seq![a[0], a[1], a[2], a[3], a[4]]
            } else {
                seq![a[1], a[2], a[3], a[4], a[0]]
            };
            &&& base as int == 0x100_0000 * reversed(order[0]) + 0x1_0000 * reversed(order[1]) + 0x100
                * reversed(order[2]) + reversed(order[3])
            &&& prefix == reversed(order[4])
        }),
{
}

/// Success is a frame whose CRC is valid; its payload, and no other, is pending
/// afterwards.
pub proof fn acknowledged_by_valid_frame(tx: Transmission, radio: EsbRadio, input: RadioInput)
    requires
        tx.phase != TxPhase::Finished(true),
        tx.next(radio, input).phase == TxPhase::Finished(true),
    ensures
        tx.phase == TxPhase::Receiving,
        input matches RadioInput::Frame { crc_ok, rx_buf } && crc_ok && tx.driver_next(
            radio,
            input,
        ).rx_buf == rx_buf && tx.driver_next(radio, input).rx_len == ack_len(rx_buf@),
{
}

} // verus!
