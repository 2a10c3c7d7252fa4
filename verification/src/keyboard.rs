//! The keyboard commands, step by step.
//!
//! `Keyboard` decides; its owner acts. After `begin` with a command line, the
//! owner performs the action that `action` names and reports how it went to
//! `step`, until the action is `Finished`.

use crate::buffer::ByteBuf;
use crate::commands::{parse_unifying_command, UnifyingCommand, TYPE_TEXT_AT};
use crate::esb_radio::EsbRadio;
use crate::keystroke::{type_char, Stroke, StrokeAction, StrokePhase};
use crate::replies::Reply;
use crate::state::{Device, KeyReport, PairingParams, UnifyingState};
use crate::storage::{Profile, ADDRESS_LEN};
use vstd::prelude::*;

verus! {

use crate::commands::unifying_command;
use crate::keystroke::typing_stroke;
use crate::state::profile_of;

/// Longest command line.
pub const LINE_LEN: usize = 256;

/// Most pairing channels.
pub const MAX_CHANNELS: usize = 32;

/// Sweeps over the pairing channels in a radio test.
pub const TEST_SWEEPS: u8 = 3;

/// Rest after a sweep, which leaves the USB device some time, in milliseconds.
pub const TEST_REST_MS: u64 = 2;

/// Attempts at pairing. Each of them scans all channels.
pub const PAIR_ATTEMPTS: u8 = 8;

/// Attempts at connecting.
pub const CONNECT_ATTEMPTS: u8 = 60;

/// Rest after a failed attempt, in milliseconds.
pub const ATTEMPT_REST_MS: u64 = 20;

/// Keep-alive ticks that stabilize the link before keys are sent.
pub const WARM_TICKS: u8 = 5;

/// Rest after each typed character, in milliseconds.
pub const TYPE_REST_MS: u64 = 1;

/// Held-key frames after which the AES counter is saved.
pub const HELD_FRAMES: u8 = 128;

/// What the keyboard wants done next.
#[derive(Clone, Copy, Debug, PartialEq, Eq)]
pub enum KeyboardAction {
    /// Configure the radio of the device.
    ConfigureRadio,
    /// Switch the radio to an address encoding and point it at an address.
    SelectEncoding { encoding: u8, address: [u8; ADDRESS_LEN] },
    /// Switch the radio to a channel and transmit the payload once.
    Probe { channel: u8, payload: [u8; 5] },
    /// Read the monotonic timer.
    ReadTicks,
    /// Try to pair.
    Pair(PairingParams),
    /// Try to connect to the paired receiver.
    Connect,
    /// Let the device send a keep-alive if one is due.
    Tick,
    /// Send an encrypted keyboard report.
    SendReport(KeyReport),
    /// Let that many milliseconds pass.
    Sleep { ms: u64 },
    /// Persist the profile.
    Save(Profile),
    /// Forget the persisted profile.
    Clear,
    /// Send a reply to the host.
    Reply(Reply),
    /// Nothing: the command is done with.
    Finished,
}

/// How an action went.
#[derive(Clone, Copy, Debug, PartialEq, Eq)]
pub enum KeyboardInput {
    /// It is done.
    Done,
    /// The device did its part or failed, and is now as given.
    Device { ok: bool, device: Device },
    /// The probe was acknowledged, or not.
    Acknowledged(bool),
    /// The timer reads that many ticks.
    Ticks(u64),
}

/// Where a command stands.
#[derive(Clone, Copy, Debug, PartialEq, Eq)]
pub enum Phase {
    /// No command is running.
    Idle,
    /// One reply is left.
    Say(Reply),
    TestConfigure,
    TestSelect { encoding: u8 },
    TestProbe { encoding: u8, sweep: u8, at: usize, acks: u32 },
    TestRest { encoding: u8, sweep: u8, acks: u32 },
    TestReport { encoding: u8, acks: u32 },
    PairId,
    PairCrypto { id_ticks: u64 },
    PairConfigure { params: PairingParams },
    PairTry { params: PairingParams, failures: u8 },
    PairRest { params: PairingParams, failures: u8 },
    PairSave,
    ConnectConfigure,
    ConnectTry { failures: u8 },
    ConnectRest { failures: u8 },
    KeepAlive,
    Erase,
    KeyWarm { ticks: u8, report: KeyReport, release: bool },
    KeyStroke { stroke: Stroke },
    KeySave { pressed: bool },
    TypeWarm { ticks: u8 },
    TypeStroke { at: usize, ok: u32, total: u32, stroke: Stroke },
    TypeRest { at: usize, ok: u32, total: u32 },
    TypeReport { ok: u32, total: u32 },
    TypeSave,
}

/// The address of a receiver in pairing mode.
pub open spec fn pairing_address() -> [u8; ADDRESS_LEN] {
    [0xBB, 0x0A, 0xDC, 0xA5, 0x75]
}

/// A minimal keep-alive request: a receiver in pairing mode acknowledges any
/// well-formed frame to the pairing address.
pub open spec fn probe_payload() -> [u8; 5] {
    [0x00, 0x4F, 0x00, 0x00, 0xB1]
}

/// The reply to a key command.
pub open spec fn sent_reply(pressed: bool) -> Reply {
    if pressed {
        Reply::Done
    } else {
        Reply::ErrSend
    }
}

/// The phase in which the character at `at` is typed, or the result reported if
/// there is none.
pub open spec fn typing(line: Seq<u8>, at: int, ok: u32, total: u32) -> Phase {
    if at >= line.len() {
        Phase::TypeReport { ok, total }
    } else {
        match typing_stroke(line[at]) {
            Some(stroke) => Phase::TypeStroke {
                at: at as usize,
                ok,
                total: (total + 1) as u32,
                stroke,
            },
            None => Phase::TypeRest { at: at as usize, ok, total },
        }
    }
}

/// What a phase that is stepped by a stroke wants done next.
pub open spec fn stroke_asks(stroke: Stroke) -> KeyboardAction {
    match stroke.asks() {
        StrokeAction::Send(report) => KeyboardAction::SendReport(report),
        StrokeAction::Tick => KeyboardAction::Tick,
        StrokeAction::Over => KeyboardAction::Finished,
    }
}

/// The connection to a receiver and the command that is running.
#[derive(Clone, Copy, Debug)]
pub struct Keyboard {
    pub state: UnifyingState,
    /// The channels on which receivers in pairing mode listen.
    pub channels: ByteBuf<MAX_CHANNELS>,
    pub phase: Phase,
}

impl Keyboard {
    /// What every step keeps, where the running command is a line of `len` bytes.
    pub open spec fn wf(self, len: nat) -> bool {
        &&& self.channels@.len() <= MAX_CHANNELS
        &&& self.state.held_frames < HELD_FRAMES
        &&& match self.phase {
            Phase::TestSelect { encoding } => encoding < EsbRadio::ADDR_ENCODINGS,
            Phase::TestProbe { encoding, sweep, at, acks } => {
                &&& encoding < EsbRadio::ADDR_ENCODINGS
                &&& sweep < TEST_SWEEPS
                &&& at < self.channels@.len()
                &&& acks <= MAX_CHANNELS * sweep + at
            },
            Phase::TestRest { encoding, sweep, acks } => {
                &&& encoding < EsbRadio::ADDR_ENCODINGS
                &&& sweep < TEST_SWEEPS
                &&& acks <= MAX_CHANNELS * (sweep + 1)
            },
            Phase::TestReport { encoding, acks } => encoding < EsbRadio::ADDR_ENCODINGS,
            Phase::PairTry { failures, .. } => failures < PAIR_ATTEMPTS,
            Phase::PairRest { failures, .. } => 1 <= failures <= PAIR_ATTEMPTS,
            Phase::ConnectTry { failures } => failures < CONNECT_ATTEMPTS,
            Phase::ConnectRest { failures } => 1 <= failures <= CONNECT_ATTEMPTS,
            Phase::KeyWarm { ticks, .. } => ticks < WARM_TICKS,
            Phase::KeyStroke { stroke } => stroke.wf() && stroke.phase !is Over,
            Phase::TypeWarm { ticks } => ticks < WARM_TICKS && len <= LINE_LEN,
            Phase::TypeStroke { at, ok, total, stroke } => {
                &&& len <= LINE_LEN
                &&& at < len
                &&& ok < total <= at + 1
                &&& stroke.wf()
                &&& stroke.phase !is Over
            },
            Phase::TypeRest { at, ok, total } => {
                &&& len <= LINE_LEN
                &&& at < len
                &&& ok <= total <= at + 1
            },
            _ => true,
        }
    }

    /// The first phase of a command.
    pub open spec fn opening(self, command: UnifyingCommand) -> Phase {
        match command {
            UnifyingCommand::Empty => Phase::Idle,
            UnifyingCommand::RadioTest => Phase::TestConfigure,
            UnifyingCommand::Pair => Phase::PairId,
            UnifyingCommand::Connect => if self.state.paired {
                Phase::ConnectConfigure
            } else {
                Phase::Say(Reply::ErrNotPaired)
            },
            UnifyingCommand::KeepAlive => if self.state.connected {
                Phase::KeepAlive
            } else {
                Phase::Say(Reply::ErrNotConn)
            },
            UnifyingCommand::Status => Phase::Say(
                Reply::Status {
                    paired: self.state.paired,
                    connected: self.state.connected,
                    channel: self.state.device.channel,
                    counter: self.state.device.aes_counter,
                },
            ),
            UnifyingCommand::Version => Phase::Say(Reply::Version),
            UnifyingCommand::Delete => Phase::Erase,
            UnifyingCommand::Key(args) => self.key_opening(args, true),
            UnifyingCommand::KeyDown(args) => self.key_opening(args, false),
            UnifyingCommand::Type => if self.state.connected {
                Phase::TypeWarm { ticks: 0 }
            } else {
                Phase::Say(Reply::ErrNotConn)
            },
            UnifyingCommand::Unknown => Phase::Say(Reply::Commands),
        }
    }

    /// The first phase of a key command.
    pub open spec fn key_opening(self, args: Option<KeyReport>, release: bool) -> Phase {
        if !self.state.connected {
            Phase::Say(Reply::ErrNotConn)
        } else {
            match args {
                Some(report) => Phase::KeyWarm { ticks: 0, report, release },
                None => Phase::Say(Reply::ErrArg),
            }
        }
    }

    /// The keyboard with the command of a line begun.
    pub open spec fn begun(self, line: Seq<u8>) -> Keyboard {
        Keyboard { phase: self.opening(unifying_command(line)), ..self }
    }

    /// The first phase of a sweep over the pairing channels.
    pub open spec fn sweep_phase(self, encoding: u8, sweep: u8, acks: u32) -> Phase {
        if self.channels@.len() == 0 {
            Phase::TestRest { encoding, sweep, acks }
        } else {
            Phase::TestProbe { encoding, sweep, at: 0, acks }
        }
    }

    /// What the keyboard wants done next.
    pub open spec fn asks(self) -> KeyboardAction {
        match self.phase {
            Phase::Idle => KeyboardAction::Finished,
            Phase::Say(reply) => KeyboardAction::Reply(reply),
            Phase::TestConfigure => KeyboardAction::ConfigureRadio,
            Phase::TestSelect { encoding } => KeyboardAction::SelectEncoding {
                encoding,
                address: pairing_address(),
            },
            Phase::TestProbe { at, .. } => KeyboardAction::Probe {
                channel: self.channels@[at as int],
                payload: probe_payload(),
            },
            Phase::TestRest { .. } => KeyboardAction::Sleep { ms: TEST_REST_MS },
            Phase::TestReport { encoding, acks } => KeyboardAction::Reply(
                Reply::RadioTest { encoding, acks },
            ),
            Phase::PairId => KeyboardAction::ReadTicks,
            Phase::PairCrypto { .. } => KeyboardAction::ReadTicks,
            Phase::PairConfigure { .. } => KeyboardAction::ConfigureRadio,
            Phase::PairTry { params, .. } => KeyboardAction::Pair(params),
            Phase::PairRest { .. } => KeyboardAction::Sleep { ms: ATTEMPT_REST_MS },
            Phase::PairSave => KeyboardAction::Save(profile_of(self.state.device)),
            Phase::ConnectConfigure => KeyboardAction::ConfigureRadio,
            Phase::ConnectTry { .. } => KeyboardAction::Connect,
            Phase::ConnectRest { .. } => KeyboardAction::Sleep { ms: ATTEMPT_REST_MS },
            Phase::KeepAlive => KeyboardAction::Tick,
            Phase::Erase => KeyboardAction::Clear,
            Phase::KeyWarm { .. } => KeyboardAction::Tick,
            Phase::KeyStroke { stroke } => stroke_asks(stroke),
            Phase::KeySave { .. } => KeyboardAction::Save(profile_of(self.state.device)),
            Phase::TypeWarm { .. } => KeyboardAction::Tick,
            Phase::TypeStroke { stroke, .. } => stroke_asks(stroke),
            Phase::TypeRest { .. } => KeyboardAction::Sleep { ms: TYPE_REST_MS },
            Phase::TypeReport { ok, total } => KeyboardAction::Reply(Reply::Typed { ok, total }),
            Phase::TypeSave => KeyboardAction::Save(profile_of(self.state.device)),
        }
    }

    /// The state with the device as given.
    pub open spec fn with_device(self, device: Device) -> UnifyingState {
        UnifyingState { device, ..self.state }
    }

    /// The keyboard after a key command has sent what it had to: the counter is
    /// saved after each press and release, and after every so many held-key
    /// frames, if there is a pairing to save.
    pub open spec fn key_sent(self, stroke: Stroke) -> Keyboard {
        let frames = self.state.held_frames + 1;
        let held_frames = if stroke.release {
            self.state.held_frames
        } else if frames >= HELD_FRAMES {
            0
        } else {
            frames as u8
        };
        Keyboard {
            state: UnifyingState { held_frames, ..self.state },
            phase: if self.state.paired && (stroke.release || frames >= HELD_FRAMES) {
                Phase::KeySave { pressed: stroke.pressed }
            } else {
                Phase::Say(sent_reply(stroke.pressed))
            },
            ..self
        }
    }

    /// The keyboard once its action has gone as `input` says, for the command
    /// line `line`. An input that is no answer to the action changes nothing.
    pub open spec fn next(self, line: Seq<u8>, input: KeyboardInput) -> Keyboard {
        match (self.phase, input) {
            (Phase::Say(_), KeyboardInput::Done) => Keyboard { phase: Phase::Idle, ..self },
            (Phase::TestConfigure, KeyboardInput::Device { ok, device }) => Keyboard {
                state: self.with_device(device),
                phase: if ok {
                    Phase::TestSelect { encoding: 0 }
                } else {
                    Phase::Say(Reply::ErrRadio)
                },
                ..self
            },
            (Phase::TestSelect { encoding }, KeyboardInput::Done) => Keyboard {
                phase: self.sweep_phase(encoding, 0, 0),
                ..self
            },
            (
                Phase::TestProbe { encoding, sweep, at, acks },
                KeyboardInput::Acknowledged(acknowledged),
            ) => {
                let count = if acknowledged {
                    (acks + 1) as u32
                } else {
                    acks
                };
                Keyboard {
                    phase: if at + 1 < self.channels@.len() {
                        Phase::TestProbe { encoding, sweep, at: (at + 1) as usize, acks: count }
                    } else {
                        Phase::TestRest { encoding, sweep, acks: count }
                    },
                    ..self
                }
            },
            (Phase::TestRest { encoding, sweep, acks }, KeyboardInput::Done) => Keyboard {
                phase: if sweep + 1 < TEST_SWEEPS {
                    self.sweep_phase(encoding, (sweep + 1) as u8, acks)
                } else {
                    Phase::TestReport { encoding, acks }
                },
                ..self
            },
            (Phase::TestReport { encoding, .. }, KeyboardInput::Done) => Keyboard {
                phase: if encoding + 1 < EsbRadio::ADDR_ENCODINGS {
                    Phase::TestSelect { encoding: (encoding + 1) as u8 }
                } else {
                    Phase::Say(Reply::RadioTestDone)
                },
                ..self
            },
            (Phase::PairId, KeyboardInput::Ticks(id_ticks)) => Keyboard {
                phase: Phase::PairCrypto { id_ticks },
                ..self
            },
            (Phase::PairCrypto { id_ticks }, KeyboardInput::Ticks(ticks)) => Keyboard {
                phase: Phase::PairConfigure { params: PairingParams::at(id_ticks, ticks) },
                ..self
            },
            (Phase::PairConfigure { params }, KeyboardInput::Device { ok, device }) => Keyboard {
                state: self.with_device(device),
                phase: if ok {
                    Phase::PairTry { params, failures: 0 }
                } else {
                    Phase::Say(Reply::ErrRadio)
                },
                ..self
            },
            (Phase::PairTry { params, failures }, KeyboardInput::Device { ok, device }) => if ok {
                Keyboard {
                    state: UnifyingState { device, paired: true, connected: true, ..self.state },
                    phase: Phase::PairSave,
                    ..self
                }
            } else {
                Keyboard {
                    state: self.with_device(device),
                    phase: Phase::PairRest { params, failures: (failures + 1) as u8 },
                    ..self
                }
            },
            (Phase::PairRest { params, failures }, KeyboardInput::Done) => Keyboard {
                phase: if failures < PAIR_ATTEMPTS {
                    Phase::PairTry { params, failures }
                } else {
                    Phase::Say(Reply::ErrPair)
                },
                ..self
            },
            (Phase::PairSave, KeyboardInput::Done) => Keyboard {
                phase: Phase::Say(
                    Reply::Paired {
                        address: self.state.device.address,
                        channel: self.state.device.channel,
                    },
                ),
                ..self
            },
            (Phase::ConnectConfigure, KeyboardInput::Device { ok, device }) => Keyboard {
                state: self.with_device(device),
                phase: if ok {
                    Phase::ConnectTry { failures: 0 }
                } else {
                    Phase::Say(Reply::ErrRadio)
                },
                ..self
            },
            (Phase::ConnectTry { failures }, KeyboardInput::Device { ok, device }) => if ok {
                Keyboard {
                    state: UnifyingState { device, connected: true, ..self.state },
                    phase: Phase::Say(Reply::Connected { channel: device.channel }),
                    ..self
                }
            } else {
                Keyboard {
                    state: self.with_device(device),
                    phase: Phase::ConnectRest { failures: (failures + 1) as u8 },
                    ..self
                }
            },
            (Phase::ConnectRest { failures }, KeyboardInput::Done) => Keyboard {
                phase: if failures < CONNECT_ATTEMPTS {
                    Phase::ConnectTry { failures }
                } else {
                    Phase::Say(Reply::ErrConnect)
                },
                ..self
            },
            (Phase::KeepAlive, KeyboardInput::Device { device, .. }) => Keyboard {
                state: self.with_device(device),
                phase: Phase::Say(Reply::Tick),
                ..self
            },
            (Phase::Erase, KeyboardInput::Done) => Keyboard {
                state: UnifyingState { paired: false, connected: false, ..self.state },
                phase: Phase::Say(Reply::Deleted),
                ..self
            },
            (
                Phase::KeyWarm { ticks, report, release },
                KeyboardInput::Device { device, .. },
            ) => Keyboard {
                state: self.with_device(device),
                phase: if ticks + 1 < WARM_TICKS {
                    Phase::KeyWarm { ticks: (ticks + 1) as u8, report, release }
                } else {
                    Phase::KeyStroke { stroke: Stroke::starting(report, release) }
                },
                ..self
            },
            (Phase::KeyStroke { stroke }, KeyboardInput::Device { ok, device }) => {
                let further = stroke.next(ok);
                let moved = Keyboard { state: self.with_device(device), ..self };
                if further.phase is Over {
                    moved.key_sent(further)
                } else {
                    Keyboard { phase: Phase::KeyStroke { stroke: further }, ..moved }
                }
            },
            (Phase::KeySave { pressed }, KeyboardInput::Done) => Keyboard {
                phase: Phase::Say(sent_reply(pressed)),
                ..self
            },
            (Phase::TypeWarm { ticks }, KeyboardInput::Device { device, .. }) => Keyboard {
                state: self.with_device(device),
                phase: if ticks + 1 < WARM_TICKS {
                    Phase::TypeWarm { ticks: (ticks + 1) as u8 }
                } else {
                    typing(line, TYPE_TEXT_AT as int, 0, 0)
                },
                ..self
            },
            (
                Phase::TypeStroke { at, ok: typed, total, stroke },
                KeyboardInput::Device { ok, device },
            ) => {
                let further = stroke.next(ok);
                Keyboard {
                    state: self.with_device(device),
                    phase: if further.phase is Over {
                        Phase::TypeRest {
                            at,
                            ok: if further.pressed {
                                (typed + 1) as u32
                            } else {
                                typed
                            },
                            total,
                        }
                    } else {
                        Phase::TypeStroke { at, ok: typed, total, stroke: further }
                    },
                    ..self
                }
            },
            (Phase::TypeRest { at, ok, total }, KeyboardInput::Done) => Keyboard {
                phase: typing(line, at + 1, ok, total),
                ..self
            },
            (Phase::TypeReport { .. }, KeyboardInput::Done) => Keyboard {
                phase: if self.state.paired {
                    Phase::TypeSave
                } else {
                    Phase::Idle
                },
                ..self
            },
            (Phase::TypeSave, KeyboardInput::Done) => Keyboard { phase: Phase::Idle, ..self },
            _ => self,
        }
    }
}

fn stroke_action(stroke: &Stroke) -> (action: KeyboardAction)
    ensures
        action == stroke_asks(*stroke),
{
    match stroke.action() {
        StrokeAction::Send(report) => KeyboardAction::SendReport(report),
        StrokeAction::Tick => KeyboardAction::Tick,
        StrokeAction::Over => KeyboardAction::Finished,
    }
}

fn key_reply(pressed: bool) -> (reply: Reply)
    ensures
        reply == sent_reply(pressed),
{
    if pressed {
        Reply::Done
    } else {
        Reply::ErrSend
    }
}

fn typing_phase(line: &[u8], at: usize, ok: u32, total: u32) -> (phase: Phase)
    requires
        line@.len() <= LINE_LEN,
        ok <= total <= at,
    ensures
        phase == typing(line@, at as int, ok, total),
        phase matches Phase::TypeStroke { stroke, .. } ==> stroke.wf() && stroke.phase !is Over,
{
    if at >= line.len() {
        Phase::TypeReport { ok, total }
    } else {
        match type_char(line[at]) {
            Some(stroke) => Phase::TypeStroke { at, ok, total: total + 1, stroke },
            None => Phase::TypeRest { at, ok, total },
        }
    }
}

impl Keyboard {
    /// A keyboard in the given state, with no command running.
    pub fn new(state: UnifyingState, channels: ByteBuf<MAX_CHANNELS>) -> (keyboard: Keyboard)
        requires
            state.held_frames < HELD_FRAMES,
        ensures
            keyboard == (Keyboard { state, channels, phase: Phase::Idle }),
            forall|len: nat| #[trigger] keyboard.wf(len),
    {
        // A buffer holds no more than its capacity.
        let _fits: usize = channels.len();
        Keyboard { state, channels, phase: Phase::Idle }
    }

    fn key_phase(&self, args: Option<KeyReport>, release: bool) -> (phase: Phase)
        ensures
            phase == self.key_opening(args, release),
    {
        if !self.state.connected {
            return Phase::Say(Reply::ErrNotConn);
        }
        match args {
            Some(report) => Phase::KeyWarm { ticks: 0, report, release },
            None => Phase::Say(Reply::ErrArg),
        }
    }

    /// Begins the command of a line.
    pub fn begin(&mut self, line: &[u8])
        requires
            old(self).wf(line@.len()),
            line@.len() <= LINE_LEN,
        ensures
            *final(self) == old(self).begun(line@),
            final(self).wf(line@.len()),
    {
        self.phase = match parse_unifying_command(line) {
            UnifyingCommand::Empty => Phase::Idle,
            UnifyingCommand::RadioTest => Phase::TestConfigure,
            UnifyingCommand::Pair => Phase::PairId,
            UnifyingCommand::Connect => if self.state.paired {
                Phase::ConnectConfigure
            } else {
                Phase::Say(Reply::ErrNotPaired)
            },
            UnifyingCommand::KeepAlive => if self.state.connected {
                Phase::KeepAlive
            } else {
                Phase::Say(Reply::ErrNotConn)
            },
            UnifyingCommand::Status => Phase::Say(
                Reply::Status {
                    paired: self.state.paired,
                    connected: self.state.connected,
                    channel: self.state.device.channel,
                    counter: self.state.device.aes_counter,
                },
            ),
            UnifyingCommand::Version => Phase::Say(Reply::Version),
            UnifyingCommand::Delete => Phase::Erase,
            UnifyingCommand::Key(args) => self.key_phase(args, true),
            UnifyingCommand::KeyDown(args) => self.key_phase(args, false),
            UnifyingCommand::Type => if self.state.connected {
                Phase::TypeWarm { ticks: 0 }
            } else {
                Phase::Say(Reply::ErrNotConn)
            },
            UnifyingCommand::Unknown => Phase::Say(Reply::Commands),
        };
    }

    fn sweep(&self, encoding: u8, sweep: u8, acks: u32) -> (phase: Phase)
        ensures
            phase == self.sweep_phase(encoding, sweep, acks),
    {
        if self.channels.len() == 0 {
            Phase::TestRest { encoding, sweep, acks }
        } else {
            Phase::TestProbe { encoding, sweep, at: 0, acks }
        }
    }

    /// What the keyboard wants done next.
    pub fn action(&self) -> (action: KeyboardAction)
        requires
            exists|len: nat| self.wf(len),
        ensures
            action == self.asks(),
    {
        match self.phase {
            Phase::Idle => KeyboardAction::Finished,
            Phase::Say(reply) => KeyboardAction::Reply(reply),
            Phase::TestConfigure => KeyboardAction::ConfigureRadio,
            Phase::TestSelect { encoding } => KeyboardAction::SelectEncoding {
                encoding,
                address: [0xBB, 0x0A, 0xDC, 0xA5, 0x75],
            },
            Phase::TestProbe { at, .. } => KeyboardAction::Probe {
                channel: self.channels.as_slice()[at],
                payload: [0x00, 0x4F, 0x00, 0x00, 0xB1],
            },
            Phase::TestRest { .. } => KeyboardAction::Sleep { ms: TEST_REST_MS },
            Phase::TestReport { encoding, acks } => KeyboardAction::Reply(
                Reply::RadioTest { encoding, acks },
            ),
            Phase::PairId => KeyboardAction::ReadTicks,
            Phase::PairCrypto { .. } => KeyboardAction::ReadTicks,
            Phase::PairConfigure { .. } => KeyboardAction::ConfigureRadio,
            Phase::PairTry { params, .. } => KeyboardAction::Pair(params),
            Phase::PairRest { .. } => KeyboardAction::Sleep { ms: ATTEMPT_REST_MS },
            Phase::PairSave => KeyboardAction::Save(self.state.current_profile()),
            Phase::ConnectConfigure => KeyboardAction::ConfigureRadio,
            Phase::ConnectTry { .. } => KeyboardAction::Connect,
            Phase::ConnectRest { .. } => KeyboardAction::Sleep { ms: ATTEMPT_REST_MS },
            Phase::KeepAlive => KeyboardAction::Tick,
            Phase::Erase => KeyboardAction::Clear,
            Phase::KeyWarm { .. } => KeyboardAction::Tick,
            Phase::KeyStroke { stroke } => stroke_action(&stroke),
            Phase::KeySave { .. } => KeyboardAction::Save(self.state.current_profile()),
            Phase::TypeWarm { .. } => KeyboardAction::Tick,
            Phase::TypeStroke { stroke, .. } => stroke_action(&stroke),
            Phase::TypeRest { .. } => KeyboardAction::Sleep { ms: TYPE_REST_MS },
            Phase::TypeReport { ok, total } => KeyboardAction::Reply(Reply::Typed { ok, total }),
            Phase::TypeSave => KeyboardAction::Save(self.state.current_profile()),
        }
    }

    fn finish_key(&mut self, stroke: &Stroke)
        requires
            old(self).channels@.len() <= MAX_CHANNELS,
            old(self).state.held_frames < HELD_FRAMES,
        ensures
            *final(self) == old(self).key_sent(*stroke),
            forall|len: nat| #[trigger] final(self).wf(len),
    {
        let mut save: bool = stroke.release;
        if !stroke.release {
            let frames: u8 = self.state.held_frames + 1;
            save = frames >= HELD_FRAMES;
            self.state.held_frames = if save {
                0
            } else {
                frames
            };
        }
        self.phase = if self.state.paired && save {
            Phase::KeySave { pressed: stroke.pressed }
        } else {
            Phase::Say(key_reply(stroke.pressed))
        };
    }

    /// Goes on once the action has gone as `input` says.
    pub fn step(&mut self, line: &[u8], input: &KeyboardInput)
        requires
            old(self).wf(line@.len()),
        ensures
            *final(self) == old(self).next(line@, *input),
            final(self).wf(line@.len()),
    {
        match (self.phase, *input) {
            (Phase::Say(_), KeyboardInput::Done) => {
                self.phase = Phase::Idle;
            },
            (Phase::TestConfigure, KeyboardInput::Device { ok, device }) => {
                self.state.device = device;
                self.phase = if ok {
                    Phase::TestSelect { encoding: 0 }
                } else {
                    Phase::Say(Reply::ErrRadio)
                };
            },
            (Phase::TestSelect { encoding }, KeyboardInput::Done) => {
                self.phase = self.sweep(encoding, 0, 0);
            },
            (
                Phase::TestProbe { encoding, sweep, at, acks },
                KeyboardInput::Acknowledged(acknowledged),
            ) => {
                let count: u32 = if acknowledged {
                    acks + 1
                } else {
                    acks
                };
                self.phase = if at + 1 < self.channels.len() {
                    Phase::TestProbe { encoding, sweep, at: at + 1, acks: count }
                } else {
                    Phase::TestRest { encoding, sweep, acks: count }
                };
            },
            (Phase::TestRest { encoding, sweep, acks }, KeyboardInput::Done) => {
                self.phase = if sweep + 1 < TEST_SWEEPS {
                    self.sweep(encoding, sweep + 1, acks)
                } else {
                    Phase::TestReport { encoding, acks }
                };
            },
            (Phase::TestReport { encoding, .. }, KeyboardInput::Done) => {
                self.phase = if encoding + 1 < EsbRadio::ADDR_ENCODINGS {
                    Phase::TestSelect { encoding: encoding + 1 }
                } else {
                    Phase::Say(Reply::RadioTestDone)
                };
            },
            (Phase::PairId, KeyboardInput::Ticks(id_ticks)) => {
                self.phase = Phase::PairCrypto { id_ticks };
            },
            (Phase::PairCrypto { id_ticks }, KeyboardInput::Ticks(ticks)) => {
                self.phase = Phase::PairConfigure {
                    params: PairingParams::from_ticks(id_ticks, ticks),
                };
            },
            (Phase::PairConfigure { params }, KeyboardInput::Device { ok, device }) => {
                self.state.device = device;
                self.phase = if ok {
                    Phase::PairTry { params, failures: 0 }
                } else {
                    Phase::Say(Reply::ErrRadio)
                };
            },
            (Phase::PairTry { params, failures }, KeyboardInput::Device { ok, device }) => {
                self.state.device = device;
                if ok {
                    self.state.paired = true;
                    self.state.connected = true;
                    self.phase = Phase::PairSave;
                } else {
                    self.phase = Phase::PairRest { params, failures: failures + 1 };
                }
            },
            (Phase::PairRest { params, failures }, KeyboardInput::Done) => {
                self.phase = if failures < PAIR_ATTEMPTS {
                    Phase::PairTry { params, failures }
                } else {
                    Phase::Say(Reply::ErrPair)
                };
            },
            (Phase::PairSave, KeyboardInput::Done) => {
                self.phase = Phase::Say(
                    Reply::Paired {
                        address: self.state.device.address,
                        channel: self.state.device.channel,
                    },
                );
            },
            (Phase::ConnectConfigure, KeyboardInput::Device { ok, device }) => {
                self.state.device = device;
                self.phase = if ok {
                    Phase::ConnectTry { failures: 0 }
                } else {
                    Phase::Say(Reply::ErrRadio)
                };
            },
            (Phase::ConnectTry { failures }, KeyboardInput::Device { ok, device }) => {
                self.state.device = device;
                if ok {
                    self.state.connected = true;
                    self.phase = Phase::Say(Reply::Connected { channel: device.channel });
                } else {
                    self.phase = Phase::ConnectRest { failures: failures + 1 };
                }
            },
            (Phase::ConnectRest { failures }, KeyboardInput::Done) => {
                self.phase = if failures < CONNECT_ATTEMPTS {
                    Phase::ConnectTry { failures }
                } else {
                    Phase::Say(Reply::ErrConnect)
                };
            },
            (Phase::KeepAlive, KeyboardInput::Device { device, .. }) => {
                self.state.device = device;
                self.phase = Phase::Say(Reply::Tick);
            },
            (Phase::Erase, KeyboardInput::Done) => {
                self.state.paired = false;
                self.state.connected = false;
                self.phase = Phase::Say(Reply::Deleted);
            },
            (Phase::KeyWarm { ticks, report, release }, KeyboardInput::Device { device, .. }) => {
                self.state.device = device;
                self.phase = if ticks + 1 < WARM_TICKS {
                    Phase::KeyWarm { ticks: ticks + 1, report, release }
                } else {
                    Phase::KeyStroke { stroke: Stroke::new(report, release) }
                };
            },
            (Phase::KeyStroke { stroke }, KeyboardInput::Device { ok, device }) => {
                self.state.device = device;
                let mut further: Stroke = stroke;
                further.step(ok);
                if let StrokePhase::Over = further.phase {
                    self.finish_key(&further);
                } else {
                    self.phase = Phase::KeyStroke { stroke: further };
                }
            },
            (Phase::KeySave { pressed }, KeyboardInput::Done) => {
                self.phase = Phase::Say(key_reply(pressed));
            },
            (Phase::TypeWarm { ticks }, KeyboardInput::Device { device, .. }) => {
                self.state.device = device;
                self.phase = if ticks + 1 < WARM_TICKS {
                    Phase::TypeWarm { ticks: ticks + 1 }
                } else {
                    typing_phase(line, TYPE_TEXT_AT, 0, 0)
                };
            },
            (
                Phase::TypeStroke { at, ok: typed, total, stroke },
                KeyboardInput::Device { ok, device },
            ) => {
                self.state.device = device;
                let mut further: Stroke = stroke;
                further.step(ok);
                if let StrokePhase::Over = further.phase {
                    let count: u32 = if further.pressed {
                        typed + 1
                    } else {
                        typed
                    };
                    self.phase = Phase::TypeRest { at, ok: count, total };
                } else {
                    self.phase = Phase::TypeStroke { at, ok: typed, total, stroke: further };
                }
            },
            (Phase::TypeRest { at, ok, total }, KeyboardInput::Done) => {
                self.phase = typing_phase(line, at + 1, ok, total);
            },
            (Phase::TypeReport { .. }, KeyboardInput::Done) => {
                self.phase = if self.state.paired {
                    Phase::TypeSave
                } else {
                    Phase::Idle
                };
            },
            (Phase::TypeSave, KeyboardInput::Done) => {
                self.phase = Phase::Idle;
            },
            _ => {},
        }
    }
}

} // verus!
