//! The serial session: what the device does from the moment it runs.
//!
//! `Session` decides; its owner acts. The owner performs the action that
//! `action` names and reports how it went to `step`, again and again.

use crate::buffer::ByteBuf;
use crate::commands::{parse_ota_command, OtaCommand};
use crate::keyboard::{Keyboard, KeyboardAction, KeyboardInput, Phase, HELD_FRAMES, LINE_LEN};
use crate::ota::{Upload, UploadAction, UploadModel, UploadPhase, ACTIVE_IMAGE_LIMIT, STAGING_LEN};
use crate::replies::{BootState, Reply, PACKET_LEN};
use vstd::prelude::*;

verus! {

use crate::commands::ota_command;
use crate::ota::UploadRequest;

/// Time that the host has to send a packet before a keep-alive is due, in
/// milliseconds.
pub const KEEPALIVE_POLL_MS: u64 = 8;

/// Time for the last reply to reach the host before a reset, in milliseconds.
pub const RESET_REST_MS: u64 = 100;

/// What the session wants done next.
#[derive(Clone, Copy, Debug)]
pub enum SessionAction {
    /// Wait for a host.
    WaitConnection,
    /// Read a packet. With `keepalive` no longer than the poll interval, else as
    /// long as it takes.
    Read { keepalive: bool },
    /// An action of the keyboard.
    Keyboard(KeyboardAction),
    /// Write the bytes to the update partition, from that offset on.
    Write { offset: usize, bytes: ByteBuf<STAGING_LEN> },
    /// Ask the bootloader for its state.
    ReadBootState,
    /// Tell the bootloader to swap the new image in.
    MarkUpdated,
    /// Send a reply to the host.
    Reply(Reply),
    /// Let that many milliseconds pass.
    Sleep { ms: u64 },
    /// Reset the device.
    Reset,
}

/// What the session wants done next, as a mathematical object.
pub enum SessionRequest {
    WaitConnection,
    Read { keepalive: bool },
    Keyboard(KeyboardAction),
    Write { offset: int, bytes: Seq<u8> },
    ReadBootState,
    MarkUpdated,
    Reply(Reply),
    Sleep { ms: u64 },
    Reset,
}

impl View for SessionAction {
    type V = SessionRequest;

    open spec fn view(&self) -> SessionRequest {
        match *self {
            SessionAction::WaitConnection => SessionRequest::WaitConnection,
            SessionAction::Read { keepalive } => SessionRequest::Read { keepalive },
            SessionAction::Keyboard(action) => SessionRequest::Keyboard(action),
            SessionAction::Write { offset, bytes } => SessionRequest::Write {
                offset: offset as int,
                bytes: bytes@,
            },
            SessionAction::ReadBootState => SessionRequest::ReadBootState,
            SessionAction::MarkUpdated => SessionRequest::MarkUpdated,
            SessionAction::Reply(reply) => SessionRequest::Reply(reply),
            SessionAction::Sleep { ms } => SessionRequest::Sleep { ms },
            SessionAction::Reset => SessionRequest::Reset,
        }
    }
}

/// How an action went.
#[derive(Clone, Copy, Debug)]
pub enum SessionInput {
    /// It is done.
    Done,
    /// A host has connected.
    Connected,
    /// A packet was read.
    Packet(ByteBuf<PACKET_LEN>),
    /// No packet came within the poll interval.
    Quiet,
    /// The host is gone.
    Lost,
    /// An action of the keyboard went like that.
    Keyboard(KeyboardInput),
    /// The flash was written, or could not be.
    Written(bool),
    /// The bootloader's state, or none if it could not be read.
    State(Option<BootState>),
    /// The bootloader was told, or could not be.
    Marked(bool),
}

/// Where the session stands.
#[derive(Clone, Copy, Debug, PartialEq, Eq)]
pub enum SessionPhase {
    /// No host is connected.
    Connecting,
    /// The banner is to be sent.
    Greeting,
    /// A packet is awaited.
    Reading,
    /// A keep-alive is due.
    Ticking,
    /// A packet of an image is being written.
    Uploading,
    /// A keyboard command is running.
    Running,
    /// A reply is to be sent.
    Saying(Reply),
    /// The bootloader is to be asked.
    Asking,
    /// The bootloader is to be told of a new image.
    Marking,
    /// The reset is to be announced.
    Announcing,
    /// The announcement is on its way.
    Resting,
    /// The device is to be reset.
    Resetting,
}

/// The line with one more byte: carriage returns and what is too much are
/// dropped.
pub open spec fn line_with(line: Seq<u8>, b: u8) -> Seq<u8> {
    if b == 0x0d || line.len() >= LINE_LEN {
        line
    } else {
        line.push(b)
    }
}

/// The outcome of scanning bytes for the end of a line.
pub struct Scan {
    pub line: Seq<u8>,
    /// The bytes behind the line feed.
    pub rest: Seq<u8>,
    /// A line feed was found.
    pub complete: bool,
}

/// Scans `rest` for the end of a line that begins with `line`. Empty lines are
/// skipped.
pub open spec fn scan(line: Seq<u8>, rest: Seq<u8>) -> Scan
    decreases rest.len(),
{
    if rest.len() == 0 {
        Scan { line, rest, complete: false }
    } else if rest[0] != 0x0a {
        scan(line_with(line, rest[0]), rest.skip(1))
    } else if line.len() == 0 {
        scan(line, rest.skip(1))
    } else {
        Scan { line, rest: rest.skip(1), complete: true }
    }
}

/// The session, as a mathematical object.
pub struct SessionModel {
    pub keyboard: Keyboard,
    pub upload: UploadModel,
    /// The command line so far, or the one that is running.
    pub line: Seq<u8>,
    /// The bytes of the packet that have yet to be scanned.
    pub rest: Seq<u8>,
    pub phase: SessionPhase,
}

impl SessionModel {
    /// What every step keeps.
    pub open spec fn wf(self) -> bool {
        &&& self.keyboard.wf(self.line.len())
        &&& self.upload.wf()
        &&& self.line.len() <= LINE_LEN
        &&& self.rest.len() <= PACKET_LEN
        &&& self.phase is Uploading <==> self.upload.phase !is Waiting
        &&& self.phase is Running <==> self.keyboard.phase !is Idle
    }

    /// A keep-alive is due if the host stays quiet.
    pub open spec fn keeps_alive(self) -> bool {
        self.keyboard.state.connected && !self.upload.active
    }

    /// The update command is carried out.
    pub open spec fn ota(self, command: OtaCommand) -> SessionModel {
        match command {
            OtaCommand::Ping => SessionModel { phase: SessionPhase::Saying(Reply::Pong), ..self },
            OtaCommand::Info => SessionModel { phase: SessionPhase::Asking, ..self },
            OtaCommand::Write(size) => if size == 0 || size > ACTIVE_IMAGE_LIMIT {
                SessionModel { phase: SessionPhase::Saying(Reply::ErrSize), ..self }
            } else {
                SessionModel {
                    upload: self.upload.announced(size as int),
                    phase: SessionPhase::Saying(Reply::Ready),
                    ..self
                }
            },
            OtaCommand::Boot => if self.upload.image_ready {
                SessionModel { phase: SessionPhase::Marking, ..self }
            } else {
                SessionModel { phase: SessionPhase::Saying(Reply::ErrNoImage), ..self }
            },
            OtaCommand::Abort => SessionModel {
                upload: self.upload.aborted(),
                phase: SessionPhase::Saying(Reply::Aborted),
                ..self
            },
            OtaCommand::Reboot => SessionModel { phase: SessionPhase::Announcing, ..self },
        }
    }

    /// The command of the line is carried out.
    pub open spec fn dispatched(self) -> SessionModel {
        match ota_command(self.line) {
            Some(command) => SessionModel { line: Seq::empty(), ..self }.ota(command),
            None => SessionModel {
                keyboard: self.keyboard.begun(self.line),
                phase: SessionPhase::Running,
                ..self
            },
        }
    }

    /// The session goes on with the rest of its packet: with the next command in
    /// it, or with the next packet.
    pub open spec fn resumed(self) -> SessionModel {
        let found = scan(self.line, self.rest);
        let moved = SessionModel {
            line: found.line,
            rest: found.rest,
            phase: SessionPhase::Reading,
            ..self
        };
        if found.complete {
            moved.dispatched()
        } else {
            moved
        }
    }

    /// The session with the upload as given.
    pub open spec fn with_upload(self, upload: UploadModel) -> SessionModel {
        SessionModel {
            upload,
            phase: if upload.phase is Waiting {
                SessionPhase::Reading
            } else {
                SessionPhase::Uploading
            },
            ..self
        }
    }

    /// What the session wants done next.
    pub open spec fn asks(self) -> SessionRequest {
        match self.phase {
            SessionPhase::Connecting => SessionRequest::WaitConnection,
            SessionPhase::Greeting => SessionRequest::Reply(Reply::Banner),
            SessionPhase::Reading => SessionRequest::Read { keepalive: self.keeps_alive() },
            SessionPhase::Ticking => SessionRequest::Keyboard(KeyboardAction::Tick),
            SessionPhase::Uploading => match self.upload.asks() {
                UploadRequest::Write { offset, bytes } => SessionRequest::Write { offset, bytes },
                UploadRequest::Reply(reply) => SessionRequest::Reply(reply),
                UploadRequest::Wait => SessionRequest::Read { keepalive: false },
            },
            SessionPhase::Running => SessionRequest::Keyboard(self.keyboard.asks()),
            SessionPhase::Saying(reply) => SessionRequest::Reply(reply),
            SessionPhase::Asking => SessionRequest::ReadBootState,
            SessionPhase::Marking => SessionRequest::MarkUpdated,
            SessionPhase::Announcing => SessionRequest::Reply(Reply::Reboot),
            SessionPhase::Resting => SessionRequest::Sleep { ms: RESET_REST_MS },
            SessionPhase::Resetting => SessionRequest::Reset,
        }
    }

    /// The session once its action has gone as `input` says. An input that is no
    /// answer to the action changes nothing.
    pub open spec fn next(self, input: SessionInput) -> SessionModel {
        match (self.phase, input) {
            (SessionPhase::Connecting, SessionInput::Connected) => SessionModel {
                upload: UploadModel::none(),
                line: Seq::empty(),
                rest: Seq::empty(),
                phase: SessionPhase::Greeting,
                ..self
            },
            (SessionPhase::Greeting, SessionInput::Done) => SessionModel {
                phase: SessionPhase::Reading,
                ..self
            },
            (SessionPhase::Reading, SessionInput::Packet(packet)) => if self.upload.active {
                self.with_upload(self.upload.packet(packet@))
            } else {
                SessionModel { rest: packet@, ..self }.resumed()
            },
            (SessionPhase::Reading, SessionInput::Quiet) => SessionModel {
                phase: if self.keeps_alive() {
                    SessionPhase::Ticking
                } else {
                    SessionPhase::Reading
                },
                ..self
            },
            (SessionPhase::Reading, SessionInput::Lost) => SessionModel {
                phase: SessionPhase::Connecting,
                ..self
            },
            (
                SessionPhase::Ticking,
                SessionInput::Keyboard(KeyboardInput::Device { device, .. }),
            ) => SessionModel {
                keyboard: Keyboard { state: self.keyboard.with_device(device), ..self.keyboard },
                phase: SessionPhase::Reading,
                ..self
            },
            (SessionPhase::Uploading, SessionInput::Written(ok)) => if self.upload.asks() is Write {
                self.with_upload(self.upload.next(ok))
            } else {
                self
            },
            (SessionPhase::Uploading, SessionInput::Done) => if self.upload.asks() is Reply {
                self.with_upload(self.upload.next(true))
            } else {
                self
            },
            (SessionPhase::Running, SessionInput::Keyboard(answer)) => {
                let keyboard = self.keyboard.next(self.line, answer);
                if keyboard.phase is Idle {
                    SessionModel { keyboard, line: Seq::empty(), ..self }.resumed()
                } else {
                    SessionModel { keyboard, ..self }
                }
            },
            (SessionPhase::Saying(_), SessionInput::Done) => self.resumed(),
            (SessionPhase::Asking, SessionInput::State(state)) => SessionModel {
                phase: SessionPhase::Saying(Reply::Info(state)),
                ..self
            },
            (SessionPhase::Marking, SessionInput::Marked(ok)) => SessionModel {
                phase: if ok {
                    SessionPhase::Announcing
                } else {
                    SessionPhase::Saying(Reply::ErrMark)
                },
                ..self
            },
            (SessionPhase::Announcing, SessionInput::Done) => SessionModel {
                phase: SessionPhase::Resting,
                ..self
            },
            (SessionPhase::Resting, SessionInput::Done) => SessionModel {
                phase: SessionPhase::Resetting,
                ..self
            },
            _ => self,
        }
    }
}

/// The serial session.
#[derive(Clone, Copy, Debug)]
pub struct Session {
    pub keyboard: Keyboard,
    pub upload: Upload,
    pub line: ByteBuf<LINE_LEN>,
    pub packet: ByteBuf<PACKET_LEN>,
    /// How many bytes of the packet have been scanned.
    pub at: usize,
    pub phase: SessionPhase,
}

impl View for Session {
    type V = SessionModel;

    open spec fn view(&self) -> SessionModel {
        SessionModel {
            keyboard: self.keyboard,
            upload: self.upload@,
            line: self.line@,
            rest: self.packet@.skip(self.at as int),
            phase: self.phase,
        }
    }
}

impl Session {
    /// What every step keeps.
    pub open spec fn wf(self) -> bool {
        self@.wf() && self.at <= self.packet@.len() <= PACKET_LEN
    }

    /// A session that waits for a host.
    pub fn new(keyboard: Keyboard) -> (session: Session)
        requires
            keyboard.phase is Idle,
            keyboard.state.held_frames < HELD_FRAMES,
        ensures
            session.wf(),
            session@ == (SessionModel {
                keyboard,
                upload: UploadModel::none(),
                line: Seq::empty(),
                rest: Seq::empty(),
                phase: SessionPhase::Connecting,
            }),
    {
        // A buffer holds no more than its capacity.
        let _fits: usize = keyboard.channels.len();
        let session = Session {
            keyboard,
            upload: Upload::new(),
            line: ByteBuf::new(),
            packet: ByteBuf::new(),
            at: 0,
            phase: SessionPhase::Connecting,
        };
        assert(session.packet@.skip(0) =~= Seq::empty());
        session
    }

    fn polls(&self) -> (polls: bool)
        ensures
            polls == self@.keeps_alive(),
    {
        self.keyboard.state.connected && !self.upload.active
    }

    fn carry_out(&mut self, command: OtaCommand)
        requires
            old(self).wf(),
            old(self).keyboard.phase is Idle,
            old(self).upload@.phase is Waiting,
        ensures
            final(self)@ == old(self)@.ota(command),
            final(self).wf(),
    {
        match command {
            OtaCommand::Ping => {
                self.phase = SessionPhase::Saying(Reply::Pong);
            },
            OtaCommand::Info => {
                self.phase = SessionPhase::Asking;
            },
            OtaCommand::Write(size) => {
                if size == 0 || size > ACTIVE_IMAGE_LIMIT {
                    self.phase = SessionPhase::Saying(Reply::ErrSize);
                } else {
                    self.upload.announce(size);
                    self.phase = SessionPhase::Saying(Reply::Ready);
                }
            },
            OtaCommand::Boot => {
                if self.upload.image_ready {
                    self.phase = SessionPhase::Marking;
                } else {
                    self.phase = SessionPhase::Saying(Reply::ErrNoImage);
                }
            },
            OtaCommand::Abort => {
                self.upload.abort();
                self.phase = SessionPhase::Saying(Reply::Aborted);
            },
            OtaCommand::Reboot => {
                self.phase = SessionPhase::Announcing;
            },
        }
    }

    fn dispatch(&mut self)
        requires
            old(self).wf(),
            old(self).keyboard.phase is Idle,
            old(self).upload@.phase is Waiting,
            old(self).line@.len() > 0,
        ensures
            final(self)@ == old(self)@.dispatched(),
            final(self).wf(),
    {
        match parse_ota_command(self.line.as_slice()) {
            Some(command) => {
                self.line = ByteBuf::new();
                self.carry_out(command);
            },
            None => {
                let line: ByteBuf<LINE_LEN> = self.line;
                self.keyboard.begin(line.as_slice());
                self.phase = SessionPhase::Running;
            },
        }
    }

    fn resume(&mut self)
        requires
            old(self)@.upload.wf(),
            old(self)@.upload.phase is Waiting,
            old(self)@.keyboard.phase is Idle,
            old(self)@.keyboard.wf(old(self)@.line.len()),
            old(self)@.line.len() <= LINE_LEN,
            old(self).at <= old(self).packet@.len() <= PACKET_LEN,
        ensures
            final(self)@ == old(self)@.resumed(),
            final(self).wf(),
    {
        let ghost model = self@;
        self.phase = SessionPhase::Reading;
        let mut complete: bool = false;
        let packet: ByteBuf<PACKET_LEN> = self.packet;
        while !complete && self.at < packet.len()
            invariant
                packet == self.packet,
                self.at <= packet@.len() <= PACKET_LEN,
                self.line@.len() <= LINE_LEN,
                self@ == (SessionModel {
                    line: self@.line,
                    rest: self@.rest,
                    phase: SessionPhase::Reading,
                    ..model
                }),
                complete ==> scan(model.line, model.rest) == (Scan {
                    line: self@.line,
                    rest: self@.rest,
                    complete: true,
                }) && self.line@.len() > 0,
                !complete ==> scan(model.line, model.rest) == scan(self@.line, self@.rest),
            decreases packet@.len() - self.at,
        {
            let ghost rest = self@.rest;
            let b: u8 = packet.as_slice()[self.at];
            assert(rest[0] == b);
            self.at = self.at + 1;
            assert(self@.rest =~= rest.skip(1));
            if b == 0x0a {
                complete = self.line.len() > 0;
            } else if b != 0x0d && self.line.len() < LINE_LEN {
                let mut line: ByteBuf<LINE_LEN> = self.line;
                line.push(b);
                self.line = line;
            }
        }
        if complete {
            self.dispatch();
        }
    }

    fn follow_upload(&mut self)
        ensures
            final(self)@ == old(self)@.with_upload(old(self)@.upload),
            final(self).at == old(self).at,
            final(self).packet == old(self).packet,
    {
        self.phase = match self.upload.phase {
            UploadPhase::Waiting => SessionPhase::Reading,
            _ => SessionPhase::Uploading,
        };
    }

    /// What the session wants done next.
    pub fn action(&self) -> (action: SessionAction)
        requires
            self.wf(),
        ensures
            action@ == self@.asks(),
    {
        match self.phase {
            SessionPhase::Connecting => SessionAction::WaitConnection,
            SessionPhase::Greeting => SessionAction::Reply(Reply::Banner),
            SessionPhase::Reading => SessionAction::Read { keepalive: self.polls() },
            SessionPhase::Ticking => SessionAction::Keyboard(KeyboardAction::Tick),
            SessionPhase::Uploading => match self.upload.action() {
                UploadAction::Write { offset, bytes } => SessionAction::Write { offset, bytes },
                UploadAction::Reply(reply) => SessionAction::Reply(reply),
                UploadAction::Wait => SessionAction::Read { keepalive: false },
            },
            SessionPhase::Running => SessionAction::Keyboard(self.keyboard.action()),
            SessionPhase::Saying(reply) => SessionAction::Reply(reply),
            SessionPhase::Asking => SessionAction::ReadBootState,
            SessionPhase::Marking => SessionAction::MarkUpdated,
            SessionPhase::Announcing => SessionAction::Reply(Reply::Reboot),
            SessionPhase::Resting => SessionAction::Sleep { ms: RESET_REST_MS },
            SessionPhase::Resetting => SessionAction::Reset,
        }
    }

    /// Goes on once the action has gone as `input` says.
    pub fn step(&mut self, input: &SessionInput)
        requires
            old(self).wf(),
        ensures
            final(self)@ == old(self)@.next(*input),
            final(self).wf(),
    {
        match (self.phase, *input) {
            (SessionPhase::Connecting, SessionInput::Connected) => {
                self.upload = Upload::new();
                self.line = ByteBuf::new();
                self.packet = ByteBuf::new();
                self.at = 0;
                self.phase = SessionPhase::Greeting;
                assert(self@.rest =~= Seq::empty());
            },
            (SessionPhase::Greeting, SessionInput::Done) => {
                self.phase = SessionPhase::Reading;
            },
            (SessionPhase::Reading, SessionInput::Packet(packet)) => {
                let _fits: usize = packet.len();
                if self.upload.active {
                    self.upload.take(packet.as_slice());
                    self.follow_upload();
                } else {
                    self.packet = packet;
                    self.at = 0;
                    assert(self@.rest =~= packet@);
                    self.resume();
                }
            },
            (SessionPhase::Reading, SessionInput::Quiet) => {
                if self.polls() {
                    self.phase = SessionPhase::Ticking;
                }
            },
            (SessionPhase::Reading, SessionInput::Lost) => {
                self.phase = SessionPhase::Connecting;
            },
            (
                SessionPhase::Ticking,
                SessionInput::Keyboard(KeyboardInput::Device { device, .. }),
            ) => {
                self.keyboard.state.device = device;
                self.phase = SessionPhase::Reading;
            },
            (SessionPhase::Uploading, SessionInput::Written(ok)) => {
                if let UploadAction::Write { .. } = self.upload.action() {
                    self.upload.step(ok);
                    self.follow_upload();
                }
            },
            (SessionPhase::Uploading, SessionInput::Done) => {
                if let UploadAction::Reply(_) = self.upload.action() {
                    self.upload.step(true);
                    self.follow_upload();
                }
            },
            (SessionPhase::Running, SessionInput::Keyboard(answer)) => {
                let line: ByteBuf<LINE_LEN> = self.line;
                self.keyboard.step(line.as_slice(), &answer);
                if let Phase::Idle = self.keyboard.phase {
                    self.line = ByteBuf::new();
                    self.resume();
                }
            },
            (SessionPhase::Saying(_), SessionInput::Done) => {
                self.resume();
            },
            (SessionPhase::Asking, SessionInput::State(state)) => {
                self.phase = SessionPhase::Saying(Reply::Info(state));
            },
            (SessionPhase::Marking, SessionInput::Marked(ok)) => {
                self.phase = if ok {
                    SessionPhase::Announcing
                } else {
                    SessionPhase::Saying(Reply::ErrMark)
                };
            },
            (SessionPhase::Announcing, SessionInput::Done) => {
                self.phase = SessionPhase::Resting;
            },
            (SessionPhase::Resting, SessionInput::Done) => {
                self.phase = SessionPhase::Resetting;
            },
            _ => {},
        }
    }
}

} // verus!
