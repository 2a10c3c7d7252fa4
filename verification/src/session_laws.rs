//! What holds of every session, whatever the host sends and however its actions
//! go.

use crate::buffer::ByteBuf;
use crate::commands::OtaCommand;
use crate::keyboard::{Keyboard, KeyboardAction, KeyboardInput};
use crate::replies::{BootState, Reply, PACKET_LEN};
use crate::session::{SessionInput, SessionModel, SessionPhase, RESET_REST_MS};
use crate::state::Device;
use vstd::prelude::*;

verus! {

use crate::commands::ota_command;
use crate::keyboard_laws::{answers as keyboard_answers, connection_needs_pairing, linked};
use crate::ota::{
    padded, upload_in_order, upload_keeps_order, UploadEvent, UploadHistory, UploadModel,
};
use crate::session::{line_with, scan, Scan, SessionRequest};

/// The input is an answer to the request.
pub open spec fn answers(request: SessionRequest, input: SessionInput) -> bool {
    match request {
        SessionRequest::WaitConnection => input is Connected,
        SessionRequest::Read { keepalive } => match input {
            SessionInput::Packet(packet) => packet@.len() <= PACKET_LEN,
            SessionInput::Quiet => keepalive,
            SessionInput::Lost => true,
            _ => false,
        },
        SessionRequest::Keyboard(action) => match input {
            SessionInput::Keyboard(answer) => keyboard_answers(action, answer),
            _ => false,
        },
        SessionRequest::Write { .. } => input is Written,
        SessionRequest::ReadBootState => input is State,
        SessionRequest::MarkUpdated => input is Marked,
        SessionRequest::Reply(_) => input is Done,
        SessionRequest::Sleep { .. } => input is Done,
        SessionRequest::Reset => false,
    }
}

// Lines.

/// Where the host's bytes are cut into packets does not matter: scanning one
/// packet and then the next finds the same lines as scanning both at once.
pub proof fn packets_join(line: Seq<u8>, first: Seq<u8>, second: Seq<u8>)
    ensures
        scan(line, first + second) == if scan(line, first).complete {
            Scan { rest: scan(line, first).rest + second, ..scan(line, first) }
        } else {
            scan(scan(line, first).line, second)
        },
    decreases first.len(),
{
    let both = first + second;
    if first.len() == 0 {
        assert(both =~= second);
    } else {
        assert(both.skip(1) =~= first.skip(1) + second);
        if first[0] != 0x0a {
            packets_join(line_with(line, first[0]), first.skip(1), second);
        } else if line.len() == 0 {
            packets_join(line, first.skip(1), second);
        }
    }
}

/// The text without its carriage returns.
pub open spec fn without_returns(text: Seq<u8>) -> Seq<u8> {
    text.filter(|b: u8| b != 0x0d)
}

/// The first bytes of `text`, as many as a line can hold.
pub open spec fn clipped(text: Seq<u8>) -> Seq<u8> {
    if text.len() <= 256 {
        text
    } else {
        text.take(256)
    }
}

proof fn text_gathered(text: Seq<u8>)
    requires
        forall|i: int| 0 <= i < text.len() ==> #[trigger] text[i] != 0x0a,
    ensures
        scan(Seq::empty(), text) == (Scan {
            line: clipped(without_returns(text)),
            rest: Seq::empty(),
            complete: false,
        }),
    decreases text.len(),
{
    reveal(Seq::filter);
    let none = Seq::<u8>::empty();
    if text.len() == 0 {
        assert(text =~= none);
        assert(without_returns(text) =~= none);
    } else {
        let b = text.last();
        let one = seq![b];
        assert(text =~= text.drop_last() + one);
        text_gathered(text.drop_last());
        packets_join(none, text.drop_last(), one);
        let line = clipped(without_returns(text.drop_last()));
        reveal_with_fuel(scan, 2);
        assert(one.skip(1) =~= none);
        assert(scan(line, one) == (Scan { line: line_with(line, b), rest: none, complete: false }));
        assert(clipped(without_returns(text)) =~= line_with(line, b));
    }
}

/// A line is what the host sent before a line feed, without carriage returns and
/// cut off at the longest line. What follows the line feed is left for the next
/// line.
pub proof fn line_received(text: Seq<u8>, more: Seq<u8>)
    requires
        forall|i: int| 0 <= i < text.len() ==> #[trigger] text[i] != 0x0a,
        without_returns(text).len() > 0,
    ensures
        scan(Seq::empty(), text + seq![0x0a] + more) == (Scan {
            line: clipped(without_returns(text)),
            rest: more,
            complete: true,
        }),
{
    let end = seq![0x0au8] + more;
    text_gathered(text);
    packets_join(Seq::empty(), text, end);
    assert(text + seq![0x0au8] + more =~= text + end);
    assert(end.skip(1) =~= more);
}

/// Empty lines, and lines of carriage returns alone, are passed over.
pub proof fn empty_lines_passed_over(text: Seq<u8>, more: Seq<u8>)
    requires
        forall|i: int| 0 <= i < text.len() ==> #[trigger] text[i] == 0x0d,
    ensures
        scan(Seq::empty(), text + seq![0x0a] + more) == scan(Seq::empty(), more),
    decreases text.len(),
{
    let none = Seq::<u8>::empty();
    let whole = text + seq![0x0au8] + more;
    if text.len() == 0 {
        assert(whole[0] == 0x0a);
        assert(whole.skip(1) =~= more);
    } else {
        assert(whole[0] == text[0]);
        assert(whole.skip(1) =~= text.skip(1) + seq![0x0au8] + more);
        assert forall|i: int| 0 <= i < text.skip(1).len() implies #[trigger] text.skip(1)[i]
            == 0x0d by {
            assert(text.skip(1)[i] == text[i + 1]);
        }
        empty_lines_passed_over(text.skip(1), more);
    }
}

// Commands.

/// What the session finds when it looks for a line with this input: in a packet
/// of text, and in the rest of that packet once a command is done with.
pub open spec fn looked_for(s: SessionModel, input: SessionInput) -> Scan {
    let none = Scan { line: Seq::empty(), rest: Seq::empty(), complete: false };
    match (s.phase, input) {
        (SessionPhase::Reading, SessionInput::Packet(packet)) => if s.upload.active {
            none
        } else {
            scan(s.line, packet@)
        },
        (SessionPhase::Running, SessionInput::Keyboard(answer)) => if s.keyboard.next(
            s.line,
            answer,
        ).phase is Idle {
            scan(Seq::empty(), s.rest)
        } else {
            none
        },
        (SessionPhase::Saying(_), SessionInput::Done) => scan(s.line, s.rest),
        _ => none,
    }
}

/// The line that the session takes up with this input, if it finds one.
pub open spec fn line_taken(s: SessionModel, input: SessionInput) -> Option<Seq<u8>> {
    let found = looked_for(s, input);
    if found.complete {
        Some(found.line)
    } else {
        None
    }
}

/// The keyboard after an input, before a new command.
pub open spec fn keyboard_after(s: SessionModel, input: SessionInput) -> Keyboard {
    match (s.phase, input) {
        (SessionPhase::Running, SessionInput::Keyboard(answer)) => s.keyboard.next(s.line, answer),
        _ => s.keyboard,
    }
}

/// What each line makes the session do. A line that announces an image of 1 to
/// 491520 bytes begins an upload of exactly that size; other sizes are refused.
/// An image is booted only if there is one. An update command leaves the
/// keyboard alone, and a line that is none is a command of the keyboard and
/// leaves the upload alone.
pub proof fn lines_are_obeyed(s: SessionModel, input: SessionInput, line: Seq<u8>)
    requires
        line_taken(s, input) == Some(line),
    ensures
        ({
            let after = s.next(input);
            let keyboard = keyboard_after(s, input);
            &&& after.rest == looked_for(s, input).rest
            &&& match ota_command(line) {
                Some(command) => {
                    &&& after.keyboard == keyboard
                    &&& after.line.len() == 0
                    &&& match command {
                        OtaCommand::Ping => after.asks() == SessionRequest::Reply(Reply::Pong)
                            && after.upload == s.upload,
                        OtaCommand::Info => after.asks() is ReadBootState && after.upload
                            == s.upload,
                        OtaCommand::Write(size) => if 1 <= size <= 491_520 {
                            &&& after.asks() == SessionRequest::Reply(Reply::Ready)
                            &&& after.upload.active
                            &&& after.upload.size == size
                            &&& after.upload.received == 0
                            &&& after.upload.staging.len() == 0
                            &&& !after.upload.image_ready
                        } else {
                            after.asks() == SessionRequest::Reply(Reply::ErrSize) && after.upload
                                == s.upload
                        },
                        OtaCommand::Boot => after.upload == s.upload && if s.upload.image_ready {
                            after.asks() is MarkUpdated
                        } else {
                            after.asks() == SessionRequest::Reply(Reply::ErrNoImage)
                        },
                        OtaCommand::Abort => {
                            &&& after.asks() == SessionRequest::Reply(Reply::Aborted)
                            &&& !after.upload.active
                            &&& !after.upload.image_ready
                            &&& after.upload.staging.len() == 0
                        },
                        OtaCommand::Reboot => after.asks() == SessionRequest::Reply(Reply::Reboot)
                            && after.upload == s.upload,
                    }
                },
                None => {
                    &&& after.phase is Running
                    &&& after.line == line
                    &&& after.keyboard == keyboard.begun(line)
                    &&& after.upload == s.upload
                },
            }
        }),
{
}

/// Bytes of text that complete no line are kept for the next packet, and the
/// session goes on reading.
pub proof fn text_is_kept(s: SessionModel, packet: ByteBuf<PACKET_LEN>)
    requires
        s.phase is Reading,
        !s.upload.active,
        !scan(s.line, packet@).complete,
    ensures
        ({
            let after = s.next(SessionInput::Packet(packet));
            &&& after.phase is Reading
            &&& after.line == scan(s.line, packet@).line
            &&& after.rest == scan(s.line, packet@).rest
            &&& after.keyboard == s.keyboard
            &&& after.upload == s.upload
        }),
{
}

/// A running command of the keyboard is carried out to its end, on the line that
/// began it: each of its actions is requested, and each answer handed to it.
pub proof fn commands_are_run(s: SessionModel, answer: KeyboardInput)
    requires
        s.phase is Running,
    ensures
        s.asks() == SessionRequest::Keyboard(s.keyboard.asks()),
        ({
            let after = s.next(SessionInput::Keyboard(answer));
            let keyboard = s.keyboard.next(s.line, answer);
            &&& after.upload.active == s.upload.active || line_taken(
                s,
                SessionInput::Keyboard(answer),
            ) is Some
            &&& keyboard.phase !is Idle ==> after.phase is Running && after.keyboard == keyboard
                && after.line == s.line && after.rest == s.rest && after.upload == s.upload
            &&& keyboard.phase is Idle && line_taken(s, SessionInput::Keyboard(answer)) is None
                ==> after.phase is Reading && after.keyboard == keyboard && after.upload == s.upload
        }),
{
}

/// A host that connects is greeted, and then listened to.
pub proof fn hosts_are_greeted(s: SessionModel)
    requires
        s.phase is Connecting,
    ensures
        s.asks() is WaitConnection,
        s.next(SessionInput::Connected).asks() == SessionRequest::Reply(Reply::Banner),
        s.next(SessionInput::Connected).next(SessionInput::Done).asks() is Read,
        s.next(SessionInput::Connected).next(SessionInput::Done).keyboard == s.keyboard,
{
}

/// While a receiver is connected and no image is being uploaded, a host that
/// stays quiet gives the device the time for one keep-alive tick; nothing else
/// changes but the device. In every other case the session waits for the host
/// alone.
pub proof fn link_is_kept_alive(s: SessionModel, ok: bool, device: Device)
    requires
        s.phase is Reading,
    ensures
        s.asks() == (SessionRequest::Read {
            keepalive: s.keyboard.state.connected && !s.upload.active,
        }),
        s.keyboard.state.connected && !s.upload.active ==> {
            let ticking = s.next(SessionInput::Quiet);
            let after = ticking.next(
                SessionInput::Keyboard(KeyboardInput::Device { ok, device }),
            );
            &&& ticking.asks() == SessionRequest::Keyboard(KeyboardAction::Tick)
            &&& after.phase is Reading
            &&& after.keyboard.state.device == device
            &&& after.keyboard.state.paired == s.keyboard.state.paired
            &&& after.keyboard.state.connected == s.keyboard.state.connected
            &&& after.keyboard.state.held_frames == s.keyboard.state.held_frames
            &&& after.keyboard.phase == s.keyboard.phase
            &&& after.keyboard.channels == s.keyboard.channels
            &&& after.line == s.line
            &&& after.upload == s.upload
        },
        s.next(SessionInput::Lost).asks() is WaitConnection,
        s.next(SessionInput::Lost).keyboard == s.keyboard,
{
}

/// The bootloader's word is passed on: its state is told to the host as it is,
/// and only a swap that it has taken note of is followed by a reset, which is
/// announced and given 100 ms.
pub proof fn bootloader_is_heeded(s: SessionModel, state: Option<BootState>, ok: bool)
    ensures
        s.phase is Asking ==> s.asks() is ReadBootState && s.next(
            SessionInput::State(state),
        ).asks() == SessionRequest::Reply(Reply::Info(state)),
        s.phase is Marking ==> s.asks() is MarkUpdated && s.next(SessionInput::Marked(ok)).asks()
            == SessionRequest::Reply(
            if ok {
                Reply::Reboot
            } else {
                Reply::ErrMark
            },
        ),
        s.phase is Announcing ==> s.asks() == SessionRequest::Reply(Reply::Reboot) && s.next(
            SessionInput::Done,
        ).asks() == (SessionRequest::Sleep { ms: 100 }) && s.next(SessionInput::Done).next(
            SessionInput::Done,
        ).asks() is Reset,
{
}

/// A packet that comes during an upload goes to the upload, whatever it holds,
/// and what the upload asks for is requested and its outcome handed back to it.
pub proof fn uploads_are_served(s: SessionModel, packet: ByteBuf<PACKET_LEN>, ok: bool)
    ensures
        s.phase is Reading && s.upload.active ==> {
            let after = s.next(SessionInput::Packet(packet));
            &&& after.upload == s.upload.packet(packet@)
            &&& after.keyboard == s.keyboard
            &&& after.line == s.line
            &&& after.phase is Reading <==> after.upload.phase is Waiting
        },
        s.phase is Uploading && s.upload.asks() is Write ==> {
            let after = s.next(SessionInput::Written(ok));
            &&& s.asks() == (SessionRequest::Write {
                offset: s.upload.asks()->offset,
                bytes: s.upload.asks()->bytes,
            })
            &&& after.upload == s.upload.next(ok)
            &&& after.keyboard == s.keyboard
            &&& after.phase is Reading <==> after.upload.phase is Waiting
        },
        s.phase is Uploading && s.upload.asks() is Reply ==> {
            let after = s.next(SessionInput::Done);
            &&& s.asks() == SessionRequest::Reply(s.upload.asks()->Reply_0)
            &&& after.upload == s.upload.next(true)
            &&& after.keyboard == s.keyboard
            &&& after.phase is Reading <==> after.upload.phase is Waiting
        },
{
}

// Updates.

/// A session with what has happened to the update partition since an image was
/// last announced.
pub struct SessionHistory {
    pub session: SessionModel,
    /// The size that the last line that announced an image spelled.
    pub announced: int,
    /// The bytes of the image that have come.
    pub stream: Seq<u8>,
    /// The update partition, as far as it has been written.
    pub flash: Seq<u8>,
    /// Each write began where the one before it had ended.
    pub contiguous: bool,
}

impl SessionHistory {
    /// The history of the upload.
    pub open spec fn upload(self) -> UploadHistory {
        UploadHistory {
            upload: self.session.upload,
            stream: self.stream,
            flash: self.flash,
            contiguous: self.contiguous,
        }
    }

    /// The history with one more input.
    pub open spec fn with(self, input: SessionInput) -> SessionHistory {
        let session = self.session.next(input);
        match (self.session.asks(), input) {
            (SessionRequest::Read { .. }, SessionInput::Packet(packet)) if self.session.upload.active => SessionHistory {
                session,
                stream: self.stream + packet@,
                ..self
            },
            (
                SessionRequest::Write { offset, bytes },
                SessionInput::Written(true),
            ) => SessionHistory {
                session,
                flash: self.flash + bytes,
                contiguous: self.contiguous && offset == self.flash.len(),
                ..self
            },
            _ => match announcement(self.session, input) {
                Some(size) => SessionHistory {
                    session,
                    announced: size,
                    stream: Seq::empty(),
                    flash: Seq::empty(),
                    contiguous: true,
                },
                None => SessionHistory { session, ..self },
            },
        }
    }
}

/// The size of the image that is announced by the line taken up with this input,
/// if it announces one.
pub open spec fn announcement(s: SessionModel, input: SessionInput) -> Option<int> {
    match line_taken(s, input) {
        Some(line) => match ota_command(line) {
            Some(OtaCommand::Write(size)) => if 1 <= size <= 491_520 {
                Some(size as int)
            } else {
                None
            },
            _ => None,
        },
        None => None,
    }
}

/// The history of a session after a row of inputs.
pub open spec fn session_history(start: SessionModel, inputs: Seq<SessionInput>) -> SessionHistory
    decreases inputs.len(),
{
    if inputs.len() == 0 {
        SessionHistory {
            session: start,
            announced: 0,
            stream: Seq::empty(),
            flash: Seq::empty(),
            contiguous: true,
        }
    } else {
        session_history(start, inputs.drop_last()).with(inputs.last())
    }
}

/// Each input answers what was requested.
pub open spec fn session_answered(start: SessionModel, inputs: Seq<SessionInput>) -> bool
    decreases inputs.len(),
{
    inputs.len() == 0 || (session_answered(start, inputs.drop_last()) && answers(
        session_history(start, inputs.drop_last()).session.asks(),
        inputs.last(),
    ))
}

spec fn in_order(h: SessionHistory) -> bool {
    &&& h.session.upload.wf()
    &&& upload_in_order(h.upload(), h.session.upload.size)
    &&& h.session.phase is Uploading <==> h.session.upload.phase !is Waiting
    &&& h.session.phase is Marking ==> h.session.upload.image_ready
    &&& h.session.upload.active || h.session.upload.image_ready ==> h.session.upload.size
        == h.announced && 1 <= h.announced <= 491_520
}

proof fn resumed_in_order(h: SessionHistory, moved: SessionModel)
    requires
        in_order(h),
        moved.upload == h.session.upload,
        moved.upload.phase is Waiting,
    ensures
        ({
            let session = moved.resumed();
            let found = scan(moved.line, moved.rest);
            let after = match ota_command(found.line) {
                Some(OtaCommand::Write(size)) => if found.complete && 1 <= size <= 491_520 {
                    SessionHistory {
                        session,
                        announced: size as int,
                        stream: Seq::empty(),
                        flash: Seq::empty(),
                        contiguous: true,
                    }
                } else {
                    SessionHistory { session, ..h }
                },
                _ => SessionHistory { session, ..h },
            };
            in_order(after)
        }),
{
    let none = Seq::<u8>::empty();
    assert(none + none =~= none);
}

proof fn step_in_order(h: SessionHistory, input: SessionInput)
    requires
        in_order(h),
        answers(h.session.asks(), input),
    ensures
        in_order(h.with(input)),
{
    let s = h.session;
    let none = Seq::<u8>::empty();
    assert(none + none =~= none);
    match (s.phase, input) {
        (SessionPhase::Reading, SessionInput::Packet(packet)) => {
            if s.upload.active {
                upload_keeps_order(h.upload(), s.upload.size, UploadEvent::Packet(packet@));
            } else {
                resumed_in_order(h, SessionModel { rest: packet@, ..s });
            }
        },
        (SessionPhase::Uploading, SessionInput::Written(ok)) => {
            upload_keeps_order(h.upload(), s.upload.size, UploadEvent::Answer(ok));
        },
        (SessionPhase::Uploading, SessionInput::Done) => {
            upload_keeps_order(h.upload(), s.upload.size, UploadEvent::Answer(true));
        },
        (SessionPhase::Running, SessionInput::Keyboard(answer)) => {
            let keyboard = s.keyboard.next(s.line, answer);
            resumed_in_order(h, SessionModel { keyboard, line: Seq::empty(), ..s });
        },
        (SessionPhase::Saying(_), SessionInput::Done) => {
            resumed_in_order(h, s);
        },
        _ => {},
    }
}

proof fn history_in_order(start: SessionModel, inputs: Seq<SessionInput>)
    requires
        start.phase is Connecting,
        start.upload == UploadModel::none(),
        session_answered(start, inputs),
    ensures
        in_order(session_history(start, inputs)),
    decreases inputs.len(),
{
    if inputs.len() > 0 {
        history_in_order(start, inputs.drop_last());
        step_in_order(session_history(start, inputs.drop_last()), inputs.last());
    } else {
        let none = Seq::<u8>::empty();
        assert(none + none =~= none);
    }
}

/// The bootloader is told to swap an image in only if at least as many bytes as
/// the last line that announced an image spelled have come since and been
/// written: the partition then holds the image, filled up with `0xFF` to a whole
/// number of words.
pub proof fn boots_whole_images(start: SessionModel, inputs: Seq<SessionInput>)
    requires
        start.phase is Connecting,
        start.upload == UploadModel::none(),
        session_answered(start, inputs),
        session_history(start, inputs).session.asks() is MarkUpdated,
    ensures
        ({
            let h = session_history(start, inputs);
            &&& h.contiguous
            &&& 1 <= h.announced <= 491_520
            &&& h.stream.len() >= h.announced
            &&& h.stream.len() >= h.session.upload.size
            &&& h.flash == padded(h.stream)
        }),
{
    history_in_order(start, inputs);
}

/// In no session is there ever a connection without a pairing.
pub proof fn session_stays_linked(start: SessionModel, inputs: Seq<SessionInput>)
    requires
        linked(start.keyboard),
    ensures
        linked(session_history(start, inputs).session.keyboard),
    decreases inputs.len(),
{
    if inputs.len() > 0 {
        session_stays_linked(start, inputs.drop_last());
        let s = session_history(start, inputs.drop_last()).session;
        match (s.phase, inputs.last()) {
            (SessionPhase::Reading, SessionInput::Packet(packet)) => {
                connection_needs_pairing(
                    s.keyboard,
                    scan(s.line, packet@).line,
                    KeyboardInput::Done,
                );
            },
            (SessionPhase::Running, SessionInput::Keyboard(answer)) => {
                connection_needs_pairing(s.keyboard, s.line, answer);
                connection_needs_pairing(
                    s.keyboard.next(s.line, answer),
                    scan(Seq::empty(), s.rest).line,
                    answer,
                );
            },
            (SessionPhase::Saying(_), SessionInput::Done) => {
                connection_needs_pairing(
                    s.keyboard,
                    scan(s.line, s.rest).line,
                    KeyboardInput::Done,
                );
            },
            _ => {},
        }
    }
}

/// What was requested, in order.
pub open spec fn requested(start: SessionModel, inputs: Seq<SessionInput>) -> Seq<SessionRequest>
    decreases inputs.len(),
{
    if inputs.len() == 0 {
        Seq::empty()
    } else {
        requested(start, inputs.drop_last()).push(
            session_history(start, inputs.drop_last()).session.asks(),
        )
    }
}

proof fn reset_prepared(start: SessionModel, inputs: Seq<SessionInput>)
    requires
        start.phase is Connecting,
        session_answered(start, inputs),
    ensures
        ({
            let asked = requested(start, inputs);
            let n = asked.len();
            &&& n == inputs.len()
            &&& match session_history(start, inputs).session.phase {
                SessionPhase::Resting => n >= 1 && asked[n - 1] == SessionRequest::Reply(
                    Reply::Reboot,
                ),
                SessionPhase::Resetting => n >= 2 && asked[n - 1] == (SessionRequest::Sleep {
                    ms: RESET_REST_MS,
                }) && asked[n - 2] == SessionRequest::Reply(Reply::Reboot),
                _ => true,
            }
        }),
    decreases inputs.len(),
{
    if inputs.len() > 0 {
        let earlier = inputs.drop_last();
        reset_prepared(start, earlier);
        reset_step(session_history(start, earlier).session, inputs.last());
    }
}

proof fn reset_step(s: SessionModel, input: SessionInput)
    requires
        answers(s.asks(), input),
    ensures
        s.next(input).phase is Resting ==> s.phase is Announcing,
        s.next(input).phase is Resetting ==> s.phase is Resting,
{
}

/// The device is reset only after it has told the host so and given the reply
/// some time.
pub proof fn reset_is_announced(start: SessionModel, inputs: Seq<SessionInput>)
    requires
        start.phase is Connecting,
        session_answered(start, inputs),
        session_history(start, inputs).session.asks() is Reset,
    ensures
        ({
            let asked = requested(start, inputs);
            let n = asked.len();
            &&& n >= 2
            &&& asked[n - 2] == SessionRequest::Reply(Reply::Reboot)
            &&& asked[n - 1] == (SessionRequest::Sleep { ms: RESET_REST_MS })
        }),
{
    reset_prepared(start, inputs);
}

/// Every update command is answered: at once, or with the bootloader's word.
pub proof fn update_commands_answered(s: SessionModel, command: OtaCommand, input: SessionInput)
    requires
        answers(s.ota(command).asks(), input),
    ensures
        s.ota(command).asks() is Reply || s.ota(command).next(input).asks() is Reply,
{
}

/// A host that connects after another one has gone finds no image, no upload and
/// no begun line of that one, and the keyboard as it was.
pub proof fn new_host_starts_afresh(s: SessionModel)
    requires
        s.phase is Reading,
    ensures
        ({
            let after = s.next(SessionInput::Lost).next(SessionInput::Connected);
            &&& after.phase is Greeting
            &&& after.upload == UploadModel::none()
            &&& after.line.len() == 0
            &&& after.rest.len() == 0
            &&& after.keyboard == s.keyboard
        }),
{
}

} // verus!
