use nrf_unifying::buffer::ByteBuf;
use nrf_unifying::keyboard::{Keyboard, KeyboardAction, KeyboardInput};
use nrf_unifying::replies::{BootState, Reply};
use nrf_unifying::session::{Session, SessionAction, SessionInput};
use nrf_unifying::state::UnifyingState;

/// A host and a board around a session.
struct Board {
    session: Session,
    flash: Vec<u8>,
    flash_works: bool,
    marks: bool,
    marked: bool,
    reset: bool,
    ticks: usize,
    slept: Vec<u64>,
    replies: Vec<Reply>,
}

impl Board {
    fn new(connected: bool) -> Board {
        let mut state = UnifyingState::new(5);
        state.paired = connected;
        state.connected = connected;
        Board {
            session: Session::new(Keyboard::new(state, ByteBuf::from_slice(&[62, 8]))),
            flash: Vec::new(),
            flash_works: true,
            marks: true,
            marked: false,
            reset: false,
            ticks: 0,
            slept: Vec::new(),
            replies: Vec::new(),
        }
    }

    /// Acts until the session waits for the host.
    fn settle(&mut self) {
        loop {
            let input = match self.session.action() {
                SessionAction::WaitConnection => return,
                SessionAction::Read { .. } => return,
                SessionAction::Keyboard(action) => SessionInput::Keyboard(self.keyboard(action)),
                SessionAction::Write { offset, bytes } => {
                    if self.flash_works {
                        assert_eq!(offset, self.flash.len());
                        self.flash.extend_from_slice(bytes.as_slice());
                    }
                    SessionInput::Written(self.flash_works)
                }
                SessionAction::ReadBootState => SessionInput::State(Some(BootState::Boot)),
                SessionAction::MarkUpdated => {
                    self.marked = self.marks;
                    SessionInput::Marked(self.marks)
                }
                SessionAction::Reply(reply) => {
                    self.replies.push(reply);
                    SessionInput::Done
                }
                SessionAction::Sleep { ms } => {
                    self.slept.push(ms);
                    SessionInput::Done
                }
                SessionAction::Reset => {
                    self.reset = true;
                    return;
                }
            };
            self.session.step(&input);
        }
    }

    fn keyboard(&mut self, action: KeyboardAction) -> KeyboardInput {
        match action {
            KeyboardAction::Tick => {
                self.ticks += 1;
                KeyboardInput::Device { ok: true, device: self.session.keyboard.state.device }
            }
            KeyboardAction::SendReport(_) => {
                KeyboardInput::Device { ok: true, device: self.session.keyboard.state.device }
            }
            KeyboardAction::Reply(reply) => {
                self.replies.push(reply);
                KeyboardInput::Done
            }
            _ => KeyboardInput::Done,
        }
    }

    fn connect(&mut self) {
        assert!(matches!(self.session.action(), SessionAction::WaitConnection));
        self.session.step(&SessionInput::Connected);
        self.settle();
        assert_eq!(self.take(), vec![Reply::Banner]);
    }

    fn send(&mut self, bytes: &[u8]) {
        for packet in bytes.chunks(64) {
            assert!(matches!(self.session.action(), SessionAction::Read { .. }));
            self.session.step(&SessionInput::Packet(ByteBuf::from_slice(packet)));
            self.settle();
        }
    }

    fn take(&mut self) -> Vec<Reply> {
        let replies = self.replies.clone();
        self.replies.clear();
        replies
    }
}

#[test]
fn greets_and_answers() {
    let mut b = Board::new(false);
    b.connect();
    b.send(b"PING\r\nINFO\nVER\n");
    assert_eq!(b.take(), vec![Reply::Pong, Reply::Info(Some(BootState::Boot)), Reply::Version]);
    b.send(b"\r\n\n\n");
    assert_eq!(b.take(), vec![]);
    b.send(b"what\n");
    assert_eq!(b.take(), vec![Reply::Commands]);
}

#[test]
fn lines_span_packets() {
    let mut b = Board::new(false);
    b.connect();
    b.send(b"PI");
    b.send(b"NG");
    assert_eq!(b.take(), vec![]);
    b.send(b"\r");
    b.send(b"\nPING\nPI");
    assert_eq!(b.take(), vec![Reply::Pong, Reply::Pong]);
    b.send(b"NG\n");
    assert_eq!(b.take(), vec![Reply::Pong]);
}

#[test]
fn long_lines_are_cut() {
    let mut b = Board::new(true);
    b.connect();
    let mut line = b"UTYPE ".to_vec();
    line.extend(vec![b'a'; 300]);
    line.push(b'\n');
    b.send(&line);
    assert_eq!(b.take(), vec![Reply::Typed { ok: 250, total: 250 }]);
    b.send(b"PING\n");
    assert_eq!(b.take(), vec![Reply::Pong]);
}

#[test]
fn firmware_update() {
    let mut b = Board::new(false);
    b.connect();
    let image: Vec<u8> = (0..1001).map(|i| (i % 251) as u8).collect();
    b.send(b"BOOT\n");
    assert_eq!(b.take(), vec![Reply::ErrNoImage]);
    b.send(b"WRITE 1001\n");
    assert_eq!(b.take(), vec![Reply::Ready]);
    b.send(&image);
    assert_eq!(b.take(), vec![Reply::Done]);
    assert_eq!(&b.flash[..1001], &image[..]);
    assert_eq!(&b.flash[1001..], &[0xff; 3]);
    b.send(b"BOOT\n");
    assert_eq!(b.take(), vec![Reply::Reboot]);
    assert!(b.marked && b.reset);
    assert_eq!(b.slept, vec![100]);
}

#[test]
fn update_errors() {
    let mut b = Board::new(false);
    b.connect();
    b.send(b"WRITE 0\nWRITE 491521\nWRITE x\n");
    assert_eq!(b.take(), vec![Reply::ErrSize, Reply::ErrSize, Reply::Commands]);
    b.send(b"WRITE 491520\n");
    assert_eq!(b.take(), vec![Reply::Ready]);
    b.flash_works = false;
    b.send(&[0u8; 64]);
    assert_eq!(b.take(), vec![Reply::ErrWrite]);
    b.send(b"BOOT\n");
    assert_eq!(b.take(), vec![Reply::ErrNoImage]);
    b.flash_works = true;
    b.send(b"WRITE 4\n");
    b.send(&[1, 2, 3, 4]);
    b.marks = false;
    b.send(b"BOOT\n");
    assert_eq!(b.take(), vec![Reply::Ready, Reply::Done, Reply::ErrMark]);
    b.send(b"ABORT\nBOOT\n");
    assert_eq!(b.take(), vec![Reply::Aborted, Reply::ErrNoImage]);
    assert!(!b.reset);
}

#[test]
fn text_behind_write_is_still_text() {
    let mut b = Board::new(false);
    b.connect();
    b.send(b"WRITE 8\nABORT\nPING\n");
    assert_eq!(b.take(), vec![Reply::Ready, Reply::Aborted, Reply::Pong]);
    b.send(b"PING\n");
    assert_eq!(b.take(), vec![Reply::Pong]);
}

#[test]
fn reboot_resets() {
    let mut b = Board::new(false);
    b.connect();
    b.send(b"REBOOT\n");
    assert_eq!(b.take(), vec![Reply::Reboot]);
    assert!(b.reset && !b.marked);
    assert_eq!(b.slept, vec![100]);
}

#[test]
fn keeps_the_link_alive() {
    let mut b = Board::new(true);
    b.connect();
    assert!(matches!(b.session.action(), SessionAction::Read { keepalive: true }));
    b.session.step(&SessionInput::Quiet);
    b.settle();
    assert_eq!(b.ticks, 1);
    b.send(b"WRITE 100\n");
    assert!(matches!(b.session.action(), SessionAction::Read { keepalive: false }));
    b.session.step(&SessionInput::Quiet);
    b.settle();
    assert_eq!(b.ticks, 1);
    let mut b = Board::new(false);
    b.connect();
    assert!(matches!(b.session.action(), SessionAction::Read { keepalive: false }));
}

#[test]
fn new_host_starts_afresh() {
    let mut b = Board::new(true);
    b.connect();
    b.send(b"WRITE 4\n");
    b.send(&[1, 2, 3, 4]);
    b.send(b"BOO");
    b.take();
    b.session.step(&SessionInput::Lost);
    b.connect();
    b.send(b"T\nBOOT\n");
    assert_eq!(b.take(), vec![Reply::Commands, Reply::ErrNoImage]);
    assert!(b.session.keyboard.state.connected);
}
