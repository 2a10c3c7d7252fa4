use nrf_unifying::buffer::ByteBuf;
use nrf_unifying::keyboard::{Keyboard, KeyboardAction, KeyboardInput};
use nrf_unifying::replies::Reply;
use nrf_unifying::state::{Device, KeyReport, PairingParams, UnifyingState};
use nrf_unifying::keyboard_laws::MAX_ACTIONS;
use nrf_unifying::storage::{
    load, save, FlashAction, FlashInput, Profile, RECORD_SIZE, SLOTS, STORAGE_BASE,
};

/// A device and a receiver that fail as told.
struct World {
    device: Device,
    radio_works: bool,
    /// The attempt at which pairing or connecting succeeds.
    succeeds_at: usize,
    /// Whether reports are acknowledged.
    reachable: bool,
    probes: Vec<(u8, u8)>,
    encoding: u8,
    actions: Vec<KeyboardAction>,
}

impl World {
    fn new(keyboard: &Keyboard) -> World {
        World {
            device: keyboard.state.device,
            radio_works: true,
            succeeds_at: 1,
            reachable: true,
            probes: Vec::new(),
            encoding: 0,
            actions: Vec::new(),
        }
    }

    fn perform(&mut self, action: KeyboardAction) -> KeyboardInput {
        self.actions.push(action);
        match action {
            KeyboardAction::ConfigureRadio => {
                KeyboardInput::Device { ok: self.radio_works, device: self.device }
            }
            KeyboardAction::SelectEncoding { encoding, address } => {
                assert_eq!(address, [0xBB, 0x0A, 0xDC, 0xA5, 0x75]);
                self.encoding = encoding;
                KeyboardInput::Done
            }
            KeyboardAction::Probe { channel, payload } => {
                assert_eq!(payload, [0x00, 0x4F, 0x00, 0x00, 0xB1]);
                self.probes.push((self.encoding, channel));
                KeyboardInput::Acknowledged(self.encoding == 1)
            }
            KeyboardAction::ReadTicks => KeyboardInput::Ticks(0x1_0000_0042),
            KeyboardAction::Pair(_) => {
                let tries = self.count(|a| matches!(a, KeyboardAction::Pair(_)));
                if tries == self.succeeds_at {
                    self.device = Device {
                        address: [0x3d, 0x41, 0x95, 0x0e, 0x0c],
                        aes_key: [9; 16],
                        aes_counter: 0,
                        channel: 32,
                    };
                }
                KeyboardInput::Device { ok: tries == self.succeeds_at, device: self.device }
            }
            KeyboardAction::Connect => {
                let tries = self.count(|a| matches!(a, KeyboardAction::Connect));
                self.device.channel = 8;
                KeyboardInput::Device { ok: tries == self.succeeds_at, device: self.device }
            }
            KeyboardAction::Tick => KeyboardInput::Device { ok: true, device: self.device },
            KeyboardAction::SendReport(_) => {
                self.device.aes_counter += 1;
                KeyboardInput::Device { ok: self.reachable, device: self.device }
            }
            _ => KeyboardInput::Done,
        }
    }

    fn count(&self, which: fn(&KeyboardAction) -> bool) -> usize {
        self.actions.iter().filter(|a| which(a)).count()
    }

    fn replies(&self) -> Vec<Reply> {
        let mut replies = Vec::new();
        for a in &self.actions {
            if let KeyboardAction::Reply(r) = a {
                replies.push(*r);
            }
        }
        replies
    }

    fn saved(&self) -> Vec<Profile> {
        let mut saved = Vec::new();
        for a in &self.actions {
            if let KeyboardAction::Save(p) = a {
                saved.push(*p);
            }
        }
        saved
    }

    fn reports(&self) -> Vec<KeyReport> {
        let mut reports = Vec::new();
        for a in &self.actions {
            if let KeyboardAction::SendReport(r) = a {
                reports.push(*r);
            }
        }
        reports
    }

    fn run(&mut self, keyboard: &mut Keyboard, line: &[u8]) {
        self.actions.clear();
        keyboard.begin(line);
        while keyboard.action() != KeyboardAction::Finished {
            let input = self.perform(keyboard.action());
            keyboard.step(line, &input);
        }
    }
}

fn keyboard(paired: bool, connected: bool) -> Keyboard {
    let state = UnifyingState {
        device: Device { address: [1, 2, 3, 4, 5], aes_key: [6; 16], aes_counter: 26, channel: 62 },
        paired,
        connected,
        held_frames: 0,
    };
    Keyboard::new(state, ByteBuf::from_slice(&[62, 8, 35]))
}

#[test]
fn status_and_version() {
    let mut k = keyboard(true, true);
    let mut w = World::new(&k);
    w.run(&mut k, b"USTATUS");
    assert_eq!(
        w.replies(),
        vec![Reply::Status { paired: true, connected: true, channel: 62, counter: 26 }]
    );
    w.run(&mut k, b"VER");
    assert_eq!(w.replies(), vec![Reply::Version]);
    w.run(&mut k, b"nonsense");
    assert_eq!(w.replies(), vec![Reply::Commands]);
    w.run(&mut k, b"");
    assert!(w.actions.is_empty());
}

#[test]
fn refusals_do_nothing_else() {
    let mut k = keyboard(false, false);
    let before = k.state;
    let mut w = World::new(&k);
    let cases: [(&[u8], Reply); 5] = [
        (b"UCONNECT", Reply::ErrNotPaired),
        (b"UKEEPALIVE", Reply::ErrNotConn),
        (b"UTYPE hi", Reply::ErrNotConn),
        (b"UKEY zz", Reply::ErrNotConn),
        (b"UKEYDOWN 00", Reply::ErrNotConn),
    ];
    for (line, reply) in cases {
        w.run(&mut k, line);
        assert_eq!(w.actions, vec![KeyboardAction::Reply(reply)]);
        assert_eq!(k.state, before);
    }
    let mut k = keyboard(true, true);
    let before = k.state;
    for line in [&b"UKEY zz"[..], b"UKEY ", b"UKEY 1 2 3 4 5 6 7 8", b"UKEYDOWN 100"] {
        w.run(&mut k, line);
        assert_eq!(w.actions, vec![KeyboardAction::Reply(Reply::ErrArg)]);
        assert_eq!(k.state, before);
    }
}

#[test]
fn pairing() {
    let mut k = keyboard(false, false);
    let mut w = World::new(&k);
    w.succeeds_at = 3;
    w.run(&mut k, b"UPAIR");
    assert_eq!(
        w.replies(),
        vec![Reply::Paired { address: [0x3d, 0x41, 0x95, 0x0e, 0x0c], channel: 32 }]
    );
    assert!(k.state.paired && k.state.connected);
    assert_eq!(w.saved(), vec![k.state.current_profile()]);
    let params = PairingParams::from_ticks(0x1_0000_0042, 0x1_0000_0042);
    assert_eq!(params.id, 0x43);
    assert_eq!(params.crypto, 0x42);
    let tries = w.count(|a| matches!(a, KeyboardAction::Pair(_)));
    assert_eq!(tries, 3);
    assert!(w.actions.contains(&KeyboardAction::Pair(params)));
    assert_eq!(w.count(|a| *a == KeyboardAction::Sleep { ms: 20 }), 2);
}

#[test]
fn pairing_fails() {
    let mut k = keyboard(false, false);
    let mut w = World::new(&k);
    w.succeeds_at = 9;
    w.run(&mut k, b"UPAIR");
    assert_eq!(w.replies(), vec![Reply::ErrPair]);
    assert_eq!(w.count(|a| matches!(a, KeyboardAction::Pair(_))), 8);
    assert_eq!(w.count(|a| *a == KeyboardAction::Sleep { ms: 20 }), 8);
    assert!(!k.state.paired && !k.state.connected);
    assert!(w.saved().is_empty());
    w.radio_works = false;
    w.run(&mut k, b"UPAIR");
    assert_eq!(w.replies(), vec![Reply::ErrRadio]);
}

#[test]
fn connecting() {
    let mut k = keyboard(true, false);
    let mut w = World::new(&k);
    w.succeeds_at = 60;
    w.run(&mut k, b"UCONNECT");
    assert_eq!(w.replies(), vec![Reply::Connected { channel: 8 }]);
    assert!(k.state.connected);
    assert_eq!(w.count(|a| *a == KeyboardAction::Connect), 60);

    let mut k = keyboard(true, false);
    w.succeeds_at = 61;
    w.run(&mut k, b"UCONNECT");
    assert_eq!(w.replies(), vec![Reply::ErrConnect]);
    assert!(!k.state.connected);
    assert_eq!(w.count(|a| *a == KeyboardAction::Connect), 60);
    w.radio_works = false;
    w.run(&mut k, b"UCONNECT");
    assert_eq!(w.replies(), vec![Reply::ErrRadio]);
}

#[test]
fn typing_text() {
    let mut k = keyboard(true, true);
    let mut w = World::new(&k);
    w.run(&mut k, b"UTYPE hello world");
    assert_eq!(w.replies(), vec![Reply::Typed { ok: 11, total: 11 }]);
    assert_eq!(w.count(|a| *a == KeyboardAction::Tick), 5);
    assert_eq!(w.count(|a| *a == KeyboardAction::Sleep { ms: 1 }), 11);
    assert_eq!(w.reports().len(), 22);
    assert_eq!(w.reports()[0], KeyReport::press(0x0b, false));
    assert_eq!(w.reports()[1], KeyReport::release());
    assert_eq!(k.state.device.aes_counter, 26 + 22);
    assert_eq!(w.saved(), vec![k.state.current_profile()]);
    assert_eq!(w.actions.last(), Some(&KeyboardAction::Save(k.state.current_profile())));
    w.run(&mut k, b"UTYPE Hello, World!");
    assert_eq!(w.replies(), vec![Reply::Typed { ok: 13, total: 13 }]);
}

#[test]
fn typing_skips_what_no_key_types() {
    let mut k = keyboard(false, true);
    let mut w = World::new(&k);
    w.run(&mut k, b"UTYPE a\x80b");
    assert_eq!(w.replies(), vec![Reply::Typed { ok: 2, total: 2 }]);
    assert_eq!(w.count(|a| *a == KeyboardAction::Sleep { ms: 1 }), 3);
    assert!(w.saved().is_empty());
    w.run(&mut k, b"UTYPE ");
    assert_eq!(w.replies(), vec![Reply::Typed { ok: 0, total: 0 }]);
    w.reachable = false;
    w.run(&mut k, b"UTYPE ab");
    assert_eq!(w.replies(), vec![Reply::Typed { ok: 0, total: 2 }]);
}

#[test]
fn key_with_release() {
    let mut k = keyboard(true, true);
    let mut w = World::new(&k);
    w.run(&mut k, b"UKEY 05 4C");
    let report = KeyReport { modifier: 0x05, keys: [0x4c, 0, 0, 0, 0, 0] };
    assert_eq!(w.replies(), vec![Reply::Done]);
    assert_eq!(w.reports(), vec![report, KeyReport::release()]);
    assert_eq!(w.saved(), vec![k.state.current_profile()]);
    assert_eq!(w.actions.last(), Some(&KeyboardAction::Reply(Reply::Done)));
    w.reachable = false;
    w.run(&mut k, b"UKEY 05 4C");
    assert_eq!(w.replies(), vec![Reply::ErrSend]);
    assert_eq!(w.reports().len(), 40);
    assert_eq!(w.saved(), vec![k.state.current_profile()]);
}

#[test]
fn held_keys() {
    let mut k = keyboard(true, true);
    let mut w = World::new(&k);
    w.run(&mut k, b"UKEYDOWN 00 04");
    assert_eq!(w.reports(), vec![KeyReport::press(0x04, false)]);
    assert_eq!(w.replies(), vec![Reply::Done]);
    w.run(&mut k, b"UKEYDOWN 00");
    assert_eq!(w.reports(), vec![KeyReport::release()]);
    assert!(w.saved().is_empty());
    for frame in 3..=256 {
        w.run(&mut k, b"UKEYDOWN 02 04");
        if frame % 128 == 0 {
            assert_eq!(w.saved(), vec![k.state.current_profile()]);
        } else {
            assert!(w.saved().is_empty());
        }
    }
    w.reachable = false;
    w.run(&mut k, b"UKEYDOWN 02 04");
    assert_eq!(w.replies(), vec![Reply::ErrSend]);
}

#[test]
fn keep_alive_and_delete() {
    let mut k = keyboard(true, true);
    let mut w = World::new(&k);
    w.run(&mut k, b"UKEEPALIVE");
    assert_eq!(
        w.actions,
        vec![KeyboardAction::Tick, KeyboardAction::Reply(Reply::Tick)]
    );
    w.run(&mut k, b"UDELETE");
    assert_eq!(
        w.actions,
        vec![KeyboardAction::Clear, KeyboardAction::Reply(Reply::Deleted)]
    );
    assert!(!k.state.paired && !k.state.connected);
}

#[test]
fn radio_test() {
    let mut k = keyboard(false, false);
    let mut w = World::new(&k);
    w.run(&mut k, b"URADIOTEST");
    assert_eq!(
        w.replies(),
        vec![
            Reply::RadioTest { encoding: 0, acks: 0 },
            Reply::RadioTest { encoding: 1, acks: 9 },
            Reply::RadioTest { encoding: 2, acks: 0 },
            Reply::RadioTest { encoding: 3, acks: 0 },
            Reply::RadioTestDone,
        ]
    );
    assert_eq!(w.probes.len(), 36);
    assert_eq!(&w.probes[..4], &[(0, 62), (0, 8), (0, 35), (0, 62)]);
    assert_eq!(w.count(|a| *a == KeyboardAction::Sleep { ms: 2 }), 12);
    w.radio_works = false;
    w.run(&mut k, b"URADIOTEST");
    assert_eq!(w.replies(), vec![Reply::ErrRadio]);
    let mut k = Keyboard::new(k.state, ByteBuf::new());
    w.radio_works = true;
    w.run(&mut k, b"URADIOTEST");
    assert_eq!(w.replies().len(), 5);
}

#[test]
fn wrong_answers_change_nothing() {
    let mut k = keyboard(true, true);
    k.begin(b"UPAIR");
    let phase = k.phase;
    k.step(b"UPAIR", &KeyboardInput::Done);
    assert_eq!(k.phase, phase);
    k.step(b"UPAIR", &KeyboardInput::Acknowledged(true));
    assert_eq!(k.phase, phase);
}

#[test]
fn longest_command_ends() {
    let mut k = keyboard(true, true);
    let mut w = World::new(&k);
    w.reachable = false;
    let mut line = b"UTYPE ".to_vec();
    line.extend(vec![b'a'; 250]);
    w.run(&mut k, &line);
    assert_eq!(w.replies(), vec![Reply::Typed { ok: 0, total: 250 }]);
    assert_eq!(w.actions.len(), 5 + 250 * 81 + 2);
    assert!(w.actions.len() <= MAX_ACTIONS);
}

#[test]
fn counter_survives_a_reset() {
    let mut k = keyboard(true, true);
    let mut w = World::new(&k);
    w.run(&mut k, b"UTYPE hello");
    let mut page: Vec<[u8; RECORD_SIZE]> = vec![[0xff; RECORD_SIZE]; SLOTS as usize];
    let slot = |offset: u32| (offset - STORAGE_BASE) as usize / RECORD_SIZE;
    let mut job = save(&w.saved()[0]);
    loop {
        match job.action() {
            FlashAction::Read { offset } => {
                job.step(&FlashInput::Record(Some(page[slot(offset)])))
            }
            FlashAction::Write { offset, record } => {
                page[slot(offset)] = record;
                job.step(&FlashInput::Completed(true));
            }
            FlashAction::Erase { .. } => panic!("the page is not full"),
            FlashAction::Finished => break,
        }
    }
    let mut job = load();
    while let FlashAction::Read { offset } = job.action() {
        job.step(&FlashInput::Record(Some(page[slot(offset)])));
    }
    let restored = UnifyingState::restored(5, job.profile());
    assert_eq!(restored.device, k.state.device);
    assert_eq!(restored.device.aes_counter, 36);
    assert!(restored.paired && !restored.connected);
}
