//! Sending one keyboard report, with retries.

use crate::keymap::char_to_hid;
use crate::state::KeyReport;
use vstd::prelude::*;

verus! {

use crate::keymap::hid_key;

/// Attempts at sending a report before it is given up.
pub const SEND_ATTEMPTS: u8 = 20;

/// What a stroke wants done next.
#[derive(Clone, Copy, Debug, PartialEq, Eq)]
pub enum StrokeAction {
    /// Encrypt the report, transmit it, and say whether it was acknowledged.
    Send(KeyReport),
    /// Let the device send a keep-alive if one is due.
    Tick,
    /// Nothing more.
    Over,
}

/// Where a stroke stands.
#[derive(Clone, Copy, Debug, PartialEq, Eq)]
pub enum StrokePhase {
    /// The press is to be sent, after that many failures.
    Press { failures: u8 },
    /// The press has just failed.
    PressFailed { failures: u8 },
    /// The release is to be sent, after that many failures.
    Release { failures: u8 },
    /// The release has just failed.
    ReleaseFailed { failures: u8 },
    /// The end.
    Over,
}

/// A key press, followed by the release of all keys or not.
#[derive(Clone, Copy, Debug, PartialEq, Eq)]
pub struct Stroke {
    pub report: KeyReport,
    pub release: bool,
    pub pressed: bool,
    pub phase: StrokePhase,
}

impl Stroke {
    /// A stroke that has yet to begin.
    pub open spec fn starting(report: KeyReport, release: bool) -> Stroke {
        Stroke { report, release, pressed: false, phase: StrokePhase::Press { failures: 0 } }
    }

    /// What comes when the press is done with.
    pub open spec fn pressed_phase(self) -> StrokePhase {
        if self.release {
            StrokePhase::Release { failures: 0 }
        } else {
            StrokePhase::Over
        }
    }

    /// What the stroke wants done next.
    pub open spec fn asks(self) -> StrokeAction {
        match self.phase {
            StrokePhase::Press { .. } => StrokeAction::Send(self.report),
            StrokePhase::PressFailed { .. } => StrokeAction::Tick,
            StrokePhase::Release { .. } => StrokeAction::Send(KeyReport::released()),
            StrokePhase::ReleaseFailed { .. } => StrokeAction::Tick,
            StrokePhase::Over => StrokeAction::Over,
        }
    }

    /// The stroke once its action has been done, and acknowledged or not. A tick
    /// need not be acknowledged.
    pub open spec fn next(self, acknowledged: bool) -> Stroke {
        match self.phase {
            StrokePhase::Press { failures } => if acknowledged {
                Stroke { pressed: true, phase: self.pressed_phase(), ..self }
            } else {
                Stroke {
                    phase: StrokePhase::PressFailed { failures: (failures + 1) as u8 },
                    ..self
                }
            },
            StrokePhase::PressFailed { failures } => if failures < SEND_ATTEMPTS {
                Stroke { phase: StrokePhase::Press { failures }, ..self }
            } else {
                Stroke { phase: self.pressed_phase(), ..self }
            },
            StrokePhase::Release { failures } => if acknowledged {
                Stroke { phase: StrokePhase::Over, ..self }
            } else {
                Stroke {
                    phase: StrokePhase::ReleaseFailed { failures: (failures + 1) as u8 },
                    ..self
                }
            },
            StrokePhase::ReleaseFailed { failures } => if failures < SEND_ATTEMPTS {
                Stroke { phase: StrokePhase::Release { failures }, ..self }
            } else {
                Stroke { phase: StrokePhase::Over, ..self }
            },
            StrokePhase::Over => self,
        }
    }

    /// No more failures than attempts.
    pub open spec fn wf(self) -> bool {
        match self.phase {
            StrokePhase::Press { failures } => failures < SEND_ATTEMPTS,
            StrokePhase::PressFailed { failures } => 1 <= failures <= SEND_ATTEMPTS,
            StrokePhase::Release { failures } => failures < SEND_ATTEMPTS && self.release,
            StrokePhase::ReleaseFailed { failures } => 1 <= failures <= SEND_ATTEMPTS
                && self.release,
            StrokePhase::Over => true,
        }
    }

    /// Begins a stroke.
    pub fn new(report: KeyReport, release: bool) -> (stroke: Stroke)
        ensures
            stroke == Stroke::starting(report, release),
            stroke.wf(),
    {
        Stroke { report, release, pressed: false, phase: StrokePhase::Press { failures: 0 } }
    }

    fn after_press(&self) -> (phase: StrokePhase)
        ensures
            phase == self.pressed_phase(),
    {
        if self.release {
            StrokePhase::Release { failures: 0 }
        } else {
            StrokePhase::Over
        }
    }

    /// What the stroke wants done next.
    pub fn action(&self) -> (action: StrokeAction)
        ensures
            action == self.asks(),
    {
        match self.phase {
            StrokePhase::Press { .. } => StrokeAction::Send(self.report),
            StrokePhase::PressFailed { .. } => StrokeAction::Tick,
            StrokePhase::Release { .. } => StrokeAction::Send(KeyReport::release()),
            StrokePhase::ReleaseFailed { .. } => StrokeAction::Tick,
            StrokePhase::Over => StrokeAction::Over,
        }
    }

    /// Goes on once the action has been done.
    pub fn step(&mut self, acknowledged: bool)
        requires
            old(self).wf(),
        ensures
            *final(self) == old(self).next(acknowledged),
            final(self).wf(),
    {
        match self.phase {
            StrokePhase::Press { failures } => {
                if acknowledged {
                    self.pressed = true;
                    self.phase = self.after_press();
                } else {
                    self.phase = StrokePhase::PressFailed { failures: failures + 1 };
                }
            },
            StrokePhase::PressFailed { failures } => {
                if failures < SEND_ATTEMPTS {
                    self.phase = StrokePhase::Press { failures };
                } else {
                    self.phase = self.after_press();
                }
            },
            StrokePhase::Release { failures } => {
                if acknowledged {
                    self.phase = StrokePhase::Over;
                } else {
                    self.phase = StrokePhase::ReleaseFailed { failures: failures + 1 };
                }
            },
            StrokePhase::ReleaseFailed { failures } => {
                if failures < SEND_ATTEMPTS {
                    self.phase = StrokePhase::Release { failures };
                } else {
                    self.phase = StrokePhase::Over;
                }
            },
            StrokePhase::Over => {},
        }
    }
}

/// The stroke that types a character, if a key types it.
#[verifier::opaque]
pub open spec fn typing_stroke(c: u8) -> Option<Stroke> {
    match hid_key(c) {
        Some((code, shift)) => Some(Stroke::starting(KeyReport::of_key(code, shift), true)),
        None => None,
    }
}

/// A character is typed by a press that is not empty, followed by its release.
pub proof fn typing_presses(c: u8)
    ensures
        typing_stroke(c) is Some <==> hid_key(c) is Some,
        typing_stroke(c) matches Some(s) ==> s == Stroke::starting(s.report, true) && s.report
            != KeyReport::released(),
{
    reveal(typing_stroke);
    if let Some((code, shift)) = hid_key(c) {
        assert(code != 0);
        assert(KeyReport::of_key(code, shift).keys@[0] == code);
        assert(KeyReport::released().keys@[0] == 0);
    }
}

/// Begins the stroke that types a character, if a key types it.
pub fn type_char(c: u8) -> (stroke: Option<Stroke>)
    ensures
        stroke == typing_stroke(c),
        stroke matches Some(s) ==> s.wf() && s.phase !is Over,
{
    reveal(typing_stroke);
    match char_to_hid(c) {
        Some((code, shift)) => Some(Stroke::new(KeyReport::press(code, shift), true)),
        None => None,
    }
}

// Laws.

/// A bound on the actions that a stroke still wants done.
pub open spec fn stroke_measure(s: Stroke) -> nat {
    match s.phase {
        StrokePhase::Press { failures } => (42 + 2 * (SEND_ATTEMPTS - failures)) as nat,
        StrokePhase::PressFailed { failures } => (43 + 2 * (SEND_ATTEMPTS - failures)) as nat,
        StrokePhase::Release { failures } => (1 + 2 * (SEND_ATTEMPTS - failures)) as nat,
        StrokePhase::ReleaseFailed { failures } => (2 + 2 * (SEND_ATTEMPTS - failures)) as nat,
        StrokePhase::Over => 0,
    }
}

/// Each action brings a stroke nearer to its end.
pub proof fn stroke_ends(s: Stroke, acknowledged: bool)
    requires
        s.wf(),
        s.asks() !is Over,
    ensures
        s.next(acknowledged).wf(),
        stroke_measure(s.next(acknowledged)) < stroke_measure(s),
{
}

/// The reports that a stroke sends, where the report of number `k`, counted from
/// `sent`, is acknowledged if `acks` says so.
pub open spec fn stroke_reports(s: Stroke, acks: spec_fn(nat) -> bool, sent: nat) -> Seq<KeyReport>
    decreases stroke_measure(s),
    when s.wf()
    via stroke_reports_end
{
    match s.asks() {
        StrokeAction::Send(report) => seq![report] + stroke_reports(
            s.next(acks(sent)),
            acks,
            sent + 1,
        ),
        StrokeAction::Tick => stroke_reports(s.next(true), acks, sent),
        StrokeAction::Over => Seq::empty(),
    }
}

#[via_fn]
proof fn stroke_reports_end(s: Stroke, acks: spec_fn(nat) -> bool, sent: nat) {
}

/// How the stroke ends, where the reports are acknowledged as `acks` says.
pub open spec fn stroke_result(s: Stroke, acks: spec_fn(nat) -> bool, sent: nat) -> bool
    decreases stroke_measure(s),
    when s.wf()
    via stroke_result_end
{
    match s.asks() {
        StrokeAction::Send(_) => stroke_result(s.next(acks(sent)), acks, sent + 1),
        StrokeAction::Tick => stroke_result(s.next(true), acks, sent),
        StrokeAction::Over => s.pressed,
    }
}

#[via_fn]
proof fn stroke_result_end(s: Stroke, acks: spec_fn(nat) -> bool, sent: nat) {
}

/// How many of up to `left` attempts are made, the first being of number `from`:
/// all up to the first that is acknowledged.
pub open spec fn attempts(acks: spec_fn(nat) -> bool, from: nat, left: nat) -> nat
    decreases left,
{
    if left == 0 {
        0
    } else if acks(from) {
        1
    } else {
        1 + attempts(acks, from + 1, (left - 1) as nat)
    }
}

/// One of the `left` attempts from number `from` on is acknowledged.
pub open spec fn acknowledged_within(acks: spec_fn(nat) -> bool, from: nat, left: nat) -> bool {
    exists|k: nat| from <= k < from + left && #[trigger] acks(k)
}

/// `n` times the same report.
pub open spec fn repeated(report: KeyReport, n: nat) -> Seq<KeyReport> {
    Seq::new(n, |i: int| report)
}

proof fn release_reports(s: Stroke, acks: spec_fn(nat) -> bool, sent: nat)
    requires
        s.wf(),
        s.phase is Release,
    ensures
        stroke_reports(s, acks, sent) == repeated(
            KeyReport::released(),
            attempts(acks, sent, (SEND_ATTEMPTS - s.phase->Release_failures) as nat),
        ),
        stroke_result(s, acks, sent) == s.pressed,
    decreases stroke_measure(s),
{
    reveal_with_fuel(stroke_reports, 3);
    reveal_with_fuel(stroke_result, 3);
    let left = (SEND_ATTEMPTS - s.phase->Release_failures) as nat;
    let t = s.next(acks(sent));
    if !acks(sent) {
        let u = t.next(true);
        if u.phase is Release {
            release_reports(u, acks, sent + 1);
        } else {
            assert(attempts(acks, sent + 1, 0) == 0);
        }
    }
    assert(stroke_reports(s, acks, sent) =~= repeated(
        KeyReport::released(),
        attempts(acks, sent, left),
    ));
}

proof fn press_reports(s: Stroke, acks: spec_fn(nat) -> bool, sent: nat)
    requires
        s.wf(),
        s.phase is Press,
        !s.pressed,
    ensures
        ({
            let left = (SEND_ATTEMPTS - s.phase->Press_failures) as nat;
            let n = attempts(acks, sent, left);
            let releases = if s.release {
                attempts(acks, sent + n, SEND_ATTEMPTS as nat)
            } else {
                0
            };
            &&& stroke_reports(s, acks, sent) == repeated(s.report, n) + repeated(
                KeyReport::released(),
                releases,
            )
            &&& stroke_result(s, acks, sent) == acknowledged_within(acks, sent, left)
        }),
    decreases stroke_measure(s),
{
    reveal_with_fuel(stroke_reports, 3);
    reveal_with_fuel(stroke_result, 3);
    let left = (SEND_ATTEMPTS - s.phase->Press_failures) as nat;
    let n = attempts(acks, sent, left);
    let releases = if s.release {
        attempts(acks, sent + n, SEND_ATTEMPTS as nat)
    } else {
        0
    };
    let t = s.next(acks(sent));
    if acks(sent) {
        if s.release {
            release_reports(t, acks, sent + 1);
        }
        assert(acknowledged_within(acks, sent, left));
    } else {
        let u = t.next(true);
        if u.phase is Press {
            press_reports(u, acks, sent + 1);
            assert(acknowledged_within(acks, sent, left) == acknowledged_within(
                acks,
                sent + 1,
                (left - 1) as nat,
            ));
        } else {
            assert(attempts(acks, sent + 1, 0) == 0);
            if s.release {
                release_reports(u, acks, sent + 1);
            }
            assert(!acknowledged_within(acks, sent, left));
        }
    }
    assert(stroke_reports(s, acks, sent) =~= repeated(s.report, n) + repeated(
        KeyReport::released(),
        releases,
    ));
}

/// A stroke sends its report until it is acknowledged, at most twenty times, and
/// then, if it is to be released, the empty report likewise. Nothing else is
/// sent, and it succeeds exactly if the press was acknowledged.
pub proof fn stroke_sends(report: KeyReport, release: bool, acks: spec_fn(nat) -> bool)
    ensures
        ({
            let s = Stroke::starting(report, release);
            let presses = attempts(acks, 0, SEND_ATTEMPTS as nat);
            let releases = if release {
                attempts(acks, presses, SEND_ATTEMPTS as nat)
            } else {
                0
            };
            &&& s.wf()
            &&& stroke_reports(s, acks, 0) == repeated(report, presses) + repeated(
                KeyReport::released(),
                releases,
            )
            &&& stroke_result(s, acks, 0) == acknowledged_within(acks, 0, SEND_ATTEMPTS as nat)
            &&& 1 <= presses <= SEND_ATTEMPTS
            &&& releases <= SEND_ATTEMPTS
        }),
{
    let s = Stroke::starting(report, release);
    press_reports(s, acks, 0);
    attempts_bound(acks, 0, SEND_ATTEMPTS as nat);
    attempts_bound(acks, attempts(acks, 0, SEND_ATTEMPTS as nat), SEND_ATTEMPTS as nat);
}

proof fn attempts_bound(acks: spec_fn(nat) -> bool, from: nat, left: nat)
    ensures
        attempts(acks, from, left) <= left,
        left > 0 ==> attempts(acks, from, left) > 0,
    decreases left,
{
    if left > 0 && !acks(from) {
        attempts_bound(acks, from + 1, (left - 1) as nat);
    }
}

} // verus!
