//! What each keyboard command does, action by action, however they go.
//!
//! An event is an action and how it went. The laws say of each command which
//! events it is made of, from its beginning to its end.

use crate::commands::UnifyingCommand;
use crate::keyboard::{Keyboard, KeyboardAction, KeyboardInput, Phase, LINE_LEN};
use crate::keystroke::{Stroke, StrokePhase};
use crate::replies::Reply;
use crate::state::{Device, KeyReport, PairingParams, UnifyingState};
use vstd::prelude::*;

verus! {

use crate::commands::{type_text_follows, unifying_command};
use crate::keyboard::typing;
use crate::keymap::{hid_key, is_typable, key_types_character, types};
use crate::keystroke::typing_presses;
use crate::keyboard_laws::{answered, answers, finished_is_idle, run, stays_well_formed, stepped};

/// An action and how it went.
pub struct Event {
    pub action: KeyboardAction,
    pub input: KeyboardInput,
}

/// The events of a command, in order.
pub open spec fn events(k: Keyboard, line: Seq<u8>, inputs: Seq<KeyboardInput>) -> Seq<Event>
    decreases inputs.len(),
{
    if inputs.len() == 0 {
        Seq::empty()
    } else {
        events(k, line, inputs.drop_last()).push(
            Event { action: run(k, line, inputs.drop_last()).asks(), input: inputs.last() },
        )
    }
}

/// A command has run from its beginning to its end.
pub open spec fn completed(k: Keyboard, line: Seq<u8>, inputs: Seq<KeyboardInput>) -> bool {
    &&& k.wf(line.len())
    &&& line.len() <= LINE_LEN
    &&& answered(k.begun(line), line, inputs)
    &&& run(k.begun(line), line, inputs).asks() is Finished
}

/// The device did what it was asked for.
pub open spec fn granted(input: KeyboardInput) -> bool {
    input matches KeyboardInput::Device { ok, .. } && ok
}

/// The device failed to do what it was asked for.
pub open spec fn refused(input: KeyboardInput) -> bool {
    input matches KeyboardInput::Device { ok, .. } && !ok
}

/// The event is a reply to the host.
pub open spec fn replied(e: Event, reply: Reply) -> bool {
    e.action == KeyboardAction::Reply(reply)
}

/// The event persists the pairing that the device holds.
pub open spec fn persisted(e: Event, d: Device) -> bool {
    e.action matches KeyboardAction::Save(p) && p.address == d.address && p.aes_key == d.aes_key
        && p.aes_counter == d.aes_counter && p.channel == d.channel
}

// The device.

/// The device as the last event that tells of it leaves it.
pub open spec fn device_after(d: Device, e: Seq<Event>) -> Device
    decreases e.len(),
{
    if e.len() == 0 {
        d
    } else {
        match e.last().input {
            KeyboardInput::Device { device, .. } => device,
            _ => device_after(d, e.drop_last()),
        }
    }
}

proof fn device_step(k: Keyboard, line: Seq<u8>, input: KeyboardInput)
    requires
        answers(k.asks(), input),
    ensures
        stepped(k, line, input).state.device == match input {
            KeyboardInput::Device { device, .. } => device,
            _ => k.state.device,
        },
        stepped(k, line, input).channels == k.channels,
{
    reveal(stepped);
    match k.phase {
        Phase::Idle | Phase::Say(_) | Phase::KeepAlive | Phase::Erase => {},
        Phase::TestConfigure | Phase::TestSelect { .. } => {},
        Phase::TestProbe { .. } => {},
        Phase::TestRest { .. } | Phase::TestReport { .. } => {},
        Phase::PairId | Phase::PairCrypto { .. } | Phase::PairConfigure { .. } => {},
        Phase::PairTry { .. } | Phase::PairRest { .. } | Phase::PairSave => {},
        Phase::ConnectConfigure => {},
        Phase::ConnectTry { .. } | Phase::ConnectRest { .. } => {},
        Phase::KeyWarm { .. } | Phase::KeySave { .. } => {},
        Phase::KeyStroke { .. } => {},
        Phase::TypeWarm { .. } | Phase::TypeStroke { .. } | Phase::TypeRest { .. } => {},
        Phase::TypeReport { .. } | Phase::TypeSave => {},
    }
}

/// At every moment of a command the keyboard knows the device as it was last
/// told of it, and the pairing channels do not change.
pub proof fn device_followed(k: Keyboard, line: Seq<u8>, inputs: Seq<KeyboardInput>)
    requires
        answered(k.begun(line), line, inputs),
    ensures
        run(k.begun(line), line, inputs).state.device == device_after(
            k.state.device,
            events(k.begun(line), line, inputs),
        ),
        run(k.begun(line), line, inputs).channels == k.channels,
    decreases inputs.len(),
{
    if inputs.len() > 0 {
        device_followed(k, line, inputs.drop_last());
        let b = k.begun(line);
        device_step(run(b, line, inputs.drop_last()), line, inputs.last());
        assert(events(b, line, inputs).drop_last() =~= events(b, line, inputs.drop_last()));
    }
}

// Keeping the flags.

spec fn changes_flags(phase: Phase) -> bool {
    match phase {
        Phase::PairId | Phase::PairCrypto { .. } | Phase::PairConfigure { .. } => true,
        Phase::PairTry { .. } | Phase::PairRest { .. } => true,
        Phase::ConnectConfigure | Phase::ConnectTry { .. } | Phase::ConnectRest { .. } => true,
        Phase::Erase => true,
        _ => false,
    }
}

proof fn flags_step(k: Keyboard, line: Seq<u8>, input: KeyboardInput)
    requires
        !changes_flags(k.phase),
    ensures
        !changes_flags(stepped(k, line, input).phase),
        stepped(k, line, input).state.paired == k.state.paired,
        stepped(k, line, input).state.connected == k.state.connected,
{
    reveal(stepped);
}

proof fn flags_stay(k: Keyboard, line: Seq<u8>, inputs: Seq<KeyboardInput>)
    requires
        !changes_flags(k.phase),
    ensures
        !changes_flags(run(k, line, inputs).phase),
        run(k, line, inputs).state.paired == k.state.paired,
        run(k, line, inputs).state.connected == k.state.connected,
    decreases inputs.len(),
{
    if inputs.len() > 0 {
        flags_stay(k, line, inputs.drop_last());
        flags_step(run(k, line, inputs.drop_last()), line, inputs.last());
    }
}

/// Only pairing, connecting and deleting change whether the device is paired
/// and connected.
pub proof fn flags_kept(k: Keyboard, line: Seq<u8>, inputs: Seq<KeyboardInput>)
    requires
        unifying_command(line) !is Pair,
        unifying_command(line) !is Connect,
        unifying_command(line) !is Delete,
    ensures
        run(k.begun(line), line, inputs).state.paired == k.state.paired,
        run(k.begun(line), line, inputs).state.connected == k.state.connected,
{
    flags_stay(k.begun(line), line, inputs);
}

// Pairing.

/// The parameters for the timer as it was read in the first two events.
pub open spec fn params_read(e: Seq<Event>) -> PairingParams {
    PairingParams::at(e[0].input->Ticks_0, e[1].input->Ticks_0)
}

/// The timer was read twice.
pub open spec fn timer_read(e: Seq<Event>) -> bool {
    &&& e.len() >= 2
    &&& e[0].action is ReadTicks
    &&& e[0].input is Ticks
    &&& e[1].action is ReadTicks
    &&& e[1].input is Ticks
}

/// The radio works, and pairing has failed so often, with a rest after each
/// failure.
pub open spec fn pairing_failed(e: Seq<Event>, failures: int) -> bool {
    &&& timer_read(e)
    &&& e.len() == 3 + 2 * failures
    &&& e[2].action is ConfigureRadio
    &&& granted(e[2].input)
    &&& forall|j: int|
        3 <= j < e.len() ==> if j % 2 == 1 {
            (#[trigger] e[j]).action == KeyboardAction::Pair(params_read(e)) && refused(e[j].input)
        } else {
            e[j].action == (KeyboardAction::Sleep { ms: 20 })
        }
}

/// What a pairing command has done when it is to give that reply.
pub open spec fn pairing_done(
    e: Seq<Event>,
    reply: Reply,
    before: UnifyingState,
    after: UnifyingState,
) -> bool {
    let n = e.len() as int;
    match reply {
        Reply::ErrRadio => {
            &&& timer_read(e)
            &&& n == 3
            &&& e[2].action is ConfigureRadio
            &&& refused(e[2].input)
            &&& after.paired == before.paired
            &&& after.connected == before.connected
        },
        Reply::ErrPair => {
            &&& pairing_failed(e, 8)
            &&& after.paired == before.paired
            &&& after.connected == before.connected
        },
        Reply::Paired { address, channel } => {
            &&& n >= 5
            &&& exists|failures: int|
                0 <= failures < 8 && #[trigger] pairing_failed(e.take(n - 2), failures)
            &&& e[n - 2].action == KeyboardAction::Pair(params_read(e))
            &&& granted(e[n - 2].input)
            &&& persisted(e[n - 1], e[n - 2].input->device)
            &&& after.device == e[n - 2].input->device
            &&& after.paired
            &&& after.connected
            &&& address == after.device.address
            &&& channel == after.device.channel
        },
        _ => false,
    }
}

spec fn pairing_stage(k: Keyboard, before: UnifyingState, e: Seq<Event>) -> bool {
    let n = e.len() as int;
    let untouched = k.state.paired == before.paired && k.state.connected == before.connected;
    match k.phase {
        Phase::PairId => n == 0 && untouched,
        Phase::PairCrypto { id_ticks } => n == 1 && e[0].action is ReadTicks && e[0].input
            == KeyboardInput::Ticks(id_ticks) && untouched,
        Phase::PairConfigure { params } => n == 2 && timer_read(e) && params == params_read(e)
            && untouched,
        Phase::PairTry { params, failures } => pairing_failed(e, failures as int) && params
            == params_read(e) && untouched,
        Phase::PairRest { params, failures } => {
            &&& n >= 1
            &&& pairing_failed(e.drop_last(), failures - 1)
            &&& e.last().action == KeyboardAction::Pair(params)
            &&& refused(e.last().input)
            &&& params == params_read(e)
            &&& untouched
        },
        Phase::PairSave => {
            &&& n >= 4
            &&& exists|failures: int|
                0 <= failures < 8 && #[trigger] pairing_failed(e.drop_last(), failures)
            &&& e.last().action == KeyboardAction::Pair(params_read(e))
            &&& granted(e.last().input)
            &&& k.state.device == e.last().input->device
            &&& k.state.paired
            &&& k.state.connected
        },
        Phase::Say(reply) => pairing_done(e, reply, before, k.state),
        Phase::Idle => n >= 1 && e.last().action is Reply && pairing_done(
            e.drop_last(),
            e.last().action->Reply_0,
            before,
            k.state,
        ),
        _ => false,
    }
}

proof fn pairing_advances(
    k: Keyboard,
    line: Seq<u8>,
    input: KeyboardInput,
    before: UnifyingState,
    e: Seq<Event>,
)
    requires
        k.wf(line.len()),
        answers(k.asks(), input),
        pairing_stage(k, before, e),
    ensures
        pairing_stage(
            stepped(k, line, input),
            before,
            e.push(Event { action: k.asks(), input }),
        ),
{
    reveal(stepped);
    let more = e.push(Event { action: k.asks(), input });
    assert(more.drop_last() =~= e);
    match k.phase {
        Phase::PairId => {},
        Phase::PairCrypto { .. } => {},
        Phase::PairConfigure { .. } => {},
        Phase::PairTry { failures, .. } => {
            assert(pairing_failed(more.drop_last(), failures as int));
        },
        Phase::PairRest { failures, .. } => {
            let head = e.drop_last();
            assert forall|j: int| 3 <= j < more.len() implies if j % 2 == 1 {
                (#[trigger] more[j]).action == KeyboardAction::Pair(params_read(more)) && refused(
                    more[j].input,
                )
            } else {
                more[j].action == (KeyboardAction::Sleep { ms: 20 })
            } by {
                if j < head.len() {
                    assert(more[j] == head[j]);
                }
            }
        },
        Phase::PairSave => {
            assert(more.take(more.len() - 2) =~= e.drop_last());
        },
        _ => {},
    }
}

proof fn pairing_runs(k: Keyboard, line: Seq<u8>, inputs: Seq<KeyboardInput>)
    requires
        k.wf(line.len()),
        k.phase is PairId,
        answered(k, line, inputs),
    ensures
        run(k, line, inputs).wf(line.len()),
        pairing_stage(run(k, line, inputs), k.state, events(k, line, inputs)),
    decreases inputs.len(),
{
    if inputs.len() > 0 {
        let earlier = inputs.drop_last();
        pairing_runs(k, line, earlier);
        let at = run(k, line, earlier);
        stays_well_formed(at, line, inputs.last());
        pairing_advances(at, line, inputs.last(), k.state, events(k, line, earlier));
    }
}

/// Pairing: the timer is read twice and the radio configured. Then pairing is
/// tried, with 20 ms of rest after each failure, until it succeeds or has failed
/// eight times. At its first success the pairing that the device then holds is
/// persisted, and the host told its address and channel. Nothing else is done.
pub proof fn pairing_script(k: Keyboard, line: Seq<u8>, inputs: Seq<KeyboardInput>)
    requires
        completed(k, line, inputs),
        unifying_command(line) is Pair,
    ensures
        ({
            let e = events(k.begun(line), line, inputs);
            &&& e.len() >= 1
            &&& e.last().action is Reply
            &&& pairing_done(
                e.drop_last(),
                e.last().action->Reply_0,
                k.state,
                run(k.begun(line), line, inputs).state,
            )
        }),
{
    pairing_runs(k.begun(line), line, inputs);
    finished_is_idle(run(k.begun(line), line, inputs), line.len());
}

// Connecting.

/// The radio works, and connecting has failed so often, with a rest after each
/// failure.
pub open spec fn connecting_failed(e: Seq<Event>, failures: int) -> bool {
    &&& e.len() == 1 + 2 * failures
    &&& e[0].action is ConfigureRadio
    &&& granted(e[0].input)
    &&& forall|j: int|
        1 <= j < e.len() ==> if j % 2 == 1 {
            (#[trigger] e[j]).action is Connect && refused(e[j].input)
        } else {
            e[j].action == (KeyboardAction::Sleep { ms: 20 })
        }
}

/// What a connect command has done when it is to give that reply.
pub open spec fn connecting_done(
    e: Seq<Event>,
    reply: Reply,
    before: UnifyingState,
    after: UnifyingState,
) -> bool {
    let n = e.len() as int;
    &&& after.paired
    &&& match reply {
        Reply::ErrRadio => {
            &&& n == 1
            &&& e[0].action is ConfigureRadio
            &&& refused(e[0].input)
            &&& after.connected == before.connected
        },
        Reply::ErrConnect => connecting_failed(e, 60) && after.connected == before.connected,
        Reply::Connected { channel } => {
            &&& n >= 2
            &&& exists|failures: int|
                0 <= failures < 60 && #[trigger] connecting_failed(e.drop_last(), failures)
            &&& e.last().action is Connect
            &&& granted(e.last().input)
            &&& after.device == e.last().input->device
            &&& after.connected
            &&& channel == after.device.channel
        },
        _ => false,
    }
}

spec fn connecting_stage(k: Keyboard, before: UnifyingState, e: Seq<Event>) -> bool {
    let n = e.len() as int;
    let untouched = k.state.paired && k.state.connected == before.connected;
    match k.phase {
        Phase::ConnectConfigure => n == 0 && untouched,
        Phase::ConnectTry { failures } => connecting_failed(e, failures as int) && untouched,
        Phase::ConnectRest { failures } => {
            &&& n >= 1
            &&& connecting_failed(e.drop_last(), failures - 1)
            &&& e.last().action is Connect
            &&& refused(e.last().input)
            &&& untouched
        },
        Phase::Say(reply) => connecting_done(e, reply, before, k.state),
        Phase::Idle => n >= 1 && e.last().action is Reply && connecting_done(
            e.drop_last(),
            e.last().action->Reply_0,
            before,
            k.state,
        ),
        _ => false,
    }
}

proof fn connecting_advances(
    k: Keyboard,
    line: Seq<u8>,
    input: KeyboardInput,
    before: UnifyingState,
    e: Seq<Event>,
)
    requires
        k.wf(line.len()),
        answers(k.asks(), input),
        connecting_stage(k, before, e),
    ensures
        connecting_stage(
            stepped(k, line, input),
            before,
            e.push(Event { action: k.asks(), input }),
        ),
{
    reveal(stepped);
    let more = e.push(Event { action: k.asks(), input });
    assert(more.drop_last() =~= e);
    match k.phase {
        Phase::ConnectConfigure => {},
        Phase::ConnectTry { failures } => {
            assert(connecting_failed(more.drop_last(), failures as int));
        },
        Phase::ConnectRest { failures } => {
            let head = e.drop_last();
            assert forall|j: int| 1 <= j < more.len() implies if j % 2 == 1 {
                (#[trigger] more[j]).action is Connect && refused(more[j].input)
            } else {
                more[j].action == (KeyboardAction::Sleep { ms: 20 })
            } by {
                if j < head.len() {
                    assert(more[j] == head[j]);
                }
            }
        },
        _ => {},
    }
}

proof fn connecting_runs(k: Keyboard, line: Seq<u8>, inputs: Seq<KeyboardInput>)
    requires
        k.wf(line.len()),
        k.phase is ConnectConfigure,
        k.state.paired,
        answered(k, line, inputs),
    ensures
        run(k, line, inputs).wf(line.len()),
        connecting_stage(run(k, line, inputs), k.state, events(k, line, inputs)),
    decreases inputs.len(),
{
    if inputs.len() > 0 {
        let earlier = inputs.drop_last();
        connecting_runs(k, line, earlier);
        let at = run(k, line, earlier);
        stays_well_formed(at, line, inputs.last());
        connecting_advances(at, line, inputs.last(), k.state, events(k, line, earlier));
    }
}

/// Connecting: the radio is configured. Then connecting is tried, with 20 ms of
/// rest after each failure, until it succeeds or has failed sixty times. At its
/// first success the host is told the channel. Nothing else is done.
pub proof fn connecting_script(k: Keyboard, line: Seq<u8>, inputs: Seq<KeyboardInput>)
    requires
        completed(k, line, inputs),
        unifying_command(line) is Connect,
        k.state.paired,
    ensures
        ({
            let e = events(k.begun(line), line, inputs);
            &&& e.len() >= 1
            &&& e.last().action is Reply
            &&& connecting_done(
                e.drop_last(),
                e.last().action->Reply_0,
                k.state,
                run(k.begun(line), line, inputs).state,
            )
        }),
{
    connecting_runs(k.begun(line), line, inputs);
    finished_is_idle(run(k.begun(line), line, inputs), line.len());
}

// Strokes.

/// The report with all keys up.
pub open spec fn keys_up() -> KeyReport {
    KeyReport { modifier: 0, keys: [0, 0, 0, 0, 0, 0] }
}

/// The report was sent again and again without being acknowledged, with a
/// keep-alive tick after each failure.
pub open spec fn sent_in_vain(e: Seq<Event>, report: KeyReport) -> bool {
    &&& e.len() % 2 == 0
    &&& forall|j: int|
        0 <= j < e.len() ==> if j % 2 == 0 {
            (#[trigger] e[j]).action == KeyboardAction::SendReport(report) && refused(e[j].input)
        } else {
            e[j].action is Tick
        }
}

/// The report was sent until it was acknowledged, at most twenty times. It was
/// acknowledged, or not.
pub open spec fn sent(e: Seq<Event>, report: KeyReport, acknowledged: bool) -> bool {
    if acknowledged {
        &&& 1 <= e.len() <= 39
        &&& sent_in_vain(e.drop_last(), report)
        &&& e.last().action == KeyboardAction::SendReport(report)
        &&& granted(e.last().input)
    } else {
        e.len() == 40 && sent_in_vain(e, report)
    }
}

/// The report was sent, and then, if it is to be released, the empty one.
pub open spec fn stroke_sent(
    e: Seq<Event>,
    report: KeyReport,
    release: bool,
    acknowledged: bool,
) -> bool {
    if release {
        exists|m: int, released: bool|
            0 <= m <= e.len() && sent(e.take(m), report, acknowledged) && #[trigger] sent(
                e.skip(m),
                keys_up(),
                released,
            )
    } else {
        sent(e, report, acknowledged)
    }
}

spec fn pressed_before(e: Seq<Event>, m: int, s: Stroke) -> bool {
    0 <= m <= e.len() && sent(e.take(m), s.report, s.pressed) && s.release
}

spec fn stroke_stage(s: Stroke, e: Seq<Event>) -> bool {
    match s.phase {
        StrokePhase::Press { failures } => !s.pressed && e.len() == 2 * failures && sent_in_vain(
            e,
            s.report,
        ),
        StrokePhase::PressFailed { failures } => {
            &&& !s.pressed
            &&& e.len() == 2 * failures - 1
            &&& sent_in_vain(e.drop_last(), s.report)
            &&& e.last().action == KeyboardAction::SendReport(s.report)
            &&& refused(e.last().input)
        },
        StrokePhase::Release { failures } => exists|m: int| #[trigger]
            pressed_before(e, m, s) && e.len() == m + 2 * failures && sent_in_vain(
                e.skip(m),
                keys_up(),
            ),
        StrokePhase::ReleaseFailed { failures } => {
            &&& e.len() >= 1
            &&& exists|m: int| #[trigger]
                pressed_before(e.drop_last(), m, s) && e.len() == m + 2 * failures - 1
                    && sent_in_vain(e.drop_last().skip(m), keys_up())
            &&& e.last().action == KeyboardAction::SendReport(keys_up())
            &&& refused(e.last().input)
        },
        StrokePhase::Over => stroke_sent(e, s.report, s.release, s.pressed),
    }
}

proof fn one_more_in_vain(e: Seq<Event>, report: KeyReport, tick: Event)
    requires
        e.len() >= 1,
        sent_in_vain(e.drop_last(), report),
        e.last().action == KeyboardAction::SendReport(report),
        refused(e.last().input),
        tick.action is Tick,
    ensures
        sent_in_vain(e.push(tick), report),
{
    let head = e.drop_last();
    let more = e.push(tick);
    assert forall|j: int| 0 <= j < more.len() implies if j % 2 == 0 {
        (#[trigger] more[j]).action == KeyboardAction::SendReport(report) && refused(more[j].input)
    } else {
        more[j].action is Tick
    } by {
        if j < head.len() {
            assert(more[j] == head[j]);
        }
    }
}

/// What a stroke wants done, as an event that goes as `input` says.
spec fn stroke_event(s: Stroke, input: KeyboardInput) -> Event {
    Event {
        action: match s.asks() {
            crate::keystroke::StrokeAction::Send(report) => KeyboardAction::SendReport(report),
            crate::keystroke::StrokeAction::Tick => KeyboardAction::Tick,
            crate::keystroke::StrokeAction::Over => KeyboardAction::Finished,
        },
        input,
    }
}

proof fn stroke_advances(s: Stroke, e: Seq<Event>, ok: bool, device: Device)
    requires
        s.wf(),
        s.phase !is Over,
        stroke_stage(s, e),
    ensures
        stroke_stage(
            s.next(ok),
            e.push(stroke_event(s, KeyboardInput::Device { ok, device })),
        ),
{
    let event = stroke_event(s, KeyboardInput::Device { ok, device });
    let more = e.push(event);
    let t = s.next(ok);
    assert(more.drop_last() =~= e);
    match s.phase {
        StrokePhase::Press { failures } => {
            if ok {
                assert(sent(more, s.report, true));
                press_over(t, more);
            }
        },
        StrokePhase::PressFailed { failures } => {
            one_more_in_vain(e, s.report, event);
            if failures == 20 {
                assert(sent(more, s.report, false));
                press_over(t, more);
            }
        },
        StrokePhase::Release { failures } => {
            let m = choose|m: int| #[trigger]
                pressed_before(e, m, s) && e.len() == m + 2 * failures && sent_in_vain(
                    e.skip(m),
                    keys_up(),
                );
            assert(more.take(m) =~= e.take(m));
            if ok {
                assert(more.skip(m).drop_last() =~= e.skip(m));
                assert(sent(more.skip(m), keys_up(), true));
            } else {
                assert(pressed_before(more.drop_last(), m, t));
            }
        },
        StrokePhase::ReleaseFailed { failures } => {
            let head = e.drop_last();
            let m = choose|m: int| #[trigger]
                pressed_before(head, m, s) && e.len() == m + 2 * failures - 1 && sent_in_vain(
                    head.skip(m),
                    keys_up(),
                );
            assert(more.take(m) =~= head.take(m));
            assert(e.skip(m).drop_last() =~= head.skip(m));
            one_more_in_vain(e.skip(m), keys_up(), event);
            assert(e.skip(m).push(event) =~= more.skip(m));
            if failures < 20 {
                assert(pressed_before(more, m, t));
            } else {
                assert(sent(more.skip(m), keys_up(), false));
            }
        },
        StrokePhase::Over => {},
    }
}

proof fn press_over(t: Stroke, e: Seq<Event>)
    requires
        sent(e, t.report, t.pressed),
        t.phase == t.pressed_phase(),
    ensures
        stroke_stage(t, e),
{
    if t.release {
        assert(e.take(e.len() as int) =~= e);
        assert(pressed_before(e, e.len() as int, t));
    }
}

// Keys.

/// Five keep-alive ticks come first.
pub open spec fn warmed(e: Seq<Event>) -> bool {
    e.len() >= 5 && forall|j: int| 0 <= j < 5 ==> (#[trigger] e[j]).action is Tick
}

/// What a key command for `report` has done up to its reply.
pub open spec fn key_done(
    e: Seq<Event>,
    report: KeyReport,
    release: bool,
    saved: bool,
    acknowledged: bool,
    after: UnifyingState,
) -> bool {
    let sends = if saved {
        e.drop_last()
    } else {
        e
    };
    &&& saved ==> e.len() >= 1 && persisted(e.last(), after.device)
    &&& warmed(sends)
    &&& stroke_sent(sends.skip(5), report, release, acknowledged)
}

/// The counter is to be persisted with this key command: after each press and
/// release, and with every 128th held-key frame, if there is a pairing.
pub open spec fn key_saves(before: UnifyingState, release: bool) -> bool {
    before.paired && (release || before.held_frames == 127)
}

spec fn key_stage(
    k: Keyboard,
    e: Seq<Event>,
    report: KeyReport,
    release: bool,
    before: UnifyingState,
) -> bool {
    let saves = key_saves(before, release);
    match k.phase {
        Phase::KeyWarm { ticks, report: r, release: l } => {
            &&& r == report
            &&& l == release
            &&& k.state.paired == before.paired
            &&& k.state.held_frames == before.held_frames
            &&& e.len() == ticks
            &&& forall|j: int| 0 <= j < e.len() ==> (#[trigger] e[j]).action is Tick
        },
        Phase::KeyStroke { stroke } => {
            &&& stroke.report == report
            &&& stroke.release == release
            &&& k.state.paired == before.paired
            &&& k.state.held_frames == before.held_frames
            &&& warmed(e)
            &&& stroke_stage(stroke, e.skip(5))
        },
        Phase::KeySave { pressed } => saves && key_done(
            e,
            report,
            release,
            false,
            pressed,
            k.state,
        ),
        Phase::Say(reply) => {
            let acknowledged = reply is Done;
            &&& reply is Done || reply is ErrSend
            &&& key_done(e, report, release, saves, acknowledged, k.state)
        },
        Phase::Idle => {
            &&& e.len() >= 1
            &&& replied(e.last(), Reply::Done) || replied(e.last(), Reply::ErrSend)
            &&& key_done(
                e.drop_last(),
                report,
                release,
                saves,
                replied(e.last(), Reply::Done),
                k.state,
            )
        },
        _ => false,
    }
}

proof fn key_advances(
    k: Keyboard,
    line: Seq<u8>,
    input: KeyboardInput,
    e: Seq<Event>,
    report: KeyReport,
    release: bool,
    before: UnifyingState,
)
    requires
        k.wf(line.len()),
        answers(k.asks(), input),
        before.held_frames < 128,
        key_stage(k, e, report, release, before),
    ensures
        key_stage(
            stepped(k, line, input),
            e.push(Event { action: k.asks(), input }),
            report,
            release,
            before,
        ),
{
    reveal(stepped);
    let more = e.push(Event { action: k.asks(), input });
    assert(more.drop_last() =~= e);
    match k.phase {
        Phase::KeyWarm { ticks, .. } => {
            if ticks == 4 {
                assert(more.skip(5) =~= Seq::empty());
            }
        },
        Phase::KeyStroke { stroke } => {
            if let KeyboardInput::Device { ok, device } = input {
                stroke_advances(stroke, e.skip(5), ok, device);
                assert(more.skip(5) =~= e.skip(5).push(stroke_event(stroke, input)));
                assert forall|j: int| 0 <= j < 5 implies (#[trigger] more[j]).action is Tick by {
                    assert(more[j] == e[j]);
                }
            }
        },
        Phase::KeySave { .. } => {},
        _ => {},
    }
}

proof fn key_runs(
    k: Keyboard,
    line: Seq<u8>,
    inputs: Seq<KeyboardInput>,
    report: KeyReport,
    release: bool,
)
    requires
        k.wf(line.len()),
        k.phase == (Phase::KeyWarm { ticks: 0, report, release }),
        answered(k, line, inputs),
    ensures
        run(k, line, inputs).wf(line.len()),
        key_stage(run(k, line, inputs), events(k, line, inputs), report, release, k.state),
    decreases inputs.len(),
{
    if inputs.len() > 0 {
        let earlier = inputs.drop_last();
        key_runs(k, line, earlier, report, release);
        let at = run(k, line, earlier);
        stays_well_formed(at, line, inputs.last());
        key_advances(
            at,
            line,
            inputs.last(),
            events(k, line, earlier),
            report,
            release,
            k.state,
        );
    }
}

/// A key command sends five keep-alive ticks and then exactly the report that
/// its arguments spell, until it is acknowledged or has been sent twenty times
/// with a tick after each failure. With `UKEY` the empty report is sent
/// likewise; with `UKEYDOWN` it is not. Then the pairing is persisted as it
/// stands, where that is due, and the host told whether the report was
/// acknowledged. Nothing else is done.
pub proof fn key_script(k: Keyboard, line: Seq<u8>, inputs: Seq<KeyboardInput>)
    requires
        completed(k, line, inputs),
        k.state.connected,
        unifying_command(line) matches UnifyingCommand::Key(Some(_)) || unifying_command(
            line,
        ) matches UnifyingCommand::KeyDown(Some(_)),
    ensures
        ({
            let e = events(k.begun(line), line, inputs);
            let release = unifying_command(line) is Key;
            let report = match unifying_command(line) {
                UnifyingCommand::Key(args) => args->0,
                UnifyingCommand::KeyDown(args) => args->0,
                _ => keys_up(),
            };
            &&& e.len() >= 1
            &&& replied(e.last(), Reply::Done) || replied(e.last(), Reply::ErrSend)
            &&& key_done(
                e.drop_last(),
                report,
                release,
                key_saves(k.state, release),
                replied(e.last(), Reply::Done),
                run(k.begun(line), line, inputs).state,
            )
        }),
{
    let b = k.begun(line);
    match unifying_command(line) {
        UnifyingCommand::Key(args) => {
            key_runs(b, line, inputs, args->0, true);
        },
        UnifyingCommand::KeyDown(args) => {
            key_runs(b, line, inputs, args->0, false);
        },
        _ => {},
    }
    finished_is_idle(run(b, line, inputs), line.len());
}

// Typing.

/// The report presses the key that types the character on a US layout, alone,
/// and with left Shift exactly if that is needed.
pub open spec fn presses_key_of(report: KeyReport, c: u8) -> bool {
    exists|code: u8, shift: bool| #[trigger]
        types(code, shift, c) && report.keys@ == seq![code, 0, 0, 0, 0, 0] && report.modifier == if shift {
            0x02int
        } else {
            0x00int
        }
}

/// The character was typed, and its press acknowledged or not; a character that
/// no key types was passed over.
pub open spec fn char_typed(e: Seq<Event>, c: u8, acknowledged: bool) -> bool {
    if is_typable(c) {
        exists|report: KeyReport| #[trigger]
            presses_key_of(report, c) && stroke_sent(e, report, true, acknowledged)
    } else {
        !acknowledged && e.len() == 0
    }
}

/// The characters of the text were typed in order, with 1 ms of rest after each
/// of them. `total` of them have a key, and of these `ok` were acknowledged.
pub open spec fn text_typed(e: Seq<Event>, text: Seq<u8>, ok: int, total: int) -> bool
    decreases text.len(),
{
    if text.len() == 0 {
        e.len() == 0 && ok == 0 && total == 0
    } else {
        exists|m: int, acknowledged: bool|
            #![trigger char_typed(e.subrange(m, e.len() - 1), text.last(), acknowledged)]
            {
                &&& 0 <= m < e.len()
                &&& e.last().action == (KeyboardAction::Sleep { ms: 1 })
                &&& char_typed(e.subrange(m, e.len() - 1), text.last(), acknowledged)
                &&& text_typed(
                    e.take(m),
                    text.drop_last(),
                    ok - if acknowledged {
                        1int
                    } else {
                        0int
                    },
                    total - if is_typable(text.last()) {
                        1int
                    } else {
                        0int
                    },
                )
            }
    }
}

spec fn typed_before(
    e: Seq<Event>,
    m: int,
    line: Seq<u8>,
    at: int,
    ok: u32,
    total: u32,
    key: bool,
    acknowledged: bool,
) -> bool {
    &&& 5 <= m <= e.len()
    &&& 6 <= at < line.len()
    &&& text_typed(
        e.subrange(5, m),
        line.subrange(6, at),
        ok - if acknowledged {
            1int
        } else {
            0int
        },
        total - if key {
            1int
        } else {
            0int
        },
    )
}

spec fn char_under_way(
    e: Seq<Event>,
    line: Seq<u8>,
    at: int,
    ok: u32,
    total: u32,
    stroke: Stroke,
) -> bool {
    exists|m: int| #[trigger]
        typed_before(e, m, line, at, ok, total, true, false) && stroke_stage(stroke, e.skip(m))
}

spec fn char_over(e: Seq<Event>, line: Seq<u8>, at: int, ok: u32, total: u32) -> bool {
    exists|m: int, acknowledged: bool| #[trigger]
        typed_before(e, m, line, at, ok, total, is_typable(line[at]), acknowledged) && char_typed(
            e.skip(m),
            line[at],
            acknowledged,
        )
}

spec fn typing_stage(k: Keyboard, e: Seq<Event>, line: Seq<u8>, before: UnifyingState) -> bool {
    &&& k.state.paired == before.paired
    &&& match k.phase {
        Phase::TypeWarm { ticks } => e.len() == ticks && forall|j: int|
            0 <= j < e.len() ==> (#[trigger] e[j]).action is Tick,
        Phase::TypeStroke { at, ok, total, stroke } => {
            &&& warmed(e)
            &&& is_typable(line[at as int])
            &&& presses_key_of(stroke.report, line[at as int])
            &&& stroke.release
            &&& char_under_way(e, line, at as int, ok, total, stroke)
        },
        Phase::TypeRest { at, ok, total } => {
            &&& warmed(e)
            &&& char_over(e, line, at as int, ok, total)
        },
        Phase::TypeReport { ok, total } => warmed(e) && text_typed(
            e.skip(5),
            line.skip(6),
            ok as int,
            total as int,
        ),
        Phase::TypeSave => k.state.paired && typing_done(e, line.skip(6)),
        Phase::Idle => {
            &&& before.paired ==> e.len() >= 1 && persisted(e.last(), k.state.device)
                && typing_done(e.drop_last(), line.skip(6))
            &&& !before.paired ==> typing_done(e, line.skip(6))
        },
        _ => false,
    }
}

/// What a typing command has done up to its reply, which says how much of the
/// text was typed.
pub open spec fn typing_done(e: Seq<Event>, text: Seq<u8>) -> bool {
    &&& e.len() >= 6
    &&& warmed(e)
    &&& e.last().action matches KeyboardAction::Reply(reply) && reply matches Reply::Typed {
        ok,
        total,
    } && text_typed(e.subrange(5, e.len() - 1), text, ok as int, total as int)
}

proof fn typing_begins(
    k: Keyboard,
    e: Seq<Event>,
    line: Seq<u8>,
    at: int,
    ok: u32,
    total: u32,
    before: UnifyingState,
)
    requires
        6 <= at <= line.len() <= LINE_LEN,
        warmed(e),
        text_typed(e.skip(5), line.subrange(6, at), ok as int, total as int),
        total <= LINE_LEN,
        k.state.paired == before.paired,
        k.phase == typing(line, at, ok, total),
    ensures
        typing_stage(k, e, line, before),
{
    assert(e.subrange(5, e.len() as int) =~= e.skip(5));
    if at < line.len() {
        let c = line[at];
        typing_presses(c);
        assert(e.skip(e.len() as int) =~= Seq::empty());
        match hid_key(c) {
            Some((code, shift)) => {
                key_types_character(code, shift, c);
                reveal(crate::keystroke::typing_stroke);
                let stroke = crate::keystroke::typing_stroke(c)->0;
                assert(stroke.report.keys@ =~= seq![code, 0, 0, 0, 0, 0]);
                assert(types(code, shift, c));
                assert(stroke_stage(stroke, e.skip(e.len() as int)));
                assert(presses_key_of(stroke.report, c));
                assert(k.phase == (Phase::TypeStroke {
                    at: at as usize,
                    ok,
                    total: (total + 1) as u32,
                    stroke,
                }));
                assert(typed_before(
                    e,
                    e.len() as int,
                    line,
                    at,
                    ok,
                    (total + 1) as u32,
                    true,
                    false,
                ));
                assert(char_under_way(e, line, at, ok, (total + 1) as u32, stroke));
            },
            None => {
                key_types_character(0, false, c);
                assert(char_typed(e.skip(e.len() as int), c, false));
                assert(k.phase == (Phase::TypeRest { at: at as usize, ok, total }));
                assert(typed_before(e, e.len() as int, line, at, ok, total, is_typable(c), false));
                assert(char_over(e, line, at, ok, total));
            },
        }
    } else {
        assert(line.subrange(6, at) =~= line.skip(6));
    }
}

proof fn typing_advances(
    k: Keyboard,
    line: Seq<u8>,
    input: KeyboardInput,
    e: Seq<Event>,
    before: UnifyingState,
)
    requires
        k.wf(line.len()),
        6 <= line.len() <= LINE_LEN,
        answers(k.asks(), input),
        typing_stage(k, e, line, before),
    ensures
        typing_stage(
            stepped(k, line, input),
            e.push(Event { action: k.asks(), input }),
            line,
            before,
        ),
{
    reveal(stepped);
    let more = e.push(Event { action: k.asks(), input });
    let next = stepped(k, line, input);
    assert(more.drop_last() =~= e);
    if e.len() >= 5 {
        assert(warmed(e) ==> warmed(more)) by {
            if warmed(e) {
                assert forall|j: int| 0 <= j < 5 implies (#[trigger] more[j]).action is Tick by {
                    assert(more[j] == e[j]);
                }
            }
        }
    }
    match k.phase {
        Phase::TypeWarm { ticks } => {
            if ticks == 4 {
                assert(more.skip(5) =~= Seq::empty());
                assert(line.subrange(6, 6) =~= Seq::empty());
                typing_begins(next, more, line, 6, 0, 0, before);
            }
        },
        Phase::TypeStroke { at, ok: typed, total, stroke } => {
            if let KeyboardInput::Device { ok, device } = input {
                let m = choose|m: int| #[trigger]
                    typed_before(e, m, line, at as int, typed, total, true, false) && stroke_stage(
                        stroke,
                        e.skip(m),
                    );
                stroke_advances(stroke, e.skip(m), ok, device);
                assert(more.skip(m) =~= e.skip(m).push(stroke_event(stroke, input)));
                assert(more.subrange(5, m) =~= e.subrange(5, m));
                assert(typed_before(more, m, line, at as int, typed, total, true, false));
                let further = stroke.next(ok);
                if further.phase is Over {
                    assert(char_typed(more.skip(m), line[at as int], further.pressed));
                    assert(typed_before(
                        more,
                        m,
                        line,
                        at as int,
                        next.phase->TypeRest_ok,
                        total,
                        is_typable(line[at as int]),
                        further.pressed,
                    ));
                    assert(char_over(more, line, at as int, next.phase->TypeRest_ok, total));
                } else {
                    assert(char_under_way(more, line, at as int, typed, total, further));
                }
            }
        },
        Phase::TypeRest { at, ok, total } => {
            let (m, acknowledged): (int, bool) = choose|m: int, acknowledged: bool| #[trigger]
                typed_before(
                    e,
                    m,
                    line,
                    at as int,
                    ok,
                    total,
                    is_typable(line[at as int]),
                    acknowledged,
                ) && char_typed(e.skip(m), line[at as int], acknowledged);
            let text = line.subrange(6, at + 1);
            assert(text.drop_last() =~= line.subrange(6, at as int));
            let body = more.skip(5);
            assert(body.subrange(m - 5, body.len() - 1) =~= e.skip(m));
            assert(body.take(m - 5) =~= e.subrange(5, m));
            assert(char_typed(body.subrange(m - 5, body.len() - 1), text.last(), acknowledged));
            assert(text_typed(body, text, ok as int, total as int));
            typing_begins(next, more, line, at + 1, ok, total, before);
        },
        Phase::TypeReport { .. } => {
            assert(more.subrange(5, more.len() - 1) =~= e.skip(5));
        },
        Phase::TypeSave => {},
        _ => {},
    }
}

proof fn typing_runs(k: Keyboard, line: Seq<u8>, inputs: Seq<KeyboardInput>)
    requires
        k.wf(line.len()),
        6 <= line.len() <= LINE_LEN,
        k.phase == (Phase::TypeWarm { ticks: 0 }),
        answered(k, line, inputs),
    ensures
        run(k, line, inputs).wf(line.len()),
        typing_stage(run(k, line, inputs), events(k, line, inputs), line, k.state),
    decreases inputs.len(),
{
    if inputs.len() > 0 {
        let earlier = inputs.drop_last();
        typing_runs(k, line, earlier);
        let at = run(k, line, earlier);
        stays_well_formed(at, line, inputs.last());
        typing_advances(at, line, inputs.last(), events(k, line, earlier), k.state);
    }
}

/// Typing: after five keep-alive ticks the characters of the text are typed in
/// order. Each that some key types is one press of that key, with left Shift if
/// needed, and its release, both sent until acknowledged or twenty times; and
/// after each character there is 1 ms of rest. Then the host is told how many
/// presses were acknowledged and how many characters have a key, and the
/// pairing is persisted as it stands, if there is one. Nothing else is done.
pub proof fn typing_script(k: Keyboard, line: Seq<u8>, inputs: Seq<KeyboardInput>)
    requires
        completed(k, line, inputs),
        k.state.connected,
        unifying_command(line) is Type,
    ensures
        ({
            let e = events(k.begun(line), line, inputs);
            let text = line.skip(6);
            &&& k.state.paired ==> e.len() >= 1 && persisted(
                e.last(),
                run(k.begun(line), line, inputs).state.device,
            ) && typing_done(e.drop_last(), text)
            &&& !k.state.paired ==> typing_done(e, text)
        }),
{
    type_text_follows(line);
    typing_runs(k.begun(line), line, inputs);
    finished_is_idle(run(k.begun(line), line, inputs), line.len());
}

// Short commands.

proof fn one_event(k: Keyboard, line: Seq<u8>, inputs: Seq<KeyboardInput>)
    requires
        k.phase is Say,
        answered(k, line, inputs),
    ensures
        run(k, line, inputs).state == k.state,
        ({
            let e = events(k, line, inputs);
            let at = run(k, line, inputs);
            ||| at.phase == k.phase && e.len() == 0
            ||| at.phase is Idle && e.len() == 1 && e[0].action == k.asks()
        }),
    decreases inputs.len(),
{
    if inputs.len() > 0 {
        one_event(k, line, inputs.drop_last());
        reveal(stepped);
    }
}

proof fn two_events(k: Keyboard, line: Seq<u8>, inputs: Seq<KeyboardInput>)
    requires
        k.phase is KeepAlive || k.phase is Erase,
        answered(k, line, inputs),
    ensures
        ({
            let e = events(k, line, inputs);
            let at = run(k, line, inputs);
            let reply = if k.phase is KeepAlive {
                Reply::Tick
            } else {
                Reply::Deleted
            };
            ||| at.phase == k.phase && e.len() == 0
            ||| at.phase == Phase::Say(reply) && e.len() == 1 && e[0].action == k.asks()
                && at.state.paired == (k.phase is KeepAlive && k.state.paired)
                && at.state.connected == (k.phase is KeepAlive && k.state.connected)
            ||| at.phase is Idle && e.len() == 2 && e[0].action == k.asks() && replied(e[1], reply)
                && at.state.paired == (k.phase is KeepAlive && k.state.paired)
                && at.state.connected == (k.phase is KeepAlive && k.state.connected)
        }),
    decreases inputs.len(),
{
    if inputs.len() > 0 {
        two_events(k, line, inputs.drop_last());
        reveal(stepped);
    }
}

/// The commands that are carried out at once: the keep-alive is one tick and its
/// reply, deleting wipes the flash and forgets pairing and connection, and the
/// status and the version are one reply each, which tells the state as it is.
/// An empty line is nothing.
pub proof fn short_scripts(k: Keyboard, line: Seq<u8>, inputs: Seq<KeyboardInput>)
    requires
        completed(k, line, inputs),
    ensures
        ({
            let e = events(k.begun(line), line, inputs);
            let after = run(k.begun(line), line, inputs).state;
            match unifying_command(line) {
                UnifyingCommand::Empty => e.len() == 0 && after == k.state,
                UnifyingCommand::Version => e.len() == 1 && replied(e[0], Reply::Version) && after
                    == k.state,
                UnifyingCommand::Unknown => e.len() == 1 && replied(e[0], Reply::Commands) && after
                    == k.state,
                UnifyingCommand::Status => e.len() == 1 && replied(
                    e[0],
                    Reply::Status {
                        paired: k.state.paired,
                        connected: k.state.connected,
                        channel: k.state.device.channel,
                        counter: k.state.device.aes_counter,
                    },
                ) && after == k.state,
                UnifyingCommand::KeepAlive => if k.state.connected {
                    e.len() == 2 && e[0].action is Tick && replied(e[1], Reply::Tick)
                        && after.connected && after.paired == k.state.paired
                } else {
                    e.len() == 1 && replied(e[0], Reply::ErrNotConn) && after == k.state
                },
                UnifyingCommand::Delete => e.len() == 2 && e[0].action is Clear && replied(
                    e[1],
                    Reply::Deleted,
                ) && !after.paired && !after.connected,
                _ => true,
            }
        }),
{
    let b = k.begun(line);
    match b.phase {
        Phase::Idle => {
            if inputs.len() > 0 {
                nothing_asked(b, line, inputs);
            }
        },
        Phase::Say(_) => {
            one_event(b, line, inputs);
        },
        Phase::KeepAlive | Phase::Erase => {
            two_events(b, line, inputs);
        },
        _ => {},
    }
}

proof fn nothing_asked(k: Keyboard, line: Seq<u8>, inputs: Seq<KeyboardInput>)
    requires
        k.phase is Idle,
        answered(k, line, inputs),
    ensures
        inputs.len() == 0,
    decreases inputs.len(),
{
    if inputs.len() > 0 {
        nothing_asked(k, line, inputs.drop_last());
        assert(inputs.drop_last().len() == 0);
    }
}

// The radio test.

/// One sweep: the probe on each pairing channel in turn, and 2 ms of rest.
pub open spec fn swept(e: Seq<Event>, channels: Seq<u8>) -> bool {
    &&& e.len() == channels.len() + 1
    &&& forall|i: int|
        0 <= i < channels.len() ==> probed((#[trigger] e[i]).action, channels[i])
    &&& e.last().action == (KeyboardAction::Sleep { ms: 2 })
}

/// The probe on a channel.
pub open spec fn probed(action: KeyboardAction, on: u8) -> bool {
    action matches KeyboardAction::Probe { channel, payload } && channel == on && payload@ == seq![
        0x00u8,
        0x4F,
        0x00,
        0x00,
        0xB1,
    ]
}

/// The radio is switched to an encoding and pointed at the pairing address.
pub open spec fn selected(action: KeyboardAction, with: int) -> bool {
    action matches KeyboardAction::SelectEncoding { encoding, address } && encoding == with
        && address@ == seq![0xBBu8, 0x0A, 0xDC, 0xA5, 0x75]
}

/// An encoding was selected and that many sweeps made with it.
#[verifier::opaque]
pub open spec fn sweeps_made(
    e: Seq<Event>,
    encoding: int,
    sweeps: int,
    channels: Seq<u8>,
) -> bool
    decreases sweeps,
{
    if sweeps <= 0 {
        e.len() == 1 && selected(e[0].action, encoding)
    } else {
        exists|m: int|
            0 <= m <= e.len() && sweeps_made(e.take(m), encoding, sweeps - 1, channels)
                && #[trigger] swept(e.skip(m), channels)
    }
}

/// How many probes were acknowledged.
pub open spec fn probe_acks(e: Seq<Event>) -> int
    decreases e.len(),
{
    if e.len() == 0 {
        0
    } else {
        probe_acks(e.drop_last()) + if e.last().input == KeyboardInput::Acknowledged(true) {
            1int
        } else {
            0int
        }
    }
}

/// An encoding was tested with three sweeps, and the host told how many of its
/// probes were acknowledged.
pub open spec fn encoding_tested(e: Seq<Event>, encoding: int, channels: Seq<u8>) -> bool {
    &&& e.len() >= 1
    &&& sweeps_made(e.drop_last(), encoding, 3, channels)
    &&& e.last().action matches KeyboardAction::Reply(reply) && reply matches Reply::RadioTest {
        encoding: told,
        acks,
    } && told == encoding && acks == probe_acks(e.drop_last())
}

/// The radio was configured and the encodings below `n` tested in turn.
#[verifier::opaque]
pub open spec fn encodings_tested(e: Seq<Event>, n: int, channels: Seq<u8>) -> bool
    decreases n,
{
    if n <= 0 {
        e.len() == 1 && e[0].action is ConfigureRadio && granted(e[0].input)
    } else {
        exists|m: int|
            #![trigger e.skip(m)]
            0 <= m <= e.len() && encodings_tested(e.take(m), n - 1, channels) && encoding_tested(
                e.skip(m),
                n - 1,
                channels,
            )
    }
}

/// The encodings before this one are done with, and `m` says where it begins.
spec fn encoding_from(e: Seq<Event>, m: int, encoding: int, channels: Seq<u8>) -> bool {
    0 <= m <= e.len() && encodings_tested(e.take(m), encoding, channels)
}

#[verifier::opaque]
spec fn mid_sweep(
    e: Seq<Event>,
    encoding: int,
    sweep: int,
    at: int,
    acks: int,
    channels: Seq<u8>,
) -> bool {
    exists|m: int| #[trigger]
        encoding_from(e, m, encoding, channels) && partly_swept(
            e.skip(m),
            encoding,
            sweep,
            at,
            channels,
        ) && acks == probe_acks(e.skip(m))
}

spec fn partly_swept(
    e: Seq<Event>,
    encoding: int,
    sweep: int,
    at: int,
    channels: Seq<u8>,
) -> bool {
    &&& 0 <= at <= channels.len()
    &&& at <= e.len()
    &&& sweeps_made(e.take(e.len() - at), encoding, sweep, channels)
    &&& forall|i: int|
        0 <= i < at ==> probed((#[trigger] e.skip(e.len() - at)[i]).action, channels[i])
}

#[verifier::opaque]
spec fn between_sweeps(
    e: Seq<Event>,
    encoding: int,
    acks: int,
    channels: Seq<u8>,
) -> bool {
    exists|m: int| #[trigger]
        encoding_from(e, m, encoding, channels) && sweeps_made(e.skip(m), encoding, 3, channels)
            && acks == probe_acks(e.skip(m))
}

spec fn test_stage(k: Keyboard, e: Seq<Event>) -> bool {
    let channels = k.channels@;
    match k.phase {
        Phase::TestConfigure => e.len() == 0,
        Phase::TestSelect { encoding } => encodings_tested(e, encoding as int, channels),
        Phase::TestProbe { encoding, sweep, at, acks } => mid_sweep(
            e,
            encoding as int,
            sweep as int,
            at as int,
            acks as int,
            channels,
        ),
        Phase::TestRest { encoding, sweep, acks } => mid_sweep(
            e,
            encoding as int,
            sweep as int,
            channels.len() as int,
            acks as int,
            channels,
        ),
        Phase::TestReport { encoding, acks } => between_sweeps(
            e,
            encoding as int,
            acks as int,
            channels,
        ),
        Phase::Say(reply) => if reply == Reply::ErrRadio {
            e.len() == 1 && e[0].action is ConfigureRadio && refused(e[0].input)
        } else {
            reply == Reply::RadioTestDone && encodings_tested(e, 4, channels)
        },
        Phase::Idle => test_done(e, channels),
        _ => false,
    }
}

/// What a radio test is.
pub open spec fn test_done(e: Seq<Event>, channels: Seq<u8>) -> bool {
    ||| {
        &&& e.len() == 2
        &&& e[0].action is ConfigureRadio
        &&& refused(e[0].input)
        &&& replied(e[1], Reply::ErrRadio)
    }
    ||| {
        &&& e.len() >= 1
        &&& encodings_tested(e.drop_last(), 4, channels)
        &&& replied(e.last(), Reply::RadioTestDone)
    }
}

proof fn probe_acks_push(e: Seq<Event>, event: Event)
    ensures
        probe_acks(e.push(event)) == probe_acks(e) + if event.input == KeyboardInput::Acknowledged(
            true,
        ) {
            1int
        } else {
            0int
        },
{
    assert(e.push(event).drop_last() =~= e);
}

proof fn sweep_starts(
    k: Keyboard,
    e: Seq<Event>,
    m: int,
    encoding: u8,
    sweep: u8,
    acks: u32,
)
    requires
        encoding_from(e, m, encoding as int, k.channels@),
        sweeps_made(e.skip(m), encoding as int, sweep as int, k.channels@),
        acks == probe_acks(e.skip(m)),
        k.phase == k.sweep_phase(encoding, sweep, acks),
    ensures
        test_stage(k, e),
{
    reveal(mid_sweep);
    let b = e.skip(m);
    assert(b.take(b.len() as int) =~= b);
    assert(partly_swept(b, encoding as int, sweep as int, 0, k.channels@));
    assert(mid_sweep(e, encoding as int, sweep as int, 0, acks as int, k.channels@));
}

proof fn probe_made(
    e: Seq<Event>,
    event: Event,
    encoding: int,
    sweep: int,
    at: int,
    acks: int,
    channels: Seq<u8>,
)
    requires
        mid_sweep(e, encoding, sweep, at, acks, channels),
        at < channels.len(),
        probed(event.action, channels[at]),
    ensures
        mid_sweep(
            e.push(event),
            encoding,
            sweep,
            at + 1,
            acks + if event.input == KeyboardInput::Acknowledged(true) {
                1int
            } else {
                0int
            },
            channels,
        ),
{
    reveal(mid_sweep);
    let more = e.push(event);
    let m = choose|m: int| #[trigger]
        encoding_from(e, m, encoding, channels) && partly_swept(
            e.skip(m),
            encoding,
            sweep,
            at,
            channels,
        ) && acks == probe_acks(e.skip(m));
    assert(more.take(m) =~= e.take(m));
    let old_b = e.skip(m);
    let b = more.skip(m);
    assert(b =~= old_b.push(event));
    probe_acks_push(old_b, event);
    assert(b.take(b.len() - (at + 1)) =~= old_b.take(old_b.len() - at));
    assert forall|i: int| 0 <= i < at + 1 implies probed(
        (#[trigger] b.skip(b.len() - (at + 1))[i]).action,
        channels[i],
    ) by {
        if i < at {
            assert(b.skip(b.len() - (at + 1))[i] == old_b.skip(old_b.len() - at)[i]);
        } else {
            assert(b.skip(b.len() - (at + 1))[i] == event);
        }
    }
    assert(partly_swept(b, encoding, sweep, at + 1, channels));
    assert(encoding_from(more, m, encoding, channels));
}

proof fn sweep_made(
    e: Seq<Event>,
    event: Event,
    encoding: int,
    sweep: int,
    acks: int,
    channels: Seq<u8>,
) -> (m: int)
    requires
        mid_sweep(e, encoding, sweep, channels.len() as int, acks, channels),
        sweep >= 0,
        event.action == (KeyboardAction::Sleep { ms: 2 }),
        event.input is Done,
    ensures
        encoding_from(e.push(event), m, encoding, channels),
        sweeps_made(e.push(event).skip(m), encoding, sweep + 1, channels),
        acks == probe_acks(e.push(event).skip(m)),
{
    reveal(mid_sweep);
    reveal(sweeps_made);
    let more = e.push(event);
    let n = channels.len() as int;
    let m = choose|m: int| #[trigger]
        encoding_from(e, m, encoding, channels) && partly_swept(
            e.skip(m),
            encoding,
            sweep,
            n,
            channels,
        ) && acks == probe_acks(e.skip(m));
    assert(more.take(m) =~= e.take(m));
    let old_b = e.skip(m);
    let b = more.skip(m);
    assert(b =~= old_b.push(event));
    probe_acks_push(old_b, event);
    let start = old_b.len() - n;
    assert(b.take(start) =~= old_b.take(start));
    assert forall|i: int| 0 <= i < n implies probed(
        (#[trigger] b.skip(start)[i]).action,
        channels[i],
    ) by {
        assert(b.skip(start)[i] == old_b.skip(start)[i]);
    }
    assert(swept(b.skip(start), channels));
    m
}

proof fn encoding_reported(
    e: Seq<Event>,
    event: Event,
    encoding: int,
    acks: u32,
    channels: Seq<u8>,
)
    requires
        0 <= encoding < 256,
        between_sweeps(e, encoding, acks as int, channels),
        replied(event, Reply::RadioTest { encoding: encoding as u8, acks }),
    ensures
        encodings_tested(e.push(event), encoding + 1, channels),
{
    reveal(between_sweeps);
    reveal(encodings_tested);
    let more = e.push(event);
    let m = choose|m: int| #[trigger]
        encoding_from(e, m, encoding, channels) && sweeps_made(e.skip(m), encoding, 3, channels)
            && acks == probe_acks(e.skip(m));
    assert(more.take(m) =~= e.take(m));
    let b = more.skip(m);
    assert(b.drop_last() =~= e.skip(m));
    assert(encoding_tested(b, encoding, channels));
}

proof fn test_advances(k: Keyboard, line: Seq<u8>, input: KeyboardInput, e: Seq<Event>)
    requires
        k.wf(line.len()),
        answers(k.asks(), input),
        test_stage(k, e),
    ensures
        test_stage(stepped(k, line, input), e.push(Event { action: k.asks(), input })),
{
    reveal(stepped);
    let event = Event { action: k.asks(), input };
    let more = e.push(event);
    let next = stepped(k, line, input);
    let channels = k.channels@;
    assert(more.drop_last() =~= e);
    match k.phase {
        Phase::TestConfigure => {
            assert(granted(input) ==> encodings_tested(more, 0, channels)) by {
                reveal(encodings_tested);
            }
        },
        Phase::TestSelect { encoding } => {
            let m = e.len() as int;
            assert(more.take(m) =~= e);
            let b = more.skip(m);
            assert(b =~= seq![event]);
            assert(event.action->SelectEncoding_address@ =~= seq![0xBBu8, 0x0A, 0xDC, 0xA5, 0x75]);
            assert(sweeps_made(b, encoding as int, 0, channels)) by {
                reveal(sweeps_made);
            }
            assert(encoding_from(more, m, encoding as int, channels));
            probe_acks_push(Seq::empty(), event);
            assert(Seq::<Event>::empty().push(event) =~= b);
            sweep_starts(next, more, m, encoding, 0, 0);
        },
        Phase::TestProbe { encoding, sweep, at, acks } => {
            assert(event.action->payload@ =~= seq![0x00u8, 0x4F, 0x00, 0x00, 0xB1]);
            probe_made(
                e,
                event,
                encoding as int,
                sweep as int,
                at as int,
                acks as int,
                channels,
            );
        },
        Phase::TestRest { encoding, sweep, acks } => {
            let m = sweep_made(e, event, encoding as int, sweep as int, acks as int, channels);
            if sweep + 1 < 3 {
                sweep_starts(next, more, m, encoding, (sweep + 1) as u8, acks);
            } else {
                assert(between_sweeps(more, encoding as int, acks as int, channels)) by {
                    reveal(between_sweeps);
                }
            }
        },
        Phase::TestReport { encoding, acks } => {
            encoding_reported(e, event, encoding as int, acks, channels);
        },
        _ => {},
    }
}

proof fn test_runs(k: Keyboard, line: Seq<u8>, inputs: Seq<KeyboardInput>)
    requires
        k.wf(line.len()),
        k.phase is TestConfigure,
        answered(k, line, inputs),
    ensures
        run(k, line, inputs).wf(line.len()),
        run(k, line, inputs).channels == k.channels,
        test_stage(run(k, line, inputs), events(k, line, inputs)),
    decreases inputs.len(),
{
    if inputs.len() > 0 {
        let earlier = inputs.drop_last();
        test_runs(k, line, earlier);
        let at = run(k, line, earlier);
        stays_well_formed(at, line, inputs.last());
        device_step(at, line, inputs.last());
        test_advances(at, line, inputs.last(), events(k, line, earlier));
    }
}

/// The radio test: the radio is configured. Then, for each of the four address
/// encodings in turn, the encoding is selected with the pairing address, the
/// probe sent once on each pairing channel in three sweeps with 2 ms of rest
/// after each, and the host told how many of these probes were acknowledged. At
/// the end the host is told that the test is over. Nothing else is done.
pub proof fn radio_test_script(k: Keyboard, line: Seq<u8>, inputs: Seq<KeyboardInput>)
    requires
        completed(k, line, inputs),
        unifying_command(line) is RadioTest,
    ensures
        test_done(events(k.begun(line), line, inputs), k.channels@),
{
    test_runs(k.begun(line), line, inputs);
    finished_is_idle(run(k.begun(line), line, inputs), line.len());
}

} // verus!
