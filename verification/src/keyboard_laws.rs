//! What holds of every keyboard command, however its actions go.

use crate::commands::{UnifyingCommand, TYPE_TEXT_AT};
use crate::esb_radio::EsbRadio;
use crate::keyboard::{
    Keyboard, KeyboardAction, KeyboardInput, Phase, CONNECT_ATTEMPTS, HELD_FRAMES, LINE_LEN,
    MAX_CHANNELS, PAIR_ATTEMPTS, TEST_SWEEPS, WARM_TICKS,
};
use crate::keystroke::{StrokePhase, SEND_ATTEMPTS};
use crate::replies::Reply;
use crate::state::{KeyReport, UnifyingState};
use crate::storage::{FlashInput, LoadJob, Profile, SaveJob};
use vstd::prelude::*;

verus! {

use crate::commands::{type_text_follows, unifying_command};
use crate::keyboard::{sent_reply, typing};
use crate::keymap::hid_key;
use crate::keystroke::{stroke_ends, stroke_measure, typing_presses};
use crate::state::{device_of, profile_of, profile_survives};
use crate::storage::{is_log, load_after_save, load_result, load_runs, save_result, save_runs};

/// The input is an answer to the action.
pub open spec fn answers(action: KeyboardAction, input: KeyboardInput) -> bool {
    match action {
        KeyboardAction::ConfigureRadio => input is Device,
        KeyboardAction::SelectEncoding { .. } => input is Done,
        KeyboardAction::Probe { .. } => input is Acknowledged,
        KeyboardAction::ReadTicks => input is Ticks,
        KeyboardAction::Pair(_) => input is Device,
        KeyboardAction::Connect => input is Device,
        KeyboardAction::Tick => input is Device,
        KeyboardAction::SendReport(_) => input is Device,
        KeyboardAction::Sleep { .. } => input is Done,
        KeyboardAction::Save(_) => input is Done,
        KeyboardAction::Clear => input is Done,
        KeyboardAction::Reply(_) => input is Done,
        KeyboardAction::Finished => false,
    }
}

/// The keyboard after one input.
#[verifier::opaque]
pub open spec fn stepped(k: Keyboard, line: Seq<u8>, input: KeyboardInput) -> Keyboard {
    k.next(line, input)
}

/// The keyboard after a row of inputs.
pub open spec fn run(k: Keyboard, line: Seq<u8>, inputs: Seq<KeyboardInput>) -> Keyboard
    decreases inputs.len(),
{
    if inputs.len() == 0 {
        k
    } else {
        stepped(run(k, line, inputs.drop_last()), line, inputs.last())
    }
}

/// Each input answers the action that was asked for.
pub open spec fn answered(k: Keyboard, line: Seq<u8>, inputs: Seq<KeyboardInput>) -> bool
    decreases inputs.len(),
{
    inputs.len() == 0 || (answered(k, line, inputs.drop_last()) && answers(
        run(k, line, inputs.drop_last()).asks(),
        inputs.last(),
    ))
}

/// The actions that were asked for, in order.
pub open spec fn asked(k: Keyboard, line: Seq<u8>, inputs: Seq<KeyboardInput>) -> Seq<
    KeyboardAction,
>
    decreases inputs.len(),
{
    if inputs.len() == 0 {
        Seq::empty()
    } else {
        asked(k, line, inputs.drop_last()).push(run(k, line, inputs.drop_last()).asks())
    }
}

/// The replies among the actions.
pub open spec fn replies(actions: Seq<KeyboardAction>) -> Seq<Reply>
    decreases actions.len(),
{
    if actions.len() == 0 {
        Seq::empty()
    } else {
        let earlier = replies(actions.drop_last());
        match actions.last() {
            KeyboardAction::Reply(reply) => earlier.push(reply),
            _ => earlier,
        }
    }
}

/// The profile saved last among the actions, if any was.
pub open spec fn last_saved(actions: Seq<KeyboardAction>) -> Option<Profile>
    decreases actions.len(),
{
    if actions.len() == 0 {
        None
    } else {
        match actions.last() {
            KeyboardAction::Save(profile) => Some(profile),
            _ => last_saved(actions.drop_last()),
        }
    }
}

// Every command ends.

/// The actions after the report of an encoding in a radio test, at most: each
/// further encoding takes one to select it, 33 for each of three sweeps, and one
/// to report.
spec fn after_encoding(encoding: u8) -> int {
    (EsbRadio::ADDR_ENCODINGS - 1 - encoding) * 101 + 1
}

/// A bound on the actions that a command still wants done, for a line of `len`
/// bytes.
spec fn actions_left(k: Keyboard, len: nat) -> int {
    match k.phase {
        Phase::Idle => 0,
        Phase::Say(_) => 1,
        Phase::TestConfigure => after_encoding(0) + 101 + 1,
        Phase::TestSelect { encoding } => after_encoding(encoding) + 101,
        Phase::TestProbe { encoding, sweep, at, .. } => after_encoding(encoding) + 2 + (TEST_SWEEPS
            - 1 - sweep) * 33 + (MAX_CHANNELS - at),
        Phase::TestRest { encoding, sweep, .. } => after_encoding(encoding) + 2 + (TEST_SWEEPS - 1
            - sweep) * 33,
        Phase::TestReport { encoding, .. } => after_encoding(encoding) + 1,
        Phase::PairId => 21,
        Phase::PairCrypto { .. } => 20,
        Phase::PairConfigure { .. } => 19,
        Phase::PairTry { failures, .. } => 2 + 2 * (PAIR_ATTEMPTS - failures),
        Phase::PairRest { failures, .. } => 3 + 2 * (PAIR_ATTEMPTS - failures),
        Phase::PairSave => 2,
        Phase::ConnectConfigure => 123,
        Phase::ConnectTry { failures } => 2 + 2 * (CONNECT_ATTEMPTS - failures),
        Phase::ConnectRest { failures } => 3 + 2 * (CONNECT_ATTEMPTS - failures),
        Phase::KeepAlive => 2,
        Phase::Erase => 2,
        Phase::KeyWarm { ticks, .. } => 84 + (WARM_TICKS - ticks),
        Phase::KeyStroke { stroke } => 2int + stroke_measure(stroke) as int,
        Phase::KeySave { .. } => 2,
        Phase::TypeWarm { ticks } => 3 + 83 * len + (WARM_TICKS - ticks),
        Phase::TypeStroke { at, stroke, .. } => 3 + 83 * (len - 1 - at) + stroke_measure(stroke) as int,
        Phase::TypeRest { at, .. } => 3 + 83 * (len - 1 - at),
        Phase::TypeReport { .. } => 2,
        Phase::TypeSave => 1,
    }
}

/// A step keeps the keyboard well-formed, and an answer brings the command
/// nearer to its end.
#[verifier::rlimit(60)]
proof fn step_progress(k: Keyboard, line: Seq<u8>, input: KeyboardInput)
    requires
        k.wf(line.len()),
    ensures
        stepped(k, line, input).wf(line.len()),
        actions_left(k, line.len()) >= 0,
        answers(k.asks(), input) ==> actions_left(stepped(k, line, input), line.len()) < actions_left(
            k,
            line.len(),
        ),
        actions_left(k, line.len()) == 0 <==> k.asks() is Finished,
{
    reveal(stepped);
    match k.phase {
        Phase::Idle | Phase::Say(_) | Phase::KeepAlive | Phase::Erase => {},
        Phase::TestConfigure | Phase::TestSelect { .. } => {},
        Phase::TestProbe { .. } => {},
        Phase::TestRest { .. } | Phase::TestReport { .. } => {},
        Phase::PairId | Phase::PairCrypto { .. } | Phase::PairConfigure { .. } => {},
        Phase::PairTry { .. } | Phase::PairRest { .. } | Phase::PairSave => {},
        Phase::ConnectConfigure => {},
        Phase::ConnectTry { .. } | Phase::ConnectRest { .. } => {},
        Phase::KeyWarm { .. } | Phase::KeySave { .. } => {},
        Phase::KeyStroke { stroke } => {
            if let KeyboardInput::Device { ok, .. } = input {
                stroke_ends(stroke, ok);
            }
        },
        Phase::TypeWarm { .. } => {
            if TYPE_TEXT_AT < line.len() {
                typing_presses(line[TYPE_TEXT_AT as int]);
            }
        },
        Phase::TypeStroke { stroke, .. } => {
            if let KeyboardInput::Device { ok, .. } = input {
                stroke_ends(stroke, ok);
            }
        },
        Phase::TypeRest { at, .. } => {
            if at + 1 < line.len() {
                typing_presses(line[at + 1]);
            }
        },
        Phase::TypeReport { .. } | Phase::TypeSave => {},
    }
}

/// A step keeps the keyboard well-formed.
pub proof fn stays_well_formed(k: Keyboard, line: Seq<u8>, input: KeyboardInput)
    requires
        k.wf(line.len()),
    ensures
        stepped(k, line, input).wf(line.len()),
{
    step_progress(k, line, input);
}

/// What is no answer to the action that was asked for changes nothing.
pub proof fn unasked_is_ignored(k: Keyboard, line: Seq<u8>, input: KeyboardInput)
    requires
        k.wf(line.len()),
        !answers(k.asks(), input),
    ensures
        k.next(line, input) == k,
{
    match k.phase {
        Phase::Idle | Phase::Say(_) | Phase::KeepAlive | Phase::Erase => {},
        Phase::TestConfigure | Phase::TestSelect { .. } => {},
        Phase::TestProbe { .. } => {},
        Phase::TestRest { .. } | Phase::TestReport { .. } => {},
        Phase::PairId | Phase::PairCrypto { .. } | Phase::PairConfigure { .. } => {},
        Phase::PairTry { .. } | Phase::PairRest { .. } | Phase::PairSave => {},
        Phase::ConnectConfigure => {},
        Phase::ConnectTry { .. } | Phase::ConnectRest { .. } => {},
        Phase::KeyWarm { .. } | Phase::KeySave { .. } => {},
        Phase::KeyStroke { .. } => {},
        Phase::TypeWarm { .. } | Phase::TypeStroke { .. } | Phase::TypeRest { .. } => {},
        Phase::TypeReport { .. } | Phase::TypeSave => {},
    }
}

/// Only a keyboard with no command running has nothing to ask for.
pub proof fn finished_is_idle(k: Keyboard, len: nat)
    requires
        k.wf(len),
        k.asks() is Finished,
    ensures
        k.phase is Idle,
{
}

/// The most actions that a command can take: those of typing the longest text.
pub const MAX_ACTIONS: usize = 21_256;

/// Every command ends: however its actions go, there are no more than so many
/// of them, and as long as it is not done with, one is asked for.
pub proof fn commands_end(k: Keyboard, line: Seq<u8>, inputs: Seq<KeyboardInput>)
    requires
        k.wf(line.len()),
        line.len() <= LINE_LEN,
        answered(k.begun(line), line, inputs),
    ensures
        inputs.len() <= MAX_ACTIONS,
        inputs.len() == MAX_ACTIONS ==> run(k.begun(line), line, inputs).asks() is Finished,
        run(k.begun(line), line, inputs).wf(line.len()),
{
    actions_bounded(k.begun(line), line, inputs);
}

proof fn actions_bounded(k: Keyboard, line: Seq<u8>, inputs: Seq<KeyboardInput>)
    requires
        k.wf(line.len()),
        answered(k, line, inputs),
    ensures
        run(k, line, inputs).wf(line.len()),
        inputs.len() + actions_left(run(k, line, inputs), line.len()) <= actions_left(
            k,
            line.len(),
        ),
        actions_left(run(k, line, inputs), line.len()) >= 0,
        actions_left(run(k, line, inputs), line.len()) == 0 <==> run(
            k,
            line,
            inputs,
        ).asks() is Finished,
    decreases inputs.len(),
{
    if inputs.len() > 0 {
        actions_bounded(k, line, inputs.drop_last());
        step_progress(run(k, line, inputs.drop_last()), line, inputs.last());
    }
    step_progress(run(k, line, inputs), line, KeyboardInput::Done);
}

// Every command is answered.

/// The replies that a command has yet to send, once it is known whether the
/// radio works.
spec fn replies_left(phase: Phase) -> int {
    match phase {
        Phase::Idle => 0,
        Phase::TypeSave => 0,
        Phase::TestSelect { encoding } => EsbRadio::ADDR_ENCODINGS + 1 - encoding,
        Phase::TestProbe { encoding, .. } => EsbRadio::ADDR_ENCODINGS + 1 - encoding,
        Phase::TestRest { encoding, .. } => EsbRadio::ADDR_ENCODINGS + 1 - encoding,
        Phase::TestReport { encoding, .. } => EsbRadio::ADDR_ENCODINGS + 1 - encoding,
        _ => 1,
    }
}

proof fn reply_step(k: Keyboard, line: Seq<u8>, input: KeyboardInput)
    requires
        k.wf(line.len()),
        answers(k.asks(), input),
        k.phase !is TestConfigure,
    ensures
        stepped(k, line, input).phase !is TestConfigure,
        replies_left(stepped(k, line, input).phase) + (if k.asks() is Reply {
            1int
        } else {
            0int
        }) == replies_left(k.phase),
{
    reveal(stepped);
    match k.phase {
        Phase::Idle | Phase::Say(_) | Phase::KeepAlive | Phase::Erase => {},
        Phase::TestConfigure | Phase::TestSelect { .. } => {},
        Phase::TestProbe { .. } => {},
        Phase::TestRest { .. } | Phase::TestReport { .. } => {},
        Phase::PairId | Phase::PairCrypto { .. } | Phase::PairConfigure { .. } => {},
        Phase::PairTry { .. } | Phase::PairRest { .. } | Phase::PairSave => {},
        Phase::ConnectConfigure => {},
        Phase::ConnectTry { .. } | Phase::ConnectRest { .. } => {},
        Phase::KeyWarm { .. } | Phase::KeySave { .. } | Phase::KeyStroke { .. } => {},
        Phase::TypeWarm { .. } | Phase::TypeStroke { .. } | Phase::TypeRest { .. } => {},
        Phase::TypeReport { .. } | Phase::TypeSave => {},
    }
}

proof fn replies_counted(k: Keyboard, line: Seq<u8>, inputs: Seq<KeyboardInput>)
    requires
        k.wf(line.len()),
        answered(k, line, inputs),
        k.phase !is TestConfigure,
    ensures
        run(k, line, inputs).wf(line.len()),
        run(k, line, inputs).phase !is TestConfigure,
        replies(asked(k, line, inputs)).len() + replies_left(run(k, line, inputs).phase)
            == replies_left(k.phase),
    decreases inputs.len(),
{
    if inputs.len() > 0 {
        let earlier = inputs.drop_last();
        let before = run(k, line, earlier);
        replies_counted(k, line, earlier);
        step_progress(before, line, inputs.last());
        reply_step(before, line, inputs.last());
        assert(asked(k, line, inputs).drop_last() =~= asked(k, line, earlier));
    }
}

/// Every line but an empty one is answered, and every command but the radio
/// test by exactly one reply.
pub proof fn answered_once(k: Keyboard, line: Seq<u8>, inputs: Seq<KeyboardInput>)
    requires
        k.wf(line.len()),
        line.len() <= LINE_LEN,
        unifying_command(line) !is RadioTest,
        answered(k.begun(line), line, inputs),
        run(k.begun(line), line, inputs).asks() is Finished,
    ensures
        replies(asked(k.begun(line), line, inputs)).len() == if line.len() == 0 {
            0nat
        } else {
            1nat
        },
{
    replies_counted(k.begun(line), line, inputs);
    finished_is_idle(run(k.begun(line), line, inputs), line.len());
}

/// How many probes were acknowledged.
pub open spec fn acknowledged_probes(inputs: Seq<KeyboardInput>) -> nat
    decreases inputs.len(),
{
    if inputs.len() == 0 {
        0
    } else {
        acknowledged_probes(inputs.drop_last()) + if inputs.last() == KeyboardInput::Acknowledged(
            true,
        ) {
            1nat
        } else {
            0nat
        }
    }
}

/// The sum of the acknowledgements that the replies report.
pub open spec fn reported_acks(replies: Seq<Reply>) -> nat
    decreases replies.len(),
{
    if replies.len() == 0 {
        0
    } else {
        reported_acks(replies.drop_last()) + match replies.last() {
            Reply::RadioTest { acks, .. } => acks as nat,
            _ => 0nat,
        }
    }
}

/// The first replies of a radio test: one per encoding, in order, and the last
/// one.
pub open spec fn test_replies(r: Seq<Reply>) -> bool {
    &&& r.len() <= EsbRadio::ADDR_ENCODINGS + 1
    &&& forall|i: int|
        0 <= i < r.len() && i < EsbRadio::ADDR_ENCODINGS ==> (#[trigger] r[i] matches Reply::RadioTest {
            encoding,
            ..
        } && encoding == i)
    &&& r.len() == EsbRadio::ADDR_ENCODINGS + 1 ==> r.last() == Reply::RadioTestDone
}

proof fn test_progress(k: Keyboard, line: Seq<u8>, inputs: Seq<KeyboardInput>)
    requires
        k.wf(line.len()),
        k.phase is TestConfigure,
        answered(k, line, inputs),
    ensures
        run(k, line, inputs).wf(line.len()),
        ({
            let r = replies(asked(k, line, inputs));
            let acks = acknowledged_probes(inputs);
            match run(k, line, inputs).phase {
                Phase::TestConfigure => r.len() == 0 && acks == 0,
                Phase::TestSelect { encoding } => r.len() == encoding && test_replies(r)
                    && reported_acks(r) == acks,
                Phase::TestProbe { encoding, acks: seen, .. } => r.len() == encoding
                    && test_replies(r) && reported_acks(r) + seen == acks,
                Phase::TestRest { encoding, acks: seen, .. } => r.len() == encoding
                    && test_replies(r) && reported_acks(r) + seen == acks,
                Phase::TestReport { encoding, acks: seen } => r.len() == encoding
                    && test_replies(r) && reported_acks(r) + seen == acks,
                Phase::Say(reply) => if reply == Reply::ErrRadio {
                    r.len() == 0
                } else {
                    reply == Reply::RadioTestDone && r.len() == EsbRadio::ADDR_ENCODINGS
                        && test_replies(r) && reported_acks(r) == acks
                },
                Phase::Idle => r == seq![Reply::ErrRadio] || (r.len() == EsbRadio::ADDR_ENCODINGS
                    + 1 && test_replies(r) && reported_acks(r) == acks),
                _ => false,
            }
        }),
    decreases inputs.len(),
{
    reveal(stepped);
    if inputs.len() > 0 {
        let earlier = inputs.drop_last();
        let before = run(k, line, earlier);
        test_progress(k, line, earlier);
        step_progress(before, line, inputs.last());
        let actions = asked(k, line, inputs);
        assert(actions.drop_last() =~= asked(k, line, earlier));
        let r0 = replies(asked(k, line, earlier));
        if let KeyboardAction::Reply(reply) = before.asks() {
            assert(r0.push(reply).drop_last() =~= r0);
        }
        match before.phase {
            Phase::TestConfigure => {
                assert(r0 =~= Seq::empty());
            },
            Phase::Say(reply) => {
                if reply == Reply::ErrRadio {
                    assert(r0 =~= Seq::empty());
                    assert(replies(actions) =~= seq![Reply::ErrRadio]);
                }
            },
            _ => {},
        }
    }
}

/// A radio test reports each encoding in turn, and every acknowledged probe is
/// counted in one of the reports. If the radio does not work, that is the only
/// reply.
pub proof fn radio_test_reports(k: Keyboard, line: Seq<u8>, inputs: Seq<KeyboardInput>)
    requires
        k.wf(line.len()),
        line.len() <= LINE_LEN,
        unifying_command(line) is RadioTest,
        answered(k.begun(line), line, inputs),
        run(k.begun(line), line, inputs).asks() is Finished,
    ensures
        ({
            let r = replies(asked(k.begun(line), line, inputs));
            r == seq![Reply::ErrRadio] || (r.len() == EsbRadio::ADDR_ENCODINGS + 1 && test_replies(
                r,
            ) && reported_acks(r) == acknowledged_probes(inputs))
        }),
{
    test_progress(k.begun(line), line, inputs);
    finished_is_idle(run(k.begun(line), line, inputs), line.len());
}

// Refusals.

/// A request that cannot be met is answered by the error, and nothing else is
/// done: keys without a connection, a connection without a pairing, and
/// arguments that spell no report.
pub proof fn refused_requests(k: Keyboard, line: Seq<u8>, inputs: Seq<KeyboardInput>)
    requires
        answered(k.begun(line), line, inputs),
        run(k.begun(line), line, inputs).asks() is Finished,
    ensures
        ({
            let command = unifying_command(line);
            let keys = command is Key || command is KeyDown;
            let error = if command is Connect && !k.state.paired {
                Some(Reply::ErrNotPaired)
            } else if (keys || command is Type || command is KeepAlive) && !k.state.connected {
                Some(Reply::ErrNotConn)
            } else if command == UnifyingCommand::Key(None) || command == UnifyingCommand::KeyDown(
                None,
            ) {
                Some(Reply::ErrArg)
            } else if command is Unknown {
                Some(Reply::Commands)
            } else {
                None
            };
            error matches Some(reply) ==> {
                &&& asked(k.begun(line), line, inputs) == seq![KeyboardAction::Reply(reply)]
                &&& run(k.begun(line), line, inputs).state == k.state
            }
        }),
{
    let b = k.begun(line);
    if let Phase::Say(reply) = b.phase {
        said(b, line, inputs);
    }
}

proof fn said(k: Keyboard, line: Seq<u8>, inputs: Seq<KeyboardInput>)
    requires
        k.phase is Say,
        answered(k, line, inputs),
    ensures
        run(k, line, inputs).state == k.state,
        run(k, line, inputs).phase == k.phase && asked(k, line, inputs) == Seq::<
            KeyboardAction,
        >::empty() || run(k, line, inputs).phase is Idle && asked(k, line, inputs) == seq![
            k.asks(),
        ],
    decreases inputs.len(),
{
    reveal(stepped);
    if inputs.len() > 0 {
        said(k, line, inputs.drop_last());
        assert(Seq::<KeyboardAction>::empty().push(k.asks()) =~= seq![k.asks()]);
    }
}

/// What makes sure that there is no connection without a pairing.
pub open spec fn linked(k: Keyboard) -> bool {
    &&& k.state.connected ==> k.state.paired
    &&& (k.phase is ConnectConfigure || k.phase is ConnectTry || k.phase is ConnectRest)
        ==> k.state.paired
}

/// No command, however far it has come, leaves a connection without a pairing.
pub proof fn connection_needs_pairing(k: Keyboard, line: Seq<u8>, input: KeyboardInput)
    requires
        linked(k),
    ensures
        linked(k.begun(line)),
        linked(k.next(line, input)),
{
}

/// Without a connection no keyboard report is ever sent.
pub proof fn reports_need_connection(k: Keyboard, line: Seq<u8>, inputs: Seq<KeyboardInput>)
    requires
        !k.state.connected,
        answered(k.begun(line), line, inputs),
    ensures
        forall|i: int|
            0 <= i < inputs.len() ==> asked(k.begun(line), line, inputs)[i] !is SendReport,
{
    silent(k.begun(line), line, inputs);
}

spec fn sends_keys(phase: Phase) -> bool {
    phase is KeyWarm || phase is KeyStroke || phase is TypeWarm || phase is TypeStroke
        || phase is TypeRest
}

proof fn silent_step(k: Keyboard, line: Seq<u8>, input: KeyboardInput)
    requires
        !sends_keys(k.phase),
    ensures
        !sends_keys(stepped(k, line, input).phase),
        k.asks() !is SendReport,
{
    reveal(stepped);
}

proof fn silent(k: Keyboard, line: Seq<u8>, inputs: Seq<KeyboardInput>)
    requires
        !sends_keys(k.phase),
        answered(k, line, inputs),
    ensures
        !sends_keys(run(k, line, inputs).phase),
        asked(k, line, inputs).len() == inputs.len(),
        forall|i: int| 0 <= i < inputs.len() ==> asked(k, line, inputs)[i] !is SendReport,
    decreases inputs.len(),
{
    if inputs.len() > 0 {
        silent(k, line, inputs.drop_last());
        silent_step(run(k, line, inputs.drop_last()), line, inputs.last());
    }
}

/// A deleted pairing is erased from the flash and forgotten.
pub proof fn delete_forgets(k: Keyboard, line: Seq<u8>, inputs: Seq<KeyboardInput>)
    requires
        unifying_command(line) is Delete,
        answered(k.begun(line), line, inputs),
        run(k.begun(line), line, inputs).asks() is Finished,
    ensures
        asked(k.begun(line), line, inputs) == seq![
            KeyboardAction::Clear,
            KeyboardAction::Reply(Reply::Deleted),
        ],
        !run(k.begun(line), line, inputs).state.paired,
        !run(k.begun(line), line, inputs).state.connected,
{
    erased(k.begun(line), line, inputs);
}

proof fn erased(k: Keyboard, line: Seq<u8>, inputs: Seq<KeyboardInput>)
    requires
        k.phase is Erase,
        answered(k, line, inputs),
    ensures
        ({
            let after = run(k, line, inputs);
            let actions = asked(k, line, inputs);
            let clear = KeyboardAction::Clear;
            let deleted = KeyboardAction::Reply(Reply::Deleted);
            ||| after.phase is Erase && actions == Seq::<KeyboardAction>::empty()
            ||| !after.state.paired && !after.state.connected && after.phase == Phase::Say(
                Reply::Deleted,
            ) && actions == seq![clear]
            ||| !after.state.paired && !after.state.connected && after.phase is Idle && actions
                == seq![clear, deleted]
        }),
    decreases inputs.len(),
{
    reveal(stepped);
    if inputs.len() > 0 {
        erased(k, line, inputs.drop_last());
        let clear = KeyboardAction::Clear;
        let deleted = KeyboardAction::Reply(Reply::Deleted);
        assert(Seq::<KeyboardAction>::empty().push(clear) =~= seq![clear]);
        assert(seq![clear].push(deleted) =~= seq![clear, deleted]);
    }
}

// Typing.

/// How many characters some key types.
pub open spec fn typable(text: Seq<u8>) -> nat
    decreases text.len(),
{
    if text.len() == 0 {
        0
    } else {
        typable(text.drop_last()) + if hid_key(text.last()) is Some {
            1nat
        } else {
            0nat
        }
    }
}

/// How many reports with a key down were acknowledged.
pub open spec fn presses(actions: Seq<KeyboardAction>, inputs: Seq<KeyboardInput>) -> nat
    decreases actions.len(),
{
    if actions.len() == 0 {
        0
    } else {
        presses(actions.drop_last(), inputs.drop_last()) + match (actions.last(), inputs.last()) {
            (KeyboardAction::SendReport(report), KeyboardInput::Device { ok: true, .. }) => if report
                != KeyReport::released() {
                1nat
            } else {
                0nat
            },
            _ => 0nat,
        }
    }
}

proof fn typable_further(line: Seq<u8>, from: int, at: int)
    requires
        0 <= from <= at < line.len(),
    ensures
        typable(line.subrange(from, at + 1)) == typable(line.subrange(from, at)) + if hid_key(
            line[at],
        ) is Some {
            1nat
        } else {
            0nat
        },
{
    assert(line.subrange(from, at + 1).drop_last() =~= line.subrange(from, at));
}

/// What holds of a typing command after `pressed` acknowledged presses and the
/// replies `r`.
spec fn typing_state(phase: Phase, line: Seq<u8>, pressed: nat, r: Seq<Reply>) -> bool {
    let from = TYPE_TEXT_AT as int;
    match phase {
        Phase::TypeWarm { .. } => r.len() == 0 && pressed == 0,
        Phase::TypeStroke { at, ok, total, stroke } => {
            &&& r.len() == 0
            &&& from <= at < line.len()
            &&& total == typable(line.subrange(from, at + 1))
            &&& pressed == ok + if stroke.pressed {
                1nat
            } else {
                0nat
            }
            &&& stroke.release
            &&& stroke.report != KeyReport::released()
            &&& (stroke.phase is Press || stroke.phase is PressFailed) ==> !stroke.pressed
        },
        Phase::TypeRest { at, ok, total } => {
            &&& r.len() == 0
            &&& from <= at < line.len()
            &&& total == typable(line.subrange(from, at + 1))
            &&& pressed == ok
        },
        Phase::TypeReport { ok, total } => r.len() == 0 && total == typable(line.skip(from))
            && pressed == ok,
        Phase::TypeSave | Phase::Idle => {
            &&& r.len() == 1
            &&& r[0] matches Reply::Typed { ok, total } && ok == pressed && total == typable(
                line.skip(from),
            )
        },
        _ => false,
    }
}

proof fn typing_starts(line: Seq<u8>, at: int, ok: u32, total: u32)
    requires
        TYPE_TEXT_AT <= at <= line.len() <= LINE_LEN,
        total == typable(line.subrange(TYPE_TEXT_AT as int, at)),
        total <= LINE_LEN,
    ensures
        typing_state(typing(line, at, ok, total), line, ok as nat, Seq::empty()),
{
    if at < line.len() {
        typing_presses(line[at]);
        typable_further(line, TYPE_TEXT_AT as int, at);
    } else {
        assert(line.subrange(TYPE_TEXT_AT as int, at) =~= line.skip(TYPE_TEXT_AT as int));
    }
}

proof fn typing_step(
    k: Keyboard,
    line: Seq<u8>,
    input: KeyboardInput,
    actions: Seq<KeyboardAction>,
    inputs: Seq<KeyboardInput>,
)
    requires
        k.wf(line.len()),
        TYPE_TEXT_AT <= line.len() <= LINE_LEN,
        answers(k.asks(), input),
        actions.len() == inputs.len(),
        typing_state(k.phase, line, presses(actions, inputs), replies(actions)),
    ensures
        typing_state(
            stepped(k, line, input).phase,
            line,
            presses(actions.push(k.asks()), inputs.push(input)),
            replies(actions.push(k.asks())),
        ),
{
    reveal(stepped);
    let more = actions.push(k.asks());
    let longer = inputs.push(input);
    assert(more.drop_last() =~= actions);
    assert(longer.drop_last() =~= inputs);
    let pressed = presses(actions, inputs);
    let r = replies(actions);
    match k.phase {
        Phase::TypeWarm { .. } => {
            assert(r =~= Seq::empty());
            assert(line.subrange(TYPE_TEXT_AT as int, TYPE_TEXT_AT as int) =~= Seq::empty());
            typing_starts(line, TYPE_TEXT_AT as int, 0, 0);
        },
        Phase::TypeStroke { .. } => {},
        Phase::TypeRest { at, ok, total } => {
            assert(r =~= Seq::empty());
            typing_starts(line, at + 1, ok, total);
        },
        Phase::TypeReport { .. } => {
            assert(r =~= Seq::empty());
        },
        _ => {},
    }
}

proof fn typing_progress(k: Keyboard, line: Seq<u8>, inputs: Seq<KeyboardInput>)
    requires
        k.wf(line.len()),
        k.phase == (Phase::TypeWarm { ticks: 0 }),
        TYPE_TEXT_AT <= line.len() <= LINE_LEN,
        answered(k, line, inputs),
    ensures
        run(k, line, inputs).wf(line.len()),
        asked(k, line, inputs).len() == inputs.len(),
        typing_state(
            run(k, line, inputs).phase,
            line,
            presses(asked(k, line, inputs), inputs),
            replies(asked(k, line, inputs)),
        ),
    decreases inputs.len(),
{
    if inputs.len() > 0 {
        let earlier = inputs.drop_last();
        let before = run(k, line, earlier);
        typing_progress(k, line, earlier);
        step_progress(before, line, inputs.last());
        typing_step(before, line, inputs.last(), asked(k, line, earlier), earlier);
        assert(earlier.push(inputs.last()) =~= inputs);
    }
}

/// What is typed is answered by `TYPED <ok>/<total>`: the total is the number of
/// characters in the text that some key types, and of these the receiver
/// acknowledged the press of exactly that many.
pub proof fn typing_counts(k: Keyboard, line: Seq<u8>, inputs: Seq<KeyboardInput>)
    requires
        k.wf(line.len()),
        line.len() <= LINE_LEN,
        unifying_command(line) is Type,
        k.state.connected,
        answered(k.begun(line), line, inputs),
        run(k.begun(line), line, inputs).asks() is Finished,
    ensures
        ({
            let actions = asked(k.begun(line), line, inputs);
            &&& replies(actions).len() == 1
            &&& replies(actions)[0] matches Reply::Typed { ok, total } && total == typable(
                line.skip(TYPE_TEXT_AT as int),
            ) && ok == presses(actions, inputs)
        }),
{
    type_text_follows(line);
    typing_progress(k.begun(line), line, inputs);
    finished_is_idle(run(k.begun(line), line, inputs), line.len());
}

// Saving the counter.

/// What holds of a burst of keys in a paired state.
spec fn burst_state(k: Keyboard, saved: Option<Profile>) -> bool {
    &&& k.state.paired
    &&& match k.phase {
        Phase::KeyWarm { release, .. } => release,
        Phase::KeyStroke { stroke } => stroke.release,
        Phase::KeySave { .. } => true,
        Phase::TypeWarm { .. } => true,
        Phase::TypeStroke { .. } => true,
        Phase::TypeRest { .. } => true,
        Phase::TypeReport { .. } => true,
        Phase::TypeSave => true,
        Phase::Say(_) => saved == Some(profile_of(k.state.device)),
        Phase::Idle => saved == Some(profile_of(k.state.device)),
        _ => false,
    }
}

proof fn burst_step(k: Keyboard, line: Seq<u8>, input: KeyboardInput, saved: Option<Profile>)
    requires
        k.wf(line.len()),
        answers(k.asks(), input),
        burst_state(k, saved),
    ensures
        burst_state(
            stepped(k, line, input),
            match k.asks() {
                KeyboardAction::Save(profile) => Some(profile),
                _ => saved,
            },
        ),
{
    reveal(stepped);
    match k.phase {
        Phase::KeyWarm { .. } => {},
        Phase::KeyStroke { .. } => {},
        Phase::KeySave { .. } => {},
        Phase::TypeWarm { .. } => {},
        Phase::TypeStroke { .. } => {},
        Phase::TypeRest { .. } => {},
        Phase::TypeReport { .. } | Phase::TypeSave => {},
        _ => {},
    }
}

proof fn burst_progress(k: Keyboard, line: Seq<u8>, inputs: Seq<KeyboardInput>)
    requires
        k.wf(line.len()),
        burst_state(k, None),
        answered(k, line, inputs),
    ensures
        run(k, line, inputs).wf(line.len()),
        burst_state(run(k, line, inputs), last_saved(asked(k, line, inputs))),
    decreases inputs.len(),
{
    if inputs.len() > 0 {
        let earlier = inputs.drop_last();
        let before = run(k, line, earlier);
        burst_progress(k, line, earlier);
        step_progress(before, line, inputs.last());
        burst_step(before, line, inputs.last(), last_saved(asked(k, line, earlier)));
        assert(asked(k, line, inputs).drop_last() =~= asked(k, line, earlier));
    }
}

/// After a burst of keys the AES counter is persisted as it then stands, so that
/// after a reset the device goes on with a counter that the receiver has not
/// seen.
pub proof fn counter_saved(k: Keyboard, line: Seq<u8>, inputs: Seq<KeyboardInput>)
    requires
        k.wf(line.len()),
        line.len() <= LINE_LEN,
        k.state.paired,
        k.state.connected,
        unifying_command(line) is Type || (unifying_command(line) matches UnifyingCommand::Key(args)
            && args is Some),
        answered(k.begun(line), line, inputs),
        run(k.begun(line), line, inputs).asks() is Finished,
    ensures
        last_saved(asked(k.begun(line), line, inputs)) == Some(
            profile_of(run(k.begun(line), line, inputs).state.device),
        ),
{
    burst_progress(k.begun(line), line, inputs);
    finished_is_idle(run(k.begun(line), line, inputs), line.len());
}

/// What a burst of keys leaves in the flash is what the device finds there after
/// a reset: on any log, a load after the save gives the pairing with the counter
/// as the burst left it.
pub proof fn counter_survives_reset(
    k: Keyboard,
    line: Seq<u8>,
    inputs: Seq<KeyboardInput>,
    page: Seq<Seq<u8>>,
    n: int,
    saving: Seq<FlashInput>,
    loading: Seq<FlashInput>,
)
    requires
        k.wf(line.len()),
        line.len() <= LINE_LEN,
        k.state.paired,
        k.state.connected,
        unifying_command(line) is Type || (unifying_command(line) matches UnifyingCommand::Key(args)
            && args is Some),
        answered(k.begun(line), line, inputs),
        run(k.begun(line), line, inputs).asks() is Finished,
        is_log(page, n),
        ({
            let saved = last_saved(asked(k.begun(line), line, inputs));
            saved matches Some(profile) ==> {
                let job = SaveJob::start(profile);
                save_runs(job, page, saving) && load_runs(
                    LoadJob::start(),
                    save_result(job, page, saving),
                    loading,
                )
            }
        }),
    ensures
        load_result(LoadJob::start(), loading).latest matches Some(profile) && device_of(profile)
            == run(k.begun(line), line, inputs).state.device,
{
    counter_saved(k, line, inputs);
    let device = run(k.begun(line), line, inputs).state.device;
    load_after_save(profile_of(device), page, n, saving, loading);
    profile_survives(profile_of(device), device);
}

/// What holds of a held key, begun with `frames` frames since the last save.
spec fn held_state(k: Keyboard, frames: int, paired: bool, saved: Option<Profile>) -> bool {
    let full = frames + 1 == HELD_FRAMES;
    &&& k.state.paired == paired
    &&& match k.phase {
        Phase::KeyWarm { release, .. } => !release && saved is None && k.state.held_frames
            == frames,
        Phase::KeyStroke { stroke } => !stroke.release && saved is None && k.state.held_frames
            == frames,
        Phase::KeySave { .. } => paired && full && k.state.held_frames == 0 && saved is None,
        Phase::Say(_) | Phase::Idle => {
            &&& k.state.held_frames == if full {
                0
            } else {
                frames + 1
            }
            &&& saved == if full && paired {
                Some(profile_of(k.state.device))
            } else {
                None
            }
        },
        _ => false,
    }
}

proof fn held_step(
    k: Keyboard,
    line: Seq<u8>,
    input: KeyboardInput,
    frames: int,
    paired: bool,
    saved: Option<Profile>,
)
    requires
        k.wf(line.len()),
        answers(k.asks(), input),
        frames < HELD_FRAMES,
        held_state(k, frames, paired, saved),
    ensures
        held_state(
            stepped(k, line, input),
            frames,
            paired,
            match k.asks() {
                KeyboardAction::Save(profile) => Some(profile),
                _ => saved,
            },
        ),
{
    reveal(stepped);
    match k.phase {
        Phase::KeyWarm { .. } => {},
        Phase::KeyStroke { .. } => {},
        _ => {},
    }
}

proof fn held_progress(k: Keyboard, line: Seq<u8>, inputs: Seq<KeyboardInput>)
    requires
        k.wf(line.len()),
        k.phase is KeyWarm,
        !k.phase->KeyWarm_release,
        answered(k, line, inputs),
    ensures
        run(k, line, inputs).wf(line.len()),
        held_state(
            run(k, line, inputs),
            k.state.held_frames as int,
            k.state.paired,
            last_saved(asked(k, line, inputs)),
        ),
    decreases inputs.len(),
{
    if inputs.len() > 0 {
        let earlier = inputs.drop_last();
        let before = run(k, line, earlier);
        held_progress(k, line, earlier);
        step_progress(before, line, inputs.last());
        held_step(
            before,
            line,
            inputs.last(),
            k.state.held_frames as int,
            k.state.paired,
            last_saved(asked(k, line, earlier)),
        );
        assert(asked(k, line, inputs).drop_last() =~= asked(k, line, earlier));
    }
}

/// Held-key frames are counted, and with every 128th of them the AES counter is
/// persisted as it then stands, if there is a pairing.
pub proof fn held_frames_saved(k: Keyboard, line: Seq<u8>, inputs: Seq<KeyboardInput>)
    requires
        k.wf(line.len()),
        line.len() <= LINE_LEN,
        k.state.connected,
        unifying_command(line) matches UnifyingCommand::KeyDown(args) && args is Some,
        answered(k.begun(line), line, inputs),
        run(k.begun(line), line, inputs).asks() is Finished,
    ensures
        ({
            let after = run(k.begun(line), line, inputs).state;
            &&& after.held_frames == (k.state.held_frames + 1) % (HELD_FRAMES as int)
            &&& last_saved(asked(k.begun(line), line, inputs)) == if after.held_frames == 0
                && k.state.paired {
                Some(profile_of(after.device))
            } else {
                None
            }
        }),
{
    held_progress(k.begun(line), line, inputs);
    finished_is_idle(run(k.begun(line), line, inputs), line.len());
}

/// No other command counts as a held-key frame.
pub proof fn held_frames_kept(k: Keyboard, line: Seq<u8>, inputs: Seq<KeyboardInput>)
    requires
        k.wf(line.len()),
        line.len() <= LINE_LEN,
        unifying_command(line) !is KeyDown,
        answered(k.begun(line), line, inputs),
    ensures
        run(k.begun(line), line, inputs).state.held_frames == k.state.held_frames,
{
    frames_kept(k.begun(line), line, inputs);
}

spec fn holds_no_key(phase: Phase) -> bool {
    match phase {
        Phase::KeyWarm { release, .. } => release,
        Phase::KeyStroke { stroke } => stroke.release,
        _ => true,
    }
}

proof fn frames_kept_step(k: Keyboard, line: Seq<u8>, input: KeyboardInput)
    requires
        holds_no_key(k.phase),
    ensures
        holds_no_key(stepped(k, line, input).phase),
        stepped(k, line, input).state.held_frames == k.state.held_frames,
{
    reveal(stepped);
}

proof fn frames_kept(k: Keyboard, line: Seq<u8>, inputs: Seq<KeyboardInput>)
    requires
        holds_no_key(k.phase),
    ensures
        holds_no_key(run(k, line, inputs).phase),
        run(k, line, inputs).state.held_frames == k.state.held_frames,
    decreases inputs.len(),
{
    if inputs.len() > 0 {
        frames_kept(k, line, inputs.drop_last());
        frames_kept_step(run(k, line, inputs.drop_last()), line, inputs.last());
    }
}

// Pairing and connecting.

/// How often pairing was tried.
pub open spec fn pair_tries(actions: Seq<KeyboardAction>) -> nat {
    actions.filter(|a: KeyboardAction| a is Pair).len()
}

/// How often connecting was tried.
pub open spec fn connect_tries(actions: Seq<KeyboardAction>) -> nat {
    actions.filter(|a: KeyboardAction| a is Connect).len()
}

/// What a reply to a pairing command says, where pairing was tried so often and
/// the keyboard is then in the state `after`.
pub open spec fn pair_outcome(
    reply: Reply,
    tries: nat,
    saved: Option<Profile>,
    before: UnifyingState,
    after: UnifyingState,
) -> bool {
    match reply {
        Reply::ErrRadio => {
            &&& tries == 0
            &&& saved is None
            &&& after.paired == before.paired
            &&& after.connected == before.connected
        },
        Reply::ErrPair => {
            &&& tries == PAIR_ATTEMPTS
            &&& saved is None
            &&& after.paired == before.paired
            &&& after.connected == before.connected
        },
        Reply::Paired { address, channel } => {
            &&& 1 <= tries <= PAIR_ATTEMPTS
            &&& saved == Some(profile_of(after.device))
            &&& after.paired
            &&& after.connected
            &&& address == after.device.address
            &&& channel == after.device.channel
        },
        _ => false,
    }
}

spec fn pairing_state(
    k: Keyboard,
    before: UnifyingState,
    tries: nat,
    saved: Option<Profile>,
    r: Seq<Reply>,
) -> bool {
    let untouched = k.state.paired == before.paired && k.state.connected == before.connected;
    match k.phase {
        Phase::PairId | Phase::PairCrypto { .. } | Phase::PairConfigure { .. } => untouched
            && tries == 0 && saved is None && r.len() == 0,
        Phase::PairTry { failures, .. } => untouched && tries == failures && saved is None
            && r.len() == 0,
        Phase::PairRest { failures, .. } => untouched && tries == failures && saved is None
            && r.len() == 0,
        Phase::PairSave => k.state.paired && k.state.connected && 1 <= tries <= PAIR_ATTEMPTS
            && r.len() == 0,
        Phase::Say(reply) => pair_outcome(reply, tries, saved, before, k.state) && r.len() == 0,
        Phase::Idle => r.len() == 1 && pair_outcome(r[0], tries, saved, before, k.state),
        _ => false,
    }
}

proof fn one_more(actions: Seq<KeyboardAction>, action: KeyboardAction)
    ensures
        pair_tries(actions.push(action)) == pair_tries(actions) + if action is Pair {
            1nat
        } else {
            0nat
        },
        connect_tries(actions.push(action)) == connect_tries(actions) + if action is Connect {
            1nat
        } else {
            0nat
        },
        replies(actions.push(action)) == match action {
            KeyboardAction::Reply(reply) => replies(actions).push(reply),
            _ => replies(actions),
        },
        last_saved(actions.push(action)) == match action {
            KeyboardAction::Save(profile) => Some(profile),
            _ => last_saved(actions),
        },
{
    let more = actions.push(action);
    assert(more.drop_last() =~= actions);
    reveal(Seq::filter);
}

proof fn pairing_progress(k: Keyboard, line: Seq<u8>, inputs: Seq<KeyboardInput>)
    requires
        k.wf(line.len()),
        k.phase is PairId,
        answered(k, line, inputs),
    ensures
        run(k, line, inputs).wf(line.len()),
        ({
            let actions = asked(k, line, inputs);
            pairing_state(
                run(k, line, inputs),
                k.state,
                pair_tries(actions),
                last_saved(actions),
                replies(actions),
            )
        }),
    decreases inputs.len(),
{
    reveal(stepped);
    if inputs.len() > 0 {
        let earlier = inputs.drop_last();
        let before = run(k, line, earlier);
        let actions = asked(k, line, earlier);
        pairing_progress(k, line, earlier);
        step_progress(before, line, inputs.last());
        one_more(actions, before.asks());
        match before.phase {
            Phase::PairId | Phase::PairCrypto { .. } => {},
            Phase::PairConfigure { .. } => {},
            Phase::PairTry { .. } | Phase::PairRest { .. } => {},
            Phase::PairSave => {},
            _ => {},
        }
    } else {
        reveal(Seq::filter);
    }
}

/// Pairing is tried at most eight times. Its reply says how it went: an error
/// leaves the pairing as it was, and success is a new pairing that is persisted
/// and connected.
pub proof fn pairing_outcome(k: Keyboard, line: Seq<u8>, inputs: Seq<KeyboardInput>)
    requires
        k.wf(line.len()),
        line.len() <= LINE_LEN,
        unifying_command(line) is Pair,
        answered(k.begun(line), line, inputs),
        run(k.begun(line), line, inputs).asks() is Finished,
    ensures
        ({
            let actions = asked(k.begun(line), line, inputs);
            let r = replies(actions);
            r.len() == 1 && pair_outcome(
                r[0],
                pair_tries(actions),
                last_saved(actions),
                k.state,
                run(k.begun(line), line, inputs).state,
            )
        }),
{
    pairing_progress(k.begun(line), line, inputs);
    finished_is_idle(run(k.begun(line), line, inputs), line.len());
}

/// What a reply to a connect command says.
pub open spec fn connect_outcome(
    reply: Reply,
    tries: nat,
    before: UnifyingState,
    after: UnifyingState,
) -> bool {
    match reply {
        Reply::ErrRadio => tries == 0 && after.connected == before.connected,
        Reply::ErrConnect => tries == CONNECT_ATTEMPTS && after.connected == before.connected,
        Reply::Connected { channel } => 1 <= tries <= CONNECT_ATTEMPTS && after.connected && channel
            == after.device.channel,
        _ => false,
    }
}

spec fn connecting_state(k: Keyboard, before: UnifyingState, tries: nat, r: Seq<Reply>) -> bool {
    &&& k.state.paired == before.paired
    &&& match k.phase {
        Phase::ConnectConfigure => k.state.connected == before.connected && tries == 0 && r.len()
            == 0,
        Phase::ConnectTry { failures } => k.state.connected == before.connected && tries == failures
            && r.len() == 0,
        Phase::ConnectRest { failures } => k.state.connected == before.connected && tries
            == failures && r.len() == 0,
        Phase::Say(reply) => connect_outcome(reply, tries, before, k.state) && r.len() == 0,
        Phase::Idle => r.len() == 1 && connect_outcome(r[0], tries, before, k.state),
        _ => false,
    }
}

proof fn connecting_progress(k: Keyboard, line: Seq<u8>, inputs: Seq<KeyboardInput>)
    requires
        k.wf(line.len()),
        k.phase is ConnectConfigure,
        answered(k, line, inputs),
    ensures
        run(k, line, inputs).wf(line.len()),
        ({
            let actions = asked(k, line, inputs);
            connecting_state(
                run(k, line, inputs),
                k.state,
                connect_tries(actions),
                replies(actions),
            )
        }),
    decreases inputs.len(),
{
    reveal(stepped);
    if inputs.len() > 0 {
        let earlier = inputs.drop_last();
        let before = run(k, line, earlier);
        connecting_progress(k, line, earlier);
        step_progress(before, line, inputs.last());
        one_more(asked(k, line, earlier), before.asks());
        match before.phase {
            Phase::ConnectConfigure => {},
            Phase::ConnectTry { .. } | Phase::ConnectRest { .. } => {},
            _ => {},
        }
    } else {
        reveal(Seq::filter);
    }
}

/// Connecting to a paired receiver is tried at most sixty times, and its reply
/// says how it went. The pairing stays.
pub proof fn connecting_outcome(k: Keyboard, line: Seq<u8>, inputs: Seq<KeyboardInput>)
    requires
        k.wf(line.len()),
        line.len() <= LINE_LEN,
        unifying_command(line) is Connect,
        k.state.paired,
        answered(k.begun(line), line, inputs),
        run(k.begun(line), line, inputs).asks() is Finished,
    ensures
        ({
            let actions = asked(k.begun(line), line, inputs);
            let r = replies(actions);
            let after = run(k.begun(line), line, inputs).state;
            &&& r.len() == 1
            &&& connect_outcome(r[0], connect_tries(actions), k.state, after)
            &&& after.paired
        }),
{
    connecting_progress(k.begun(line), line, inputs);
    finished_is_idle(run(k.begun(line), line, inputs), line.len());
}

// Keys.

/// Which of the reports that were sent were acknowledged, in order.
pub open spec fn send_acks(actions: Seq<KeyboardAction>, inputs: Seq<KeyboardInput>) -> Seq<bool>
    decreases actions.len(),
{
    if actions.len() == 0 {
        Seq::empty()
    } else {
        let earlier = send_acks(actions.drop_last(), inputs.drop_last());
        match (actions.last(), inputs.last()) {
            (KeyboardAction::SendReport(_), KeyboardInput::Device { ok, .. }) => earlier.push(ok),
            _ => earlier,
        }
    }
}

/// One of the first twenty reports was acknowledged.
pub open spec fn press_acknowledged(acks: Seq<bool>) -> bool {
    exists|i: int| 0 <= i < acks.len() && i < SEND_ATTEMPTS && #[trigger] acks[i]
}

spec fn key_state(phase: Phase, acks: Seq<bool>, r: Seq<Reply>) -> bool {
    match phase {
        Phase::KeyWarm { .. } => acks.len() == 0 && r.len() == 0,
        Phase::KeyStroke { stroke } => {
            &&& r.len() == 0
            &&& stroke.pressed == press_acknowledged(acks)
            &&& match stroke.phase {
                StrokePhase::Press { failures } => !stroke.pressed && acks.len() == failures,
                StrokePhase::PressFailed { failures } => !stroke.pressed && acks.len() == failures,
                _ => stroke.pressed || acks.len() >= SEND_ATTEMPTS,
            }
        },
        Phase::KeySave { pressed } => r.len() == 0 && pressed == press_acknowledged(acks),
        Phase::Say(reply) => r.len() == 0 && reply == sent_reply(press_acknowledged(acks)),
        Phase::Idle => r.len() == 1 && r[0] == sent_reply(press_acknowledged(acks)),
        _ => false,
    }
}

proof fn acknowledged_push(acks: Seq<bool>, ok: bool)
    ensures
        press_acknowledged(acks.push(ok)) == (press_acknowledged(acks) || (ok && acks.len()
            < SEND_ATTEMPTS)),
{
    let more = acks.push(ok);
    if press_acknowledged(acks) {
        let i = choose|i: int| 0 <= i < acks.len() && i < SEND_ATTEMPTS && #[trigger] acks[i];
        assert(more[i]);
    }
    if ok && acks.len() < SEND_ATTEMPTS {
        assert(more[acks.len() as int]);
    }
    if press_acknowledged(more) && !press_acknowledged(acks) {
        let i = choose|i: int| 0 <= i < more.len() && i < SEND_ATTEMPTS && #[trigger] more[i];
        if i < acks.len() {
            assert(acks[i]);
        }
    }
}

proof fn key_step(k: Keyboard, line: Seq<u8>, input: KeyboardInput, acks: Seq<bool>, r: Seq<Reply>)
    requires
        k.wf(line.len()),
        answers(k.asks(), input),
        key_state(k.phase, acks, r),
    ensures
        key_state(
            stepped(k, line, input).phase,
            match (k.asks(), input) {
                (KeyboardAction::SendReport(_), KeyboardInput::Device { ok, .. }) => acks.push(ok),
                _ => acks,
            },
            match k.asks() {
                KeyboardAction::Reply(reply) => r.push(reply),
                _ => r,
            },
        ),
{
    reveal(stepped);
    match k.phase {
        Phase::KeyStroke { .. } => {
            if let KeyboardInput::Device { ok, .. } = input {
                acknowledged_push(acks, ok);
            }
        },
        _ => {},
    }
}

proof fn key_progress(k: Keyboard, line: Seq<u8>, inputs: Seq<KeyboardInput>)
    requires
        k.wf(line.len()),
        k.phase is KeyWarm,
        answered(k, line, inputs),
    ensures
        run(k, line, inputs).wf(line.len()),
        asked(k, line, inputs).len() == inputs.len(),
        key_state(
            run(k, line, inputs).phase,
            send_acks(asked(k, line, inputs), inputs),
            replies(asked(k, line, inputs)),
        ),
    decreases inputs.len(),
{
    if inputs.len() > 0 {
        let earlier = inputs.drop_last();
        let before = run(k, line, earlier);
        let actions = asked(k, line, earlier);
        key_progress(k, line, earlier);
        step_progress(before, line, inputs.last());
        one_more(actions, before.asks());
        assert(actions.push(before.asks()).drop_last() =~= actions);
        key_step(before, line, inputs.last(), send_acks(actions, earlier), replies(actions));
    }
}

/// A key command is answered by `OK` if the receiver acknowledged the press, and
/// by `ERR SEND` if it did not. As only twenty presses are sent, and after an
/// acknowledged one no more of them, that is whether it acknowledged one of the
/// first twenty reports.
pub proof fn key_reply_tells(k: Keyboard, line: Seq<u8>, inputs: Seq<KeyboardInput>)
    requires
        k.wf(line.len()),
        line.len() <= LINE_LEN,
        k.state.connected,
        unifying_command(line) matches UnifyingCommand::Key(Some(_)) || unifying_command(
            line,
        ) matches UnifyingCommand::KeyDown(Some(_)),
        answered(k.begun(line), line, inputs),
        run(k.begun(line), line, inputs).asks() is Finished,
    ensures
        ({
            let actions = asked(k.begun(line), line, inputs);
            replies(actions) == seq![
                if press_acknowledged(send_acks(actions, inputs)) {
                    Reply::Done
                } else {
                    Reply::ErrSend
                },
            ]
        }),
{
    key_progress(k.begun(line), line, inputs);
    finished_is_idle(run(k.begun(line), line, inputs), line.len());
}

} // verus!
