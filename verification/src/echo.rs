//! The serial echo: greets its host once and sends back what it receives.
//!
//! `Echo` decides; its owner acts on the USB device.

use crate::buffer::ByteBuf;
use crate::replies::PACKET_LEN;
use vstd::prelude::*;
use vstd::string::StringSliceAdditionalSpecFns;

verus! {

/// What the echo wants done next.
#[derive(Clone, Copy, Debug, PartialEq, Eq)]
pub enum EchoAction {
    /// Poll the USB device.
    Poll,
    /// Write the greeting to the serial port.
    Greet,
    /// Read from the serial port.
    Read,
    /// Write the pending bytes to the serial port.
    WriteBack,
}

/// How an action went.
#[derive(Clone, Copy, Debug)]
pub enum EchoInput {
    /// The USB device has something to do, or not.
    Polled(bool),
    /// So many bytes were taken.
    Wrote(usize),
    /// The port is busy.
    Blocked,
    /// These bytes were read.
    Got(ByteBuf<PACKET_LEN>),
    /// The port failed.
    Failed,
}

/// Where the echo stands.
#[derive(Clone, Copy, Debug, PartialEq, Eq)]
pub enum EchoPhase {
    Polling,
    Greeting,
    Reading,
    WritingBack,
}

/// The greeting.
pub open spec fn greeting_text() -> Seq<u8> {
    "Hello, World! from nRF52840 USB CDC\r\n".spec_bytes()
}

/// The greeting.
pub fn greeting() -> (text: &'static [u8])
    ensures
        text@ == greeting_text(),
{
    "Hello, World! from nRF52840 USB CDC\r\n".as_bytes()
}

/// The echo, as a mathematical object.
pub struct EchoModel {
    /// The whole greeting has been taken at once.
    pub greeted: bool,
    /// The bytes that have been read but not written back.
    pub pending: Seq<u8>,
    pub phase: EchoPhase,
}

impl EchoModel {
    /// Bytes are pending exactly while they are written back.
    pub open spec fn wf(self) -> bool {
        self.phase is WritingBack <==> self.pending.len() > 0
    }

    /// What the echo wants done next.
    pub open spec fn asks(self) -> EchoAction {
        match self.phase {
            EchoPhase::Polling => EchoAction::Poll,
            EchoPhase::Greeting => EchoAction::Greet,
            EchoPhase::Reading => EchoAction::Read,
            EchoPhase::WritingBack => EchoAction::WriteBack,
        }
    }

    /// The echo with these bytes pending.
    pub open spec fn pending(self, bytes: Seq<u8>) -> EchoModel {
        EchoModel {
            pending: bytes,
            phase: if bytes.len() > 0 {
                EchoPhase::WritingBack
            } else {
                EchoPhase::Polling
            },
            ..self
        }
    }

    /// The echo once its action has gone as `input` says. An input that is no
    /// answer to the action changes nothing.
    pub open spec fn next(self, input: EchoInput) -> EchoModel {
        match (self.phase, input) {
            (EchoPhase::Polling, EchoInput::Polled(busy)) => EchoModel {
                phase: if !busy {
                    EchoPhase::Polling
                } else if self.greeted {
                    EchoPhase::Reading
                } else {
                    EchoPhase::Greeting
                },
                ..self
            },
            (EchoPhase::Greeting, EchoInput::Wrote(n)) => EchoModel {
                greeted: n == greeting_text().len(),
                phase: EchoPhase::Reading,
                ..self
            },
            (EchoPhase::Greeting, EchoInput::Blocked) => EchoModel {
                phase: EchoPhase::Reading,
                ..self
            },
            (EchoPhase::Greeting, EchoInput::Failed) => EchoModel {
                phase: EchoPhase::Reading,
                ..self
            },
            (EchoPhase::Reading, EchoInput::Got(bytes)) => self.pending(bytes@),
            (EchoPhase::Reading, EchoInput::Blocked) => self.pending(Seq::empty()),
            (EchoPhase::Reading, EchoInput::Failed) => self.pending(Seq::empty()),
            (EchoPhase::WritingBack, EchoInput::Wrote(n)) => if n < self.pending.len() {
                self.pending(self.pending.skip(n as int))
            } else {
                self.pending(Seq::empty())
            },
            (EchoPhase::WritingBack, EchoInput::Failed) => self.pending(Seq::empty()),
            _ => self,
        }
    }
}

/// The serial echo.
#[derive(Clone, Copy, Debug)]
pub struct Echo {
    pub greeted: bool,
    pub pending: ByteBuf<PACKET_LEN>,
    pub phase: EchoPhase,
}

impl View for Echo {
    type V = EchoModel;

    open spec fn view(&self) -> EchoModel {
        EchoModel { greeted: self.greeted, pending: self.pending@, phase: self.phase }
    }
}

impl Echo {
    /// An echo that has yet to greet its host.
    pub fn new() -> (echo: Echo)
        ensures
            echo@ == (EchoModel {
                greeted: false,
                pending: Seq::empty(),
                phase: EchoPhase::Polling,
            }),
            echo@.wf(),
    {
        Echo { greeted: false, pending: ByteBuf::new(), phase: EchoPhase::Polling }
    }

    /// What the echo wants done next.
    pub fn action(&self) -> (action: EchoAction)
        ensures
            action == self@.asks(),
    {
        match self.phase {
            EchoPhase::Polling => EchoAction::Poll,
            EchoPhase::Greeting => EchoAction::Greet,
            EchoPhase::Reading => EchoAction::Read,
            EchoPhase::WritingBack => EchoAction::WriteBack,
        }
    }

    fn set_pending(&mut self, bytes: ByteBuf<PACKET_LEN>)
        ensures
            final(self)@ == old(self)@.pending(bytes@),
    {
        self.pending = bytes;
        self.phase = if bytes.len() > 0 {
            EchoPhase::WritingBack
        } else {
            EchoPhase::Polling
        };
    }

    /// Goes on once the action has gone as `input` says.
    pub fn step(&mut self, input: &EchoInput)
        requires
            old(self)@.wf(),
        ensures
            final(self)@ == old(self)@.next(*input),
            final(self)@.wf(),
    {
        match (self.phase, *input) {
            (EchoPhase::Polling, EchoInput::Polled(busy)) => {
                if busy {
                    self.phase = if self.greeted {
                        EchoPhase::Reading
                    } else {
                        EchoPhase::Greeting
                    };
                }
            },
            (EchoPhase::Greeting, EchoInput::Wrote(n)) => {
                self.greeted = n == greeting().len();
                self.phase = EchoPhase::Reading;
            },
            (EchoPhase::Greeting, EchoInput::Blocked) => {
                self.phase = EchoPhase::Reading;
            },
            (EchoPhase::Greeting, EchoInput::Failed) => {
                self.phase = EchoPhase::Reading;
            },
            (EchoPhase::Reading, EchoInput::Got(bytes)) => {
                self.set_pending(bytes);
            },
            (EchoPhase::Reading, EchoInput::Blocked) => {
                self.set_pending(ByteBuf::new());
            },
            (EchoPhase::Reading, EchoInput::Failed) => {
                self.set_pending(ByteBuf::new());
            },
            (EchoPhase::WritingBack, EchoInput::Wrote(n)) => {
                if n < self.pending.len() {
                    let mut rest: ByteBuf<PACKET_LEN> = self.pending;
                    rest.drop_front(n);
                    self.set_pending(rest);
                } else {
                    self.set_pending(ByteBuf::new());
                }
            },
            (EchoPhase::WritingBack, EchoInput::Failed) => {
                self.set_pending(ByteBuf::new());
            },
            _ => {},
        }
    }
}

// Laws.

/// The input is an answer to what the echo asked for. A port takes no more bytes
/// than it was offered.
pub open spec fn echo_answers(e: EchoModel, input: EchoInput) -> bool {
    match e.asks() {
        EchoAction::Poll => input is Polled,
        EchoAction::Greet => input is Wrote || input is Blocked || input is Failed,
        EchoAction::Read => input is Got || input is Blocked || input is Failed,
        EchoAction::WriteBack => match input {
            EchoInput::Wrote(n) => n <= e.pending.len(),
            EchoInput::Blocked => true,
            EchoInput::Failed => true,
            _ => false,
        },
    }
}

/// The bytes that the host has sent.
pub open spec fn bytes_in(start: EchoModel, inputs: Seq<EchoInput>) -> Seq<u8>
    decreases inputs.len(),
{
    if inputs.len() == 0 {
        Seq::empty()
    } else {
        let earlier = bytes_in(start, inputs.drop_last());
        match inputs.last() {
            EchoInput::Got(bytes) => earlier + bytes@,
            _ => earlier,
        }
    }
}

/// The echo after a row of inputs.
pub open spec fn echo_run(start: EchoModel, inputs: Seq<EchoInput>) -> EchoModel
    decreases inputs.len(),
{
    if inputs.len() == 0 {
        start
    } else {
        echo_run(start, inputs.drop_last()).next(inputs.last())
    }
}

/// Each input is an answer, and the port never fails while it is written to.
pub open spec fn echo_works(start: EchoModel, inputs: Seq<EchoInput>) -> bool
    decreases inputs.len(),
{
    inputs.len() == 0 || {
        let e = echo_run(start, inputs.drop_last());
        &&& echo_works(start, inputs.drop_last())
        &&& echo_answers(e, inputs.last())
        &&& e.asks() is WriteBack ==> inputs.last() !is Failed
    }
}

/// The bytes that the host got back.
pub open spec fn bytes_back(start: EchoModel, inputs: Seq<EchoInput>) -> Seq<u8>
    decreases inputs.len(),
{
    if inputs.len() == 0 {
        Seq::empty()
    } else {
        let earlier = bytes_back(start, inputs.drop_last());
        let e = echo_run(start, inputs.drop_last());
        match (e.asks(), inputs.last()) {
            (EchoAction::WriteBack, EchoInput::Wrote(n)) => earlier + e.pending.take(n as int),
            _ => earlier,
        }
    }
}

/// As long as the port does not fail, every byte that the host sends comes back
/// once and in order: what has come back and what is pending make up what was
/// sent.
pub proof fn echo_returns(start: EchoModel, inputs: Seq<EchoInput>)
    requires
        start.wf(),
        start.pending.len() == 0,
        echo_works(start, inputs),
    ensures
        echo_run(start, inputs).wf(),
        bytes_back(start, inputs) + echo_run(start, inputs).pending == bytes_in(start, inputs),
    decreases inputs.len(),
{
    if inputs.len() > 0 {
        let earlier = inputs.drop_last();
        echo_returns(start, earlier);
        let e = echo_run(start, earlier);
        let after = echo_run(start, inputs);
        let back = bytes_back(start, earlier);
        match (e.phase, inputs.last()) {
            (EchoPhase::Reading, EchoInput::Got(bytes)) => {
                assert(back + e.pending =~= back);
                assert(back + bytes@ =~= bytes_in(start, inputs));
            },
            (EchoPhase::WritingBack, EchoInput::Wrote(n)) => {
                assert(back + e.pending.take(n as int) + e.pending.skip(n as int) =~= back
                    + e.pending);
                assert(after.pending =~= e.pending.skip(n as int));
            },
            _ => {
                assert(after.pending =~= e.pending);
            },
        }
    } else {
        assert(Seq::<u8>::empty() + start.pending =~= Seq::<u8>::empty());
    }
}

/// Once the whole greeting has been taken it is not sent again.
pub proof fn greets_once(start: EchoModel, inputs: Seq<EchoInput>)
    requires
        start.greeted,
        start.phase !is Greeting,
    ensures
        echo_run(start, inputs).greeted,
        echo_run(start, inputs).asks() !is Greet,
    decreases inputs.len(),
{
    if inputs.len() > 0 {
        greets_once(start, inputs.drop_last());
    }
}

/// Only an offered greeting decides whether the host counts as greeted, and what
/// is no answer to the action that was asked for changes nothing.
pub proof fn echo_heeds_answers(e: EchoModel, input: EchoInput)
    ensures
        e.asks() !is Greet ==> e.next(input).greeted == e.greeted,
        e.asks() is Poll && input !is Polled ==> e.next(input) == e,
        e.asks() is Greet && (input is Polled || input is Got) ==> e.next(input) == e,
        e.asks() is Read && (input is Polled || input is Wrote) ==> e.next(input) == e,
        e.asks() is WriteBack && (input is Polled || input is Got) ==> e.next(input) == e,
{
}

/// The echo does nothing while the USB device has nothing to do. Else it offers
/// its greeting until all of it has been taken at once, and then looks for
/// bytes. If there are none it polls again; if there are, all of them are to be
/// written back.
pub proof fn echo_goes_round(e: EchoModel, n: usize, bytes: ByteBuf<PACKET_LEN>)
    ensures
        e.phase is Polling ==> {
            &&& e.asks() is Poll
            &&& e.next(EchoInput::Polled(false)) == e
            &&& e.next(EchoInput::Polled(true)).asks() == if e.greeted {
                EchoAction::Read
            } else {
                EchoAction::Greet
            }
            &&& e.next(EchoInput::Polled(true)).greeted == e.greeted
        },
        e.phase is Greeting ==> {
            &&& e.asks() is Greet
            &&& e.next(EchoInput::Wrote(n)).greeted == (n == greeting_text().len())
            &&& e.next(EchoInput::Wrote(n)).asks() is Read
            &&& e.next(EchoInput::Blocked) == (EchoModel { phase: EchoPhase::Reading, ..e })
            &&& e.next(EchoInput::Failed) == (EchoModel { phase: EchoPhase::Reading, ..e })
        },
        e.phase is Reading ==> {
            &&& e.asks() is Read
            &&& e.next(EchoInput::Got(bytes)).pending == bytes@
            &&& e.next(EchoInput::Got(bytes)).asks() == if bytes@.len() > 0 {
                EchoAction::WriteBack
            } else {
                EchoAction::Poll
            }
            &&& e.next(EchoInput::Blocked).asks() is Poll
            &&& e.next(EchoInput::Failed).asks() is Poll
        },
        e.phase is WritingBack && e.wf() ==> {
            &&& e.asks() is WriteBack
            &&& e.next(EchoInput::Blocked) == e
            &&& e.next(EchoInput::Wrote(0)) == e
            &&& n < e.pending.len() ==> e.next(EchoInput::Wrote(n)).asks() is WriteBack && e.next(
                EchoInput::Wrote(n),
            ).pending == e.pending.skip(n as int)
            &&& n >= e.pending.len() ==> e.next(EchoInput::Wrote(n)).asks() is Poll
            &&& e.next(EchoInput::Failed).asks() is Poll
            &&& e.next(EchoInput::Failed).pending.len() == 0
            &&& e.next(EchoInput::Wrote(n)).greeted == e.greeted
        },
{
    assert(e.pending.skip(0) =~= e.pending);
}

} // verus!
