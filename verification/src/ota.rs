//! Receiving a firmware image over the serial line.
//!
//! Packets are gathered until whole words of four bytes can be written to the
//! flash. What is left of the image at its end is filled up with `0xFF`.

use crate::buffer::ByteBuf;
use crate::replies::{BootState, Reply, PACKET_LEN};
use vstd::prelude::*;

verus! {

/// Largest image that fits into the active partition.
pub const ACTIVE_IMAGE_LIMIT: usize = 480 * 1024;

/// Size of a flash word.
pub const WORD_LEN: usize = 4;

/// Room for what is left of earlier packets and a whole packet.
pub const STAGING_LEN: usize = 68;

/// Whether a firmware that has just started has to confirm that it works: it has
/// just been swapped in, or back.
pub fn confirms_boot(state: Option<BootState>) -> (confirms: bool)
    ensures
        confirms == (state == Some(BootState::Swap) || state == Some(BootState::Revert)),
{
    match state {
        Some(BootState::Swap) => true,
        Some(BootState::Revert) => true,
        _ => false,
    }
}

/// Where an upload stands.
#[derive(Clone, Copy, Debug, PartialEq, Eq)]
pub enum UploadPhase {
    /// The next packet is awaited, if the upload is active.
    Waiting,
    /// The whole words of the staged bytes are to be written.
    Writing,
    /// The last, partial word is to be written.
    Padding,
    /// The host is to be told how it went.
    Reporting(Reply),
}

/// An upload, as a mathematical object.
pub struct UploadModel {
    pub active: bool,
    /// The size that the host announced.
    pub size: int,
    /// How many bytes have been written.
    pub received: int,
    /// A whole image has been written.
    pub image_ready: bool,
    /// The bytes that have not been written yet.
    pub staging: Seq<u8>,
    pub phase: UploadPhase,
}

/// What an upload wants done next.
#[derive(Clone, Copy, Debug)]
pub enum UploadAction {
    /// Nothing, until there is a packet.
    Wait,
    /// Write the bytes to the update partition, from that offset on.
    Write { offset: usize, bytes: ByteBuf<STAGING_LEN> },
    /// Send a reply to the host.
    Reply(Reply),
}

/// What an upload wants done next, as a mathematical object.
pub enum UploadRequest {
    Wait,
    Write { offset: int, bytes: Seq<u8> },
    Reply(Reply),
}

impl View for UploadAction {
    type V = UploadRequest;

    open spec fn view(&self) -> UploadRequest {
        match *self {
            UploadAction::Wait => UploadRequest::Wait,
            UploadAction::Write { offset, bytes } => UploadRequest::Write {
                offset: offset as int,
                bytes: bytes@,
            },
            UploadAction::Reply(reply) => UploadRequest::Reply(reply),
        }
    }
}

/// How many of `n` bytes make whole words.
pub open spec fn whole_words(n: nat) -> int {
    (n - n % 4) as int
}

/// The bytes with `0xFF` behind them up to a whole number of words.
pub open spec fn padded(bytes: Seq<u8>) -> Seq<u8> {
    Seq::new(
        ((bytes.len() + 3) / 4 * 4) as nat,
        |i: int|
            if i < bytes.len() {
                bytes[i]
            } else {
                0xFF
            },
    )
}

impl UploadModel {
    /// No upload.
    pub open spec fn none() -> UploadModel {
        UploadModel {
            active: false,
            size: 0,
            received: 0,
            image_ready: false,
            staging: Seq::empty(),
            phase: UploadPhase::Waiting,
        }
    }

    /// What every step keeps.
    pub open spec fn wf(self) -> bool {
        &&& 0 <= self.size <= ACTIVE_IMAGE_LIMIT
        &&& 0 <= self.received
        &&& self.received <= self.size + PACKET_LEN + WORD_LEN
        &&& match self.phase {
            UploadPhase::Waiting => {
                &&& self.staging.len() < WORD_LEN
                &&& self.active ==> !self.image_ready && self.received + self.staging.len()
                    < self.size
            },
            UploadPhase::Writing => {
                &&& self.active
                &&& !self.image_ready
                &&& self.received < self.size
                &&& WORD_LEN <= self.staging.len() < PACKET_LEN + WORD_LEN
            },
            UploadPhase::Padding => {
                &&& self.active
                &&& !self.image_ready
                &&& 1 <= self.staging.len() < WORD_LEN
                &&& self.received + self.staging.len() >= self.size
                &&& self.received < self.size + PACKET_LEN
            },
            UploadPhase::Reporting(_) => !self.active && self.staging.len() == 0,
        }
    }

    /// An image of that size is announced.
    pub open spec fn announced(self, size: int) -> UploadModel {
        UploadModel { active: true, size, ..UploadModel::none() }
    }

    /// The upload is given up.
    pub open spec fn aborted(self) -> UploadModel {
        UploadModel {
            active: false,
            image_ready: false,
            staging: Seq::empty(),
            phase: UploadPhase::Waiting,
            ..self
        }
    }

    /// The image is complete.
    pub open spec fn completed(self) -> UploadModel {
        UploadModel {
            active: false,
            image_ready: true,
            phase: UploadPhase::Reporting(Reply::Done),
            ..self
        }
    }

    /// The flash could not be written.
    pub open spec fn failed(self) -> UploadModel {
        UploadModel { phase: UploadPhase::Reporting(Reply::ErrWrite), ..UploadModel::none() }
    }

    /// All whole words have been written: the image is complete, or needs its
    /// last word, or goes on with the next packet.
    pub open spec fn settled(self) -> UploadModel {
        if self.received + self.staging.len() < self.size {
            UploadModel { phase: UploadPhase::Waiting, ..self }
        } else if self.staging.len() > 0 {
            UploadModel { phase: UploadPhase::Padding, ..self }
        } else {
            self.completed()
        }
    }

    /// A packet has arrived.
    pub open spec fn packet(self, bytes: Seq<u8>) -> UploadModel {
        let staged = UploadModel { staging: self.staging + bytes, ..self };
        if staged.staging.len() >= WORD_LEN {
            UploadModel { phase: UploadPhase::Writing, ..staged }
        } else {
            staged.settled()
        }
    }

    /// What the upload wants done next.
    pub open spec fn asks(self) -> UploadRequest {
        match self.phase {
            UploadPhase::Waiting => UploadRequest::Wait,
            UploadPhase::Writing => UploadRequest::Write {
                offset: self.received,
                bytes: self.staging.take(whole_words(self.staging.len())),
            },
            UploadPhase::Padding => UploadRequest::Write {
                offset: self.received,
                bytes: padded(self.staging),
            },
            UploadPhase::Reporting(reply) => UploadRequest::Reply(reply),
        }
    }

    /// The upload once its action has been done, or has failed.
    pub open spec fn next(self, ok: bool) -> UploadModel {
        match self.phase {
            UploadPhase::Waiting => self,
            UploadPhase::Writing => if ok {
                let n = whole_words(self.staging.len());
                UploadModel {
                    received: self.received + n,
                    staging: self.staging.skip(n),
                    ..self
                }.settled()
            } else {
                self.failed()
            },
            UploadPhase::Padding => if ok {
                UploadModel {
                    received: self.received + self.staging.len(),
                    staging: Seq::empty(),
                    ..self
                }.completed()
            } else {
                self.failed()
            },
            UploadPhase::Reporting(_) => UploadModel { phase: UploadPhase::Waiting, ..self },
        }
    }
}

/// The image that the host is uploading.
#[derive(Clone, Copy, Debug)]
pub struct Upload {
    pub active: bool,
    pub size: usize,
    pub received: usize,
    pub image_ready: bool,
    pub staging: ByteBuf<STAGING_LEN>,
    pub phase: UploadPhase,
}

impl View for Upload {
    type V = UploadModel;

    open spec fn view(&self) -> UploadModel {
        UploadModel {
            active: self.active,
            size: self.size as int,
            received: self.received as int,
            image_ready: self.image_ready,
            staging: self.staging@,
            phase: self.phase,
        }
    }
}

impl Upload {
    /// No upload.
    pub fn new() -> (upload: Upload)
        ensures
            upload@ == UploadModel::none(),
            upload@.wf(),
    {
        Upload {
            active: false,
            size: 0,
            received: 0,
            image_ready: false,
            staging: ByteBuf::new(),
            phase: UploadPhase::Waiting,
        }
    }

    /// Begins an upload.
    pub fn announce(&mut self, size: usize)
        requires
            1 <= size <= ACTIVE_IMAGE_LIMIT,
        ensures
            final(self)@ == old(self)@.announced(size as int),
            final(self)@.wf(),
    {
        *self = Upload::new();
        self.active = true;
        self.size = size;
    }

    /// Gives the upload up.
    pub fn abort(&mut self)
        requires
            old(self)@.wf(),
        ensures
            final(self)@ == old(self)@.aborted(),
            final(self)@.wf(),
    {
        self.active = false;
        self.image_ready = false;
        self.staging = ByteBuf::new();
        self.phase = UploadPhase::Waiting;
    }

    fn settle(&mut self)
        requires
            old(self)@.staging.len() < WORD_LEN,
            old(self)@.active,
            !old(self)@.image_ready,
            old(self)@.size <= ACTIVE_IMAGE_LIMIT,
            old(self)@.received < old(self)@.size + PACKET_LEN,
        ensures
            final(self)@ == old(self)@.settled(),
            final(self)@.wf(),
    {
        if self.received + self.staging.len() < self.size {
            self.phase = UploadPhase::Waiting;
        } else if self.staging.len() > 0 {
            self.phase = UploadPhase::Padding;
        } else {
            self.active = false;
            self.image_ready = true;
            self.phase = UploadPhase::Reporting(Reply::Done);
        }
    }

    /// Takes a packet.
    pub fn take(&mut self, packet: &[u8])
        requires
            old(self)@.wf(),
            old(self)@.active,
            old(self)@.phase is Waiting,
            packet@.len() <= PACKET_LEN,
        ensures
            final(self)@ == old(self)@.packet(packet@),
            final(self)@.wf(),
    {
        let ghost before = self.staging@;
        let mut i: usize = 0;
        while i < packet.len()
            invariant
                i <= packet@.len() <= PACKET_LEN,
                before.len() < WORD_LEN,
                self.staging@ == before + packet@.take(i as int),
                self@ == (UploadModel { staging: self.staging@, ..old(self)@ }),
            decreases packet@.len() - i,
        {
            let mut staging: ByteBuf<STAGING_LEN> = self.staging;
            staging.push(packet[i]);
            self.staging = staging;
            i = i + 1;
            assert(self.staging@ =~= before + packet@.take(i as int));
        }
        assert(packet@.take(i as int) =~= packet@);
        if self.staging.len() >= WORD_LEN {
            self.phase = UploadPhase::Writing;
        } else {
            self.settle();
        }
    }

    /// What the upload wants done next.
    pub fn action(&self) -> (action: UploadAction)
        requires
            self@.wf(),
        ensures
            action@ == self@.asks(),
    {
        match self.phase {
            UploadPhase::Waiting => UploadAction::Wait,
            UploadPhase::Writing => {
                let staged = self.staging.as_slice();
                let whole: usize = staged.len() - staged.len() % WORD_LEN;
                let words = vstd::slice::slice_subrange(staged, 0, whole);
                let bytes: ByteBuf<STAGING_LEN> = ByteBuf::from_slice(words);
                assert(bytes@ =~= self.staging@.take(whole_words(self.staging@.len())));
                UploadAction::Write { offset: self.received, bytes }
            },
            UploadPhase::Padding => {
                let mut bytes: ByteBuf<STAGING_LEN> = self.staging;
                while bytes.len() < WORD_LEN
                    invariant
                        1 <= self.staging@.len() <= bytes@.len() <= WORD_LEN,
                        forall|i: int|
                            0 <= i < bytes@.len() ==> bytes@[i] == padded(self.staging@)[i],
                    decreases WORD_LEN - bytes@.len(),
                {
                    bytes.push(0xFF);
                }
                assert(bytes@ =~= padded(self.staging@));
                UploadAction::Write { offset: self.received, bytes }
            },
            UploadPhase::Reporting(reply) => UploadAction::Reply(reply),
        }
    }

    fn fail(&mut self)
        ensures
            final(self)@ == old(self)@.failed(),
            final(self)@.wf(),
    {
        *self = Upload::new();
        self.phase = UploadPhase::Reporting(Reply::ErrWrite);
    }

    /// Goes on once the action has been done, or has failed.
    pub fn step(&mut self, ok: bool)
        requires
            old(self)@.wf(),
        ensures
            final(self)@ == old(self)@.next(ok),
            final(self)@.wf(),
    {
        match self.phase {
            UploadPhase::Waiting => {},
            UploadPhase::Writing => {
                if ok {
                    let whole: usize = self.staging.len() - self.staging.len() % WORD_LEN;
                    let mut staging: ByteBuf<STAGING_LEN> = self.staging;
                    staging.drop_front(whole);
                    self.staging = staging;
                    self.received = self.received + whole;
                    self.settle();
                } else {
                    self.fail();
                }
            },
            UploadPhase::Padding => {
                if ok {
                    self.received = self.received + self.staging.len();
                    self.staging = ByteBuf::new();
                    self.active = false;
                    self.image_ready = true;
                    self.phase = UploadPhase::Reporting(Reply::Done);
                } else {
                    self.fail();
                }
            },
            UploadPhase::Reporting(_) => {
                self.phase = UploadPhase::Waiting;
            },
        }
    }
}

// Laws.

/// An upload with what has happened since it was announced.
pub struct UploadHistory {
    pub upload: UploadModel,
    /// The bytes of all packets.
    pub stream: Seq<u8>,
    /// The update partition, as far as it has been written.
    pub flash: Seq<u8>,
    /// Each write began where the one before it had ended.
    pub contiguous: bool,
}

/// What happens to an upload.
pub enum UploadEvent {
    /// A packet arrives.
    Packet(Seq<u8>),
    /// The action is done, or fails.
    Answer(bool),
}

impl UploadHistory {
    /// An image of that size has just been announced.
    pub open spec fn start(size: int) -> UploadHistory {
        UploadHistory {
            upload: UploadModel::none().announced(size),
            stream: Seq::empty(),
            flash: Seq::empty(),
            contiguous: true,
        }
    }

    /// The event can happen: packets come while they are waited for, and are no
    /// longer than the endpoint takes.
    pub open spec fn admits(self, event: UploadEvent) -> bool {
        match event {
            UploadEvent::Packet(bytes) => self.upload.active && self.upload.phase is Waiting
                && bytes.len() <= PACKET_LEN,
            UploadEvent::Answer(_) => self.upload.phase !is Waiting,
        }
    }

    /// The history with one more event.
    pub open spec fn with(self, event: UploadEvent) -> UploadHistory {
        match event {
            UploadEvent::Packet(bytes) => UploadHistory {
                upload: self.upload.packet(bytes),
                stream: self.stream + bytes,
                ..self
            },
            UploadEvent::Answer(ok) => match self.upload.asks() {
                UploadRequest::Write { offset, bytes } if ok => UploadHistory {
                    upload: self.upload.next(ok),
                    flash: self.flash + bytes,
                    contiguous: self.contiguous && offset == self.flash.len(),
                    ..self
                },
                _ => UploadHistory { upload: self.upload.next(ok), ..self },
            },
        }
    }
}

/// The history of an upload after a row of events.
pub open spec fn upload_history(size: int, events: Seq<UploadEvent>) -> UploadHistory
    decreases events.len(),
{
    if events.len() == 0 {
        UploadHistory::start(size)
    } else {
        upload_history(size, events.drop_last()).with(events.last())
    }
}

/// Each event can happen when it does.
pub open spec fn upload_admits(size: int, events: Seq<UploadEvent>) -> bool
    decreases events.len(),
{
    events.len() == 0 || (upload_admits(size, events.drop_last()) && upload_history(
        size,
        events.drop_last(),
    ).admits(events.last()))
}

/// What holds of an upload after any events.
pub open spec fn upload_in_order(h: UploadHistory, size: int) -> bool {
    &&& h.contiguous
    &&& h.flash.len() % 4 == 0
    &&& h.upload.active ==> h.upload.size == size && h.upload.received == h.flash.len() && h.flash
        + h.upload.staging == h.stream
    &&& h.upload.active && h.upload.phase is Waiting ==> h.stream.len() < size && h.stream.len()
        < h.flash.len() + 4
    &&& h.upload.image_ready ==> h.stream.len() >= size && h.upload.received == h.stream.len()
        && h.flash == padded(h.stream)
}

/// Every byte of an upload is written once, in order, in whole words and without
/// gaps, and as soon as there is a whole word of them. The upload goes on until as
/// many bytes have come as were announced, and once the image is ready, the flash
/// holds all of the stream, filled up with `0xFF` to a whole number of words.
pub proof fn upload_delivers(size: int, events: Seq<UploadEvent>)
    requires
        1 <= size <= ACTIVE_IMAGE_LIMIT,
        upload_admits(size, events),
    ensures
        upload_history(size, events).upload.wf(),
        upload_in_order(upload_history(size, events), size),
    decreases events.len(),
{
    if events.len() == 0 {
        assert(Seq::<u8>::empty() + Seq::<u8>::empty() =~= Seq::<u8>::empty());
    } else {
        upload_delivers(size, events.drop_last());
        upload_keeps_order(upload_history(size, events.drop_last()), size, events.last());
    }
}

proof fn padded_words(a: Seq<u8>, b: Seq<u8>)
    requires
        a.len() % 4 == 0,
    ensures
        a + padded(b) == padded(a + b),
{
    assert((a.len() + b.len() + 3) / 4 * 4 == a.len() + (b.len() + 3) / 4 * 4);
    assert(a + padded(b) =~= padded(a + b));
}

proof fn packet_delivers(h: UploadHistory, size: int, bytes: Seq<u8>)
    requires
        h.upload.wf(),
        upload_in_order(h, size),
        h.admits(UploadEvent::Packet(bytes)),
    ensures
        h.with(UploadEvent::Packet(bytes)).upload.wf(),
        upload_in_order(h.with(UploadEvent::Packet(bytes)), size),
{
    let after = h.with(UploadEvent::Packet(bytes));
    assert(h.flash + (h.upload.staging + bytes) =~= h.stream + bytes);
    assert(after.flash + (h.upload.staging + bytes) == after.stream);
    assert(!after.upload.image_ready);
}

proof fn words_deliver(h: UploadHistory, size: int)
    requires
        h.upload.wf(),
        upload_in_order(h, size),
        h.upload.phase is Writing,
    ensures
        h.with(UploadEvent::Answer(true)).upload.wf(),
        upload_in_order(h.with(UploadEvent::Answer(true)), size),
{
    let staging = h.upload.staging;
    let n = whole_words(staging.len());
    let after = h.with(UploadEvent::Answer(true));
    assert(n % 4 == 0 && 0 < n <= staging.len());
    assert(after.flash == h.flash + staging.take(n));
    assert(after.flash + staging.skip(n) =~= h.stream);
    if after.upload.image_ready {
        assert(staging.skip(n) =~= Seq::<u8>::empty());
        assert(after.flash =~= h.stream);
        padded_words(h.stream, Seq::empty());
        assert(padded(Seq::<u8>::empty()) =~= Seq::<u8>::empty());
        assert(h.stream + Seq::<u8>::empty() =~= h.stream);
    }
}

proof fn padding_delivers(h: UploadHistory, size: int)
    requires
        h.upload.wf(),
        upload_in_order(h, size),
        h.upload.phase is Padding,
    ensures
        h.with(UploadEvent::Answer(true)).upload.wf(),
        upload_in_order(h.with(UploadEvent::Answer(true)), size),
{
    padded_words(h.flash, h.upload.staging);
}

/// Any event that can happen keeps an upload in order.
pub proof fn upload_keeps_order(h: UploadHistory, size: int, event: UploadEvent)
    requires
        h.upload.wf(),
        upload_in_order(h, size),
        h.admits(event),
    ensures
        h.with(event).upload.wf(),
        upload_in_order(h.with(event), size),
{
    match event {
        UploadEvent::Packet(bytes) => {
            packet_delivers(h, size, bytes);
        },
        UploadEvent::Answer(ok) => {
            if h.upload.phase is Writing && ok {
                words_deliver(h, size);
            } else if h.upload.phase is Padding && ok {
                padding_delivers(h, size);
            }
        },
    }
}

/// Padding adds less than a word, all of it `0xFF`, behind the bytes.
pub proof fn padding_fills_the_word(bytes: Seq<u8>)
    ensures
        padded(bytes).len() % 4 == 0,
        bytes.len() <= padded(bytes).len() < bytes.len() + 4,
        padded(bytes).take(bytes.len() as int) == bytes,
        forall|i: int| bytes.len() <= i < padded(bytes).len() ==> padded(bytes)[i] == 0xFF,
{
    assert(padded(bytes).take(bytes.len() as int) =~= bytes);
}

/// The host is told `OK` as soon as the image is ready and not before, and
/// `ERR WRITE` as soon as a write fails, which ends the upload with no image.
pub proof fn upload_tells(h: UploadHistory, size: int, event: UploadEvent)
    requires
        h.upload.wf(),
        upload_in_order(h, size),
        h.admits(event),
    ensures
        ({
            let after = h.with(event).upload;
            let wrote = h.upload.asks() is Write;
            &&& !h.upload.image_ready && after.image_ready ==> after.asks() == UploadRequest::Reply(
                Reply::Done,
            )
            &&& event == UploadEvent::Answer(false) && wrote ==> {
                &&& after.asks() == UploadRequest::Reply(Reply::ErrWrite)
                &&& !after.active
                &&& !after.image_ready
            }
            &&& event is Packet || wrote ==> (after.asks() is Reply ==> (after.image_ready
                && after.asks()->Reply_0 == Reply::Done) || (!after.image_ready
                && after.asks()->Reply_0 == Reply::ErrWrite))
            &&& event is Answer && !wrote ==> after.asks() is Wait && after.image_ready
                == h.upload.image_ready && after.active == h.upload.active
            &&& event is Packet ==> h.flash == h.with(event).flash
        }),
{
}

/// An announced upload expects that many bytes from its beginning, and one that
/// is given up or has failed leaves no image.
pub proof fn uploads_begin_afresh(u: UploadModel, size: int)
    ensures
        u.announced(size).active && u.announced(size).size == size,
        u.announced(size).received == 0 && u.announced(size).staging.len() == 0,
        !u.announced(size).image_ready && u.announced(size).asks() is Wait,
        !u.aborted().active && !u.aborted().image_ready && u.aborted().asks() is Wait,
        !UploadModel::none().active && !UploadModel::none().image_ready,
        UploadModel::none().asks() is Wait,
{
}

/// As long as nothing fails, an image is ready as soon as all of its bytes have
/// come and the flash has been written: no packet is awaited any more.
pub proof fn upload_completes(size: int, events: Seq<UploadEvent>)
    requires
        1 <= size <= ACTIVE_IMAGE_LIMIT,
        upload_admits(size, events),
        forall|i: int| 0 <= i < events.len() ==> #[trigger] events[i] != UploadEvent::Answer(false),
    ensures
        ({
            let h = upload_history(size, events);
            h.upload.phase is Waiting ==> (h.upload.image_ready <==> h.stream.len() >= size)
        }),
{
    upload_delivers(size, events);
    upload_alive(size, events);
}

proof fn upload_alive(size: int, events: Seq<UploadEvent>)
    requires
        1 <= size <= ACTIVE_IMAGE_LIMIT,
        upload_admits(size, events),
        forall|i: int| 0 <= i < events.len() ==> #[trigger] events[i] != UploadEvent::Answer(false),
    ensures
        upload_history(size, events).upload.active || upload_history(
            size,
            events,
        ).upload.image_ready,
    decreases events.len(),
{
    if events.len() > 0 {
        upload_alive(size, events.drop_last());
        assert(events[events.len() - 1] != UploadEvent::Answer(false));
    }
}

} // verus!
