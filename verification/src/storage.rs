//! Persists the pairing profile (address, AES key, channel) and the rolling AES
//! counter in the `STORAGE` flash page, so that a pairing survives resets and
//! firmware updates.
//!
//! The AES counter is the security-critical field: the receiver rejects a
//! keystroke whose counter it has already seen, so the counter is saved after
//! every typing burst.
//!
//! To spare the flash, records are appended: each save writes a new 32-byte
//! slot, and the page is erased only once all 128 slots are used. Loading scans
//! for the most recent valid slot. A slot that was written but holds no valid
//! record, such as one whose write was cut off, is used up and passed over; the
//! first erased slot ends the log.
//!
//! Record layout (32 bytes):
//! ```text
//! [0..4]   magic  = 0x5546_4B31
//! [4..9]   address
//! [9]      channel
//! [10..12] reserved (0)
//! [12..28] AES key
//! [28..32] AES counter (little-endian)
//! ```
//!
//! The flash itself is driven from outside: a job says which flash operation
//! comes next, and is told what came of it.

use vstd::prelude::*;

verus! {

/// Length of a radio address.
pub const ADDRESS_LEN: usize = 5;

/// Length of an AES-128 key, block and IV.
pub const AES_BLOCK_LEN: usize = 16;

/// Absolute base address of the `STORAGE` partition.
pub const STORAGE_BASE: u32 = 0x000F_8000;

/// Erase granularity of the flash.
pub const PAGE_SIZE: u32 = 4096;

/// Record size in bytes.
pub const RECORD_SIZE: usize = 32;

/// Records per page.
pub const SLOTS: u32 = 128;

/// Record validity marker. Erased flash reads as `0xFFFF_FFFF`.
pub const MAGIC: u32 = 0x5546_4B31;

/// A persisted pairing profile.
#[derive(Clone, Copy, Debug, PartialEq, Eq)]
pub struct Profile {
    pub address: [u8; ADDRESS_LEN],
    pub aes_key: [u8; AES_BLOCK_LEN],
    pub aes_counter: u32,
    pub channel: u8,
}

/// The four bytes of `v`, least significant first.
pub open spec fn le_bytes(v: u32) -> Seq<u8> {
    seq![
        (v as int % 0x100) as u8,
        (v as int / 0x100 % 0x100) as u8,
        (v as int / 0x1_0000 % 0x100) as u8,
        (v as int / 0x100_0000) as u8,
    ]
}

/// The number whose bytes, least significant first, are the four from `at` on.
pub open spec fn le_value(s: Seq<u8>, at: int) -> u32 {
    (s[at] + 0x100 * s[at + 1] + 0x1_0000 * s[at + 2] + 0x100_0000 * s[at + 3]) as u32
}

/// The record of a profile.
pub open spec fn record_of(p: Profile) -> Seq<u8> {
    le_bytes(MAGIC) + p.address@ + seq![p.channel, 0, 0] + p.aes_key@ + le_bytes(p.aes_counter)
}

/// The profile in a record, if the record is marked as valid.
pub open spec fn profile_in(rec: Seq<u8>) -> Option<Profile> {
    if le_value(rec, 0) == MAGIC {
        Some(
            Profile {
                address: [rec[4], rec[5], rec[6], rec[7], rec[8]],
                aes_key: [
                    rec[12],
                    rec[13],
                    rec[14],
                    rec[15],
                    rec[16],
                    rec[17],
                    rec[18],
                    rec[19],
                    rec[20],
                    rec[21],
                    rec[22],
                    rec[23],
                    rec[24],
                    rec[25],
                    rec[26],
                    rec[27],
                ],
                aes_counter: le_value(rec, 28),
                channel: rec[9],
            },
        )
    } else {
        None
    }
}

/// Decoding the record of a profile gives the profile back.
pub proof fn record_round_trip(p: Profile)
    ensures
        record_of(p).len() == RECORD_SIZE,
        profile_in(record_of(p)) == Some(p),
{
    let rec = record_of(p);
    assert(rec.subrange(0, 4) =~= le_bytes(MAGIC));
    assert(rec.subrange(4, 9) =~= p.address@);
    assert(rec.subrange(12, 28) =~= p.aes_key@);
    assert(rec.subrange(28, 32) =~= le_bytes(p.aes_counter));
    assert forall|i: int| 0 <= i < 4 implies rec[i] == le_bytes(MAGIC)[i] && rec[28 + i]
        == le_bytes(p.aes_counter)[i] by {
        assert(rec[i] == rec.subrange(0, 4)[i]);
        assert(rec[28 + i] == rec.subrange(28, 32)[i]);
    }
    assert(le_value(rec, 0) == MAGIC);
    assert(le_value(rec, 28) == p.aes_counter);
    let back = profile_in(rec)->0;
    assert(back.address =~= p.address) by {
        assert forall|i: int| 0 <= i < 5 implies rec[4 + i] == p.address@[i] by {
            assert(rec[4 + i] == rec.subrange(4, 9)[i]);
        }
    }
    assert(back.aes_key =~= p.aes_key) by {
        assert forall|i: int| 0 <= i < 16 implies rec[12 + i] == p.aes_key@[i] by {
            assert(rec[12 + i] == rec.subrange(12, 28)[i]);
        }
    }
}

/// The four bytes of `v`, least significant first.
fn to_le_bytes(v: u32) -> (bytes: [u8; 4])
    ensures
        bytes@ == le_bytes(v),
{
    let bytes: [u8; 4] = [
        (v % 0x100) as u8,
        (v / 0x100 % 0x100) as u8,
        (v / 0x1_0000 % 0x100) as u8,
        (v / 0x100_0000) as u8,
    ];
    assert(bytes@ =~= le_bytes(v));
    bytes
}

/// The number whose bytes, least significant first, are the four from `at` on.
fn from_le_bytes(rec: &[u8; RECORD_SIZE], at: usize) -> (v: u32)
    requires
        at + 4 <= 32,
    ensures
        v == le_value(rec@, at as int),
{
    rec[at] as u32 + 0x100 * rec[at + 1] as u32 + 0x1_0000 * rec[at + 2] as u32 + 0x100_0000
        * rec[at + 3] as u32
}

/// Encodes a profile as a record.
pub fn encode(profile: &Profile) -> (rec: [u8; RECORD_SIZE])
    ensures
        rec@ == record_of(*profile),
{
    let magic: [u8; 4] = to_le_bytes(MAGIC);
    let counter: [u8; 4] = to_le_bytes(profile.aes_counter);
    let a: [u8; 5] = profile.address;
    let k: [u8; 16] = profile.aes_key;
    let rec: [u8; RECORD_SIZE] = [
        magic[0],
        magic[1],
        magic[2],
        magic[3],
        a[0],
        a[1],
        a[2],
        a[3],
        a[4],
        profile.channel,
        0,
        0,
        k[0],
        k[1],
        k[2],
        k[3],
        k[4],
        k[5],
        k[6],
        k[7],
        k[8],
        k[9],
        k[10],
        k[11],
        k[12],
        k[13],
        k[14],
        k[15],
        counter[0],
        counter[1],
        counter[2],
        counter[3],
    ];
    assert(rec@ =~= record_of(*profile));
    rec
}

/// Decodes a record; `None` if it is not marked as valid.
pub fn decode(rec: &[u8; RECORD_SIZE]) -> (profile: Option<Profile>)
    ensures
        profile == profile_in(rec@),
{
    if from_le_bytes(rec, 0) != MAGIC {
        return None;
    }
    let address: [u8; 5] = [rec[4], rec[5], rec[6], rec[7], rec[8]];
    let aes_key: [u8; 16] = [
        rec[12],
        rec[13],
        rec[14],
        rec[15],
        rec[16],
        rec[17],
        rec[18],
        rec[19],
        rec[20],
        rec[21],
        rec[22],
        rec[23],
        rec[24],
        rec[25],
        rec[26],
        rec[27],
    ];
    Some(Profile { address, aes_key, aes_counter: from_le_bytes(rec, 28), channel: rec[9] })
}

/// One slot as it reads after an erase.
pub open spec fn erased_slot() -> Seq<u8> {
    Seq::new(RECORD_SIZE as nat, |i: int| 0xffu8)
}

/// Whether a slot reads as it does after an erase.
pub fn is_erased(rec: &[u8; RECORD_SIZE]) -> (erased: bool)
    ensures
        erased == (rec@ == erased_slot()),
{
    let mut i: usize = 0;
    while i < RECORD_SIZE
        invariant
            i <= RECORD_SIZE,
            forall|j: int| 0 <= j < i ==> rec@[j] == 0xff,
        decreases RECORD_SIZE - i,
    {
        if rec[i] != 0xff {
            assert(rec@[i as int] != erased_slot()[i as int]);
            return false;
        }
        i = i + 1;
    }
    assert(rec@ =~= erased_slot());
    true
}

/// A flash operation that a job asks for.
#[derive(Clone, Copy, Debug, PartialEq, Eq)]
pub enum FlashAction {
    /// Read one record at an absolute offset.
    Read { offset: u32 },
    /// Erase the bytes from `from` up to `to`.
    Erase { from: u32, to: u32 },
    /// Program one record at an absolute offset.
    Write { offset: u32, record: [u8; RECORD_SIZE] },
    /// Nothing is left to do.
    Finished,
}

/// What came of a flash operation.
#[derive(Clone, Copy, Debug, PartialEq, Eq)]
pub enum FlashInput {
    /// The record that was read; `None` if the read failed.
    Record(Option<[u8; RECORD_SIZE]>),
    /// Whether the erase or write succeeded.
    Completed(bool),
}

/// The absolute offset of a slot.
pub open spec fn slot_offset(slot: int) -> int {
    STORAGE_BASE + slot * RECORD_SIZE
}

/// Looks for the most recent profile in the page.
#[derive(Clone, Copy, Debug, PartialEq, Eq)]
pub struct LoadJob {
    /// The next slot to read; `SLOTS` once the search is over.
    pub slot: u32,
    /// The profile in the last slot that was read as valid.
    pub latest: Option<Profile>,
}

impl LoadJob {
    /// The job before anything was read.
    pub open spec fn start() -> LoadJob {
        LoadJob { slot: 0, latest: None }
    }

    /// The flash operation that comes next.
    pub open spec fn asks(self) -> FlashAction {
        if self.slot < SLOTS {
            FlashAction::Read { offset: slot_offset(self.slot as int) as u32 }
        } else {
            FlashAction::Finished
        }
    }

    /// The job once `input` came of what it asked for. The first slot that
    /// cannot be read, or is erased, ends the log; one that is written but holds
    /// no valid record is passed over.
    pub open spec fn next(self, input: FlashInput) -> LoadJob {
        match input {
            FlashInput::Record(read) if self.slot < SLOTS => {
                if read is None || read->0@ == erased_slot() {
                    LoadJob { slot: SLOTS, latest: self.latest }
                } else if profile_in(read->0@) is Some {
                    LoadJob { slot: (self.slot + 1) as u32, latest: profile_in(read->0@) }
                } else {
                    LoadJob { slot: (self.slot + 1) as u32, latest: self.latest }
                }
            },
            _ => self,
        }
    }

    /// The flash operation that comes next.
    pub fn action(&self) -> (action: FlashAction)
        ensures
            action == self.asks(),
    {
        if self.slot < SLOTS {
            FlashAction::Read { offset: STORAGE_BASE + self.slot * 32 }
        } else {
            FlashAction::Finished
        }
    }

    /// Takes the record read from the next slot.
    pub fn step(&mut self, input: &FlashInput)
        ensures
            *final(self) == old(self).next(*input),
    {
        if self.slot < SLOTS {
            match input {
                FlashInput::Record(Some(rec)) => {
                    if is_erased(rec) {
                        self.slot = SLOTS;
                    } else {
                        if let Some(profile) = decode(rec) {
                            self.latest = Some(profile);
                        }
                        self.slot = self.slot + 1;
                    }
                },
                FlashInput::Record(None) => {
                    self.slot = SLOTS;
                },
                FlashInput::Completed(_) => {},
            }
        }
    }

    /// The profile found so far; the most recent one once the job is finished.
    pub fn profile(&self) -> (profile: Option<Profile>)
        ensures
            profile == self.latest,
    {
        self.latest
    }
}

/// Starts to load the most recent valid profile.
pub fn load() -> (job: LoadJob)
    ensures
        job == LoadJob::start(),
{
    LoadJob { slot: 0, latest: None }
}

/// Where a save stands.
#[derive(Clone, Copy, Debug, PartialEq, Eq)]
pub enum SavePhase {
    /// Looking for the first erased slot, at this one.
    Scan(u32),
    /// The page is full: it is wiped.
    Erase,
    /// Programming this slot.
    Write(u32),
    /// Over.
    Finished,
}

/// Appends a profile to the page.
#[derive(Clone, Copy, Debug, PartialEq, Eq)]
pub struct SaveJob {
    pub profile: Profile,
    pub phase: SavePhase,
}

impl SaveJob {
    /// The job before anything was read.
    pub open spec fn start(profile: Profile) -> SaveJob {
        SaveJob { profile, phase: SavePhase::Scan(0) }
    }

    /// The slot that the job is at lies in the page.
    pub open spec fn wf(self) -> bool {
        match self.phase {
            SavePhase::Scan(slot) => slot < SLOTS,
            SavePhase::Write(slot) => slot < SLOTS,
            _ => true,
        }
    }

    /// The flash operation that comes next.
    pub open spec fn asks(self) -> FlashAction {
        match self.phase {
            SavePhase::Scan(slot) => FlashAction::Read { offset: slot_offset(slot as int) as u32 },
            SavePhase::Erase => FlashAction::Erase {
                from: STORAGE_BASE,
                to: (STORAGE_BASE + PAGE_SIZE) as u32,
            },
            SavePhase::Write(slot) => FlashAction::Write {
                offset: slot_offset(slot as int) as u32,
                record: written_record(self.profile),
            },
            SavePhase::Finished => FlashAction::Finished,
        }
    }

    /// The job once `input` came of what it asked for. A read or an erase that
    /// fails ends the job with nothing written.
    pub open spec fn next(self, input: FlashInput) -> SaveJob {
        let phase = match (self.phase, input) {
            (SavePhase::Scan(slot), FlashInput::Record(None)) => SavePhase::Finished,
            (SavePhase::Scan(slot), FlashInput::Record(Some(rec))) => if rec@ == erased_slot() {
                SavePhase::Write(slot)
            } else if slot + 1 < SLOTS {
                SavePhase::Scan((slot + 1) as u32)
            } else {
                SavePhase::Erase
            },
            (SavePhase::Erase, FlashInput::Completed(ok)) => if ok {
                SavePhase::Write(0)
            } else {
                SavePhase::Finished
            },
            (SavePhase::Write(_), FlashInput::Completed(_)) => SavePhase::Finished,
            (phase, _) => phase,
        };
        SaveJob { profile: self.profile, phase }
    }

    /// The flash operation that comes next.
    pub fn action(&self) -> (action: FlashAction)
        requires
            self.wf(),
        ensures
            action == self.asks(),
    {
        match self.phase {
            SavePhase::Scan(slot) => FlashAction::Read { offset: STORAGE_BASE + slot * 32 },
            SavePhase::Erase => clear(),
            SavePhase::Write(slot) => {
                let record: [u8; RECORD_SIZE] = encode(&self.profile);
                assert(record =~= written_record(self.profile)) by {
                    record_round_trip(self.profile);
                }
                FlashAction::Write { offset: STORAGE_BASE + slot * 32, record }
            },
            SavePhase::Finished => FlashAction::Finished,
        }
    }

    /// Takes what came of the flash operation asked for.
    pub fn step(&mut self, input: &FlashInput)
        requires
            old(self).wf(),
        ensures
            *final(self) == old(self).next(*input),
            final(self).wf(),
    {
        match (self.phase, input) {
            (SavePhase::Scan(_), FlashInput::Record(None)) => {
                self.phase = SavePhase::Finished;
            },
            (SavePhase::Scan(slot), FlashInput::Record(Some(rec))) => {
                self.phase = if is_erased(rec) {
                    SavePhase::Write(slot)
                } else if slot + 1 < SLOTS {
                    SavePhase::Scan(slot + 1)
                } else {
                    SavePhase::Erase
                };
            },
            (SavePhase::Erase, FlashInput::Completed(ok)) => {
                self.phase = if *ok {
                    SavePhase::Write(0)
                } else {
                    SavePhase::Finished
                };
            },
            (SavePhase::Write(_), FlashInput::Completed(_)) => {
                self.phase = SavePhase::Finished;
            },
            _ => {},
        }
    }
}

/// The record of a profile, as the array that is programmed.
pub open spec fn written_record(p: Profile) -> [u8; RECORD_SIZE] {
    let r = record_of(p);
    [
        r[0],
        r[1],
        r[2],
        r[3],
        r[4],
        r[5],
        r[6],
        r[7],
        r[8],
        r[9],
        r[10],
        r[11],
        r[12],
        r[13],
        r[14],
        r[15],
        r[16],
        r[17],
        r[18],
        r[19],
        r[20],
        r[21],
        r[22],
        r[23],
        r[24],
        r[25],
        r[26],
        r[27],
        r[28],
        r[29],
        r[30],
        r[31],
    ]
}

/// Starts to append `profile` as a new record.
pub fn save(profile: &Profile) -> (job: SaveJob)
    ensures
        job == SaveJob::start(*profile),
        job.wf(),
{
    SaveJob { profile: *profile, phase: SavePhase::Scan(0) }
}

/// The operation that wipes all saved pairings.
pub fn clear() -> (action: FlashAction)
    ensures
        action == (FlashAction::Erase {
            from: STORAGE_BASE,
            to: (STORAGE_BASE + PAGE_SIZE) as u32,
        }),
{
    FlashAction::Erase { from: STORAGE_BASE, to: STORAGE_BASE + PAGE_SIZE }
}

// What the jobs do to a page of flash.

/// A page as it reads after an erase.
pub open spec fn erased_page() -> Seq<Seq<u8>> {
    Seq::new(SLOTS as nat, |i: int| erased_slot())
}

/// `page` is a page: `SLOTS` slots of one record each.
pub open spec fn is_page(page: Seq<Seq<u8>>) -> bool {
    page.len() == SLOTS && forall|i: int| 0 <= i < SLOTS ==> (#[trigger] page[i]).len()
        == RECORD_SIZE
}

/// Programming can only clear bits.
pub open spec fn programmed(old_bytes: Seq<u8>, new_bytes: Seq<u8>) -> Seq<u8> {
    Seq::new(old_bytes.len(), |i: int| old_bytes[i] & new_bytes[i])
}

/// A page after a flash operation on it that succeeds.
pub open spec fn after_action(page: Seq<Seq<u8>>, action: FlashAction) -> Seq<Seq<u8>> {
    match action {
        FlashAction::Erase { .. } => erased_page(),
        FlashAction::Write { offset, record } => {
            let slot = (offset - STORAGE_BASE) / (RECORD_SIZE as int);
            page.update(slot, programmed(page[slot], record@))
        },
        _ => page,
    }
}

/// The first `n` slots are used: written, with a valid record or not. The slot
/// behind them is erased.
pub open spec fn uses_slots(page: Seq<Seq<u8>>, n: int) -> bool {
    &&& 0 <= n <= SLOTS
    &&& forall|i: int| 0 <= i < n ==> #[trigger] page[i] != erased_slot()
    &&& n < SLOTS ==> page[n] == erased_slot()
}

/// A log of `n` slots: used ones first, valid or not, all the rest erased.
pub open spec fn is_log(page: Seq<Seq<u8>>, n: int) -> bool {
    &&& is_page(page)
    &&& uses_slots(page, n)
    &&& forall|i: int| n <= i < SLOTS ==> #[trigger] page[i] == erased_slot()
}

/// The slot `i` is the last one of the page with a valid record.
pub open spec fn is_newest(page: Seq<Seq<u8>>, i: int) -> bool {
    &&& 0 <= i < SLOTS
    &&& profile_in(page[i]) is Some
    &&& forall|j: int| i < j < SLOTS ==> profile_in(#[trigger] page[j]) is None
}

/// `input` is what came of `action` on `page`, with no failure.
pub open spec fn faithful(page: Seq<Seq<u8>>, action: FlashAction, input: FlashInput) -> bool {
    match action {
        FlashAction::Read { offset } => {
            let slot = (offset - STORAGE_BASE) / (RECORD_SIZE as int);
            input matches FlashInput::Record(Some(rec)) && rec@ == page[slot]
        },
        _ => input == FlashInput::Completed(true),
    }
}

/// A load that ran on `page` and got `inputs`.
pub open spec fn load_runs(job: LoadJob, page: Seq<Seq<u8>>, inputs: Seq<FlashInput>) -> bool
    decreases inputs.len(),
{
    if inputs.len() == 0 {
        job.asks() == FlashAction::Finished
    } else {
        job.asks() != FlashAction::Finished && faithful(page, job.asks(), inputs[0]) && load_runs(
            job.next(inputs[0]),
            page,
            inputs.skip(1),
        )
    }
}

/// The job after `inputs`.
pub open spec fn load_result(job: LoadJob, inputs: Seq<FlashInput>) -> LoadJob
    decreases inputs.len(),
{
    if inputs.len() == 0 {
        job
    } else {
        load_result(job.next(inputs[0]), inputs.skip(1))
    }
}

/// A save that ran on `page` and got `inputs`, until it was finished.
pub open spec fn save_runs(job: SaveJob, page: Seq<Seq<u8>>, inputs: Seq<FlashInput>) -> bool
    decreases inputs.len(),
{
    if inputs.len() == 0 {
        job.asks() == FlashAction::Finished
    } else {
        job.asks() != FlashAction::Finished && faithful(page, job.asks(), inputs[0]) && save_runs(
            job.next(inputs[0]),
            after_action(page, job.asks()),
            inputs.skip(1),
        )
    }
}

/// The page after the flash operations that the job asked for.
pub open spec fn save_result(job: SaveJob, page: Seq<Seq<u8>>, inputs: Seq<FlashInput>) -> Seq<
    Seq<u8>,
>
    decreases inputs.len(),
{
    if inputs.len() == 0 {
        page
    } else {
        save_result(job.next(inputs[0]), after_action(page, job.asks()), inputs.skip(1))
    }
}

/// The last valid record among the first `n` slots.
spec fn newest_of(page: Seq<Seq<u8>>, n: int) -> Option<Profile>
    decreases n,
{
    if n <= 0 {
        None
    } else if profile_in(page[n - 1]) is Some {
        profile_in(page[n - 1])
    } else {
        newest_of(page, n - 1)
    }
}

proof fn newest_of_skips(page: Seq<Seq<u8>>, from: int, to: int)
    requires
        0 <= from <= to,
        forall|i: int| from <= i < to ==> profile_in(#[trigger] page[i]) is None,
    ensures
        newest_of(page, to) == newest_of(page, from),
    decreases to - from,
{
    if from < to {
        assert(profile_in(page[to - 1]) is None);
        newest_of_skips(page, from, to - 1);
    }
}

proof fn load_finds_from(job: LoadJob, page: Seq<Seq<u8>>, n: int, inputs: Seq<FlashInput>)
    requires
        uses_slots(page, n),
        job.slot == SLOTS || job.slot <= n,
        job.slot == SLOTS ==> job.latest == newest_of(page, n),
        job.slot < SLOTS ==> job.latest == newest_of(page, job.slot as int),
        load_runs(job, page, inputs),
    ensures
        load_result(job, inputs).latest == newest_of(page, n),
    decreases inputs.len(),
{
    if inputs.len() > 0 {
        assert(job.slot < SLOTS);
        assert((slot_offset(job.slot as int) - STORAGE_BASE) / (RECORD_SIZE as int) == job.slot);
        let next = job.next(inputs[0]);
        load_finds_from(next, page, n, inputs.skip(1));
    }
}

/// A load gives the most recent valid record of a log, that of the last slot
/// that holds one, whatever slots before or behind it hold none. It gives
/// nothing if no slot holds one.
pub proof fn load_finds_newest(page: Seq<Seq<u8>>, n: int, inputs: Seq<FlashInput>)
    requires
        is_log(page, n),
        load_runs(LoadJob::start(), page, inputs),
    ensures
        forall|i: int| #[trigger]
            is_newest(page, i) ==> load_result(LoadJob::start(), inputs).latest == profile_in(
                page[i],
            ),
        (forall|i: int| 0 <= i < SLOTS ==> profile_in(#[trigger] page[i]) is None) ==> load_result(
            LoadJob::start(),
            inputs,
        ).latest is None,
{
    load_finds_from(LoadJob::start(), page, n, inputs);
    erased_slot_is_free();
    newest_of_skips(page, n, SLOTS as int);
    assert forall|i: int| #[trigger] is_newest(page, i) implies load_result(
        LoadJob::start(),
        inputs,
    ).latest == profile_in(page[i]) by {
        newest_of_skips(page, i + 1, SLOTS as int);
    }
    if forall|i: int| 0 <= i < SLOTS ==> profile_in(#[trigger] page[i]) is None {
        newest_of_skips(page, 0, SLOTS as int);
    }
}

/// The page after a save: the record goes into the first erased slot, and the
/// page is wiped first only if there is none.
pub open spec fn appended(page: Seq<Seq<u8>>, n: int, p: Profile) -> Seq<Seq<u8>> {
    if n < SLOTS {
        page.update(n, programmed(page[n], record_of(p)))
    } else {
        erased_page().update(0, programmed(erased_slot(), record_of(p)))
    }
}

proof fn save_appends_from(job: SaveJob, page: Seq<Seq<u8>>, n: int, inputs: Seq<FlashInput>)
    requires
        is_page(page),
        uses_slots(page, n),
        job.phase matches SavePhase::Scan(slot) && slot <= n && slot < SLOTS,
        save_runs(job, page, inputs),
    ensures
        save_result(job, page, inputs) == appended(page, n, job.profile),
    decreases inputs.len(),
{
    let slot = job.phase->Scan_0;
    assert((slot_offset(slot as int) - STORAGE_BASE) / (RECORD_SIZE as int) == slot);
    let next = job.next(inputs[0]);
    record_round_trip(job.profile);
    assert(written_record(job.profile)@ =~= record_of(job.profile));
    if slot < n && slot + 1 < SLOTS {
        save_appends_from(next, page, n, inputs.skip(1));
    } else {
        reveal_with_fuel(save_runs, 4);
        reveal_with_fuel(save_result, 4);
        if slot < n {
            assert(next.phase == SavePhase::Erase);
        } else {
            assert(next.phase == SavePhase::Write(slot));
        }
    }
}

/// A save appends the record behind the last used slot, and wipes the page only when
/// every slot is used.
pub proof fn save_appends(profile: Profile, page: Seq<Seq<u8>>, n: int, inputs: Seq<FlashInput>)
    requires
        is_page(page),
        uses_slots(page, n),
        save_runs(SaveJob::start(profile), page, inputs),
    ensures
        save_result(SaveJob::start(profile), page, inputs) == appended(page, n, profile),
{
    save_appends_from(SaveJob::start(profile), page, n, inputs);
}

proof fn programming_erased(bytes: Seq<u8>)
    requires
        bytes.len() == RECORD_SIZE,
    ensures
        programmed(erased_slot(), bytes) == bytes,
{
    assert forall|i: int| 0 <= i < RECORD_SIZE implies programmed(erased_slot(), bytes)[i]
        == bytes[i] by {
        let b = bytes[i];
        assert(0xffu8 & b == b) by (bit_vector);
    }
    assert(programmed(erased_slot(), bytes) =~= bytes);
}

/// An erased slot holds no record.
pub proof fn erased_slot_is_free()
    ensures
        profile_in(erased_slot()) is None,
{
    assert(le_value(erased_slot(), 0) == 0xffff_ffff);
}

/// Saving keeps the page a log, one slot longer, or of one slot after a wipe;
/// the new record is its last, and all slots before it stay.
pub proof fn save_keeps_log(profile: Profile, page: Seq<Seq<u8>>, n: int)
    requires
        is_log(page, n),
    ensures
        n < SLOTS ==> is_log(appended(page, n, profile), n + 1) && appended(
            page,
            n,
            profile,
        )[n] == record_of(profile) && appended(page, n, profile).take(n) == page.take(n),
        n == SLOTS ==> is_log(appended(page, n, profile), 1) && appended(page, n, profile)[0]
            == record_of(profile),
{
    record_round_trip(profile);
    programming_erased(record_of(profile));
    erased_slot_is_free();
    let after = appended(page, n, profile);
    if n < SLOTS {
        assert(page[n] == erased_slot());
        assert(after.take(n) =~= page.take(n));
        assert forall|i: int| n + 1 <= i < SLOTS implies #[trigger] after[i] == erased_slot() by {
            assert(after[i] == page[i]);
        }
        assert forall|i: int| 0 <= i < SLOTS implies (#[trigger] after[i]).len()
            == RECORD_SIZE by {
            if i != n {
                assert(after[i] == page[i]);
            }
        }
    }
}

/// What is saved is what is loaded next: on any log, whatever its used slots
/// hold, a load after a save gives the profile that was saved.
pub proof fn load_after_save(
    profile: Profile,
    page: Seq<Seq<u8>>,
    n: int,
    saving: Seq<FlashInput>,
    loading: Seq<FlashInput>,
)
    requires
        is_log(page, n),
        save_runs(SaveJob::start(profile), page, saving),
        load_runs(
            LoadJob::start(),
            save_result(SaveJob::start(profile), page, saving),
            loading,
        ),
    ensures
        load_result(LoadJob::start(), loading).latest == Some(profile),
{
    save_appends(profile, page, n, saving);
    save_keeps_log(profile, page, n);
    record_round_trip(profile);
    erased_slot_is_free();
    let after = appended(page, n, profile);
    let last = if n < SLOTS {
        n
    } else {
        0
    };
    load_finds_newest(after, last + 1, loading);
    assert(is_newest(after, last));
}

/// A wiped page is an empty log, and a load from it gives nothing.
pub proof fn load_after_clear(page: Seq<Seq<u8>>, action: FlashAction, loading: Seq<FlashInput>)
    requires
        action is Erase,
        load_runs(LoadJob::start(), after_action(page, action), loading),
    ensures
        is_log(after_action(page, action), 0),
        load_result(LoadJob::start(), loading).latest is None,
{
    erased_slot_is_free();
    load_finds_newest(after_action(page, action), 0, loading);
}

/// Where everything stands in a record: the marker, the address, the channel, two
/// zeros, the key, and the counter with its least significant byte first.
pub proof fn record_layout(p: Profile)
    ensures
        ({
            let r = record_of(p);
            &&& r.len() == 32
            &&& r[0] == 0x31 && r[1] == 0x4B && r[2] == 0x46 && r[3] == 0x55
            &&& forall|i: int| 0 <= i < 5 ==> r[4 + i] == #[trigger] p.address@[i]
            &&& r[9] == p.channel
            &&& r[10] == 0 && r[11] == 0
            &&& forall|i: int| 0 <= i < 16 ==> r[12 + i] == #[trigger] p.aes_key@[i]
            &&& p.aes_counter == r[28] + 0x100 * r[29] + 0x1_0000 * r[30] + 0x100_0000 * r[31]
        }),
{
}

/// A record is valid exactly if it bears the marker, and the profile in it is
/// what stands there, whatever the two reserved bytes are.
pub proof fn record_contents(r: Seq<u8>)
    requires
        r.len() == 32,
    ensures
        profile_in(r) is Some <==> r[0] == 0x31 && r[1] == 0x4B && r[2] == 0x46 && r[3] == 0x55,
        profile_in(r) matches Some(p) ==> {
            &&& p.address@ == r.subrange(4, 9)
            &&& p.channel == r[9]
            &&& p.aes_key@ == r.subrange(12, 28)
            &&& p.aes_counter == r[28] + 0x100 * r[29] + 0x1_0000 * r[30] + 0x100_0000 * r[31]
        },
{
    if let Some(p) = profile_in(r) {
        assert(p.address@ =~= r.subrange(4, 9));
        assert(p.aes_key@ =~= r.subrange(12, 28));
    }
}

/// The jobs touch nothing but the storage page, and there whole slots: slot after
/// slot is read from the first one on, what is written is the record of the
/// profile, and what is wiped is the page.
pub proof fn jobs_stay_in_page(load: LoadJob, save: SaveJob)
    requires
        save.wf(),
    ensures
        load.slot < 128 ==> load.asks() == (FlashAction::Read {
            offset: (0xF_8000 + 32 * load.slot) as u32,
        }),
        load.slot >= 128 ==> load.asks() is Finished,
        save.phase matches SavePhase::Scan(slot) ==> slot < 128 && save.asks()
            == (FlashAction::Read { offset: (0xF_8000 + 32 * slot) as u32 }),
        save.phase matches SavePhase::Write(slot) ==> slot < 128 && (
        save.asks() matches FlashAction::Write { offset, record } && offset == 0xF_8000 + 32 * slot
            && record@ == record_of(save.profile)),
        save.phase is Erase ==> save.asks() == (FlashAction::Erase { from: 0xF_8000, to: 0xF_9000 }),
        LoadJob::start().slot == 0 && LoadJob::start().latest is None,
        SaveJob::start(save.profile).phase == SavePhase::Scan(0),
        SaveJob::start(save.profile).profile == save.profile,
{
    record_layout(save.profile);
    assert(written_record(save.profile)@ =~= record_of(save.profile));
}

/// A slot that cannot be read ends a load with what was found before it, and a
/// save with nothing written; a page that cannot be wiped, or a record that
/// cannot be written, ends a save as well.
pub proof fn failures_end_jobs(load: LoadJob, save: SaveJob)
    ensures
        load.next(FlashInput::Record(None)).asks() is Finished,
        load.next(FlashInput::Record(None)).latest == load.latest,
        save.phase is Scan ==> save.next(FlashInput::Record(None)).asks() is Finished,
        save.phase is Erase ==> save.next(FlashInput::Completed(false)).asks() is Finished,
        save.phase is Write ==> forall|ok: bool| #[trigger]
            save.next(FlashInput::Completed(ok)).asks() is Finished,
{
}

/// The operations that a save may still ask for.
pub open spec fn save_measure(job: SaveJob) -> int {
    match job.phase {
        SavePhase::Scan(slot) => SLOTS - slot + 2,
        SavePhase::Erase => 2,
        SavePhase::Write(_) => 1,
        SavePhase::Finished => 0,
    }
}

/// `input` is an answer to `action`, successful or not.
pub open spec fn answers(action: FlashAction, input: FlashInput) -> bool {
    match action {
        FlashAction::Read { .. } => input is Record,
        FlashAction::Finished => false,
        _ => input is Completed,
    }
}

/// Whatever comes of the operations, a load asks for at most `SLOTS` of them
/// and a save for at most `SLOTS + 2`, and only the write of a save programs
/// the flash.
pub proof fn jobs_end(load: LoadJob, save: SaveJob, input: FlashInput)
    requires
        save.wf(),
    ensures
        answers(load.asks(), input) ==> load.slot < load.next(input).slot <= SLOTS,
        answers(save.asks(), input) ==> 0 <= save_measure(save.next(input)) < save_measure(save),
        save_measure(save) == 0 <==> save.asks() == FlashAction::Finished,
        !(load.asks() is Write) && !(load.asks() is Erase),
{
}

} // verus!
