use nrf_unifying::storage::{
    clear, decode, encode, is_erased, load, save, FlashAction, FlashInput, Profile, MAGIC, PAGE_SIZE,
    RECORD_SIZE, SLOTS, STORAGE_BASE,
};

fn profile(counter: u32) -> Profile {
    Profile {
        address: [0x3d, 0x41, 0x95, 0x0e, 0x0c],
        aes_key: [0, 1, 2, 3, 4, 5, 6, 7, 8, 9, 10, 11, 12, 13, 14, 15],
        aes_counter: counter,
        channel: 32,
    }
}

/// A flash page that programs by clearing bits.
struct Page {
    bytes: Vec<u8>,
    erases: usize,
}

impl Page {
    fn new() -> Page {
        Page { bytes: vec![0xff; PAGE_SIZE as usize], erases: 0 }
    }

    fn perform(&mut self, action: FlashAction) -> FlashInput {
        match action {
            FlashAction::Read { offset } => {
                let at = (offset - STORAGE_BASE) as usize;
                let mut rec = [0u8; RECORD_SIZE];
                rec.copy_from_slice(&self.bytes[at..at + RECORD_SIZE]);
                FlashInput::Record(Some(rec))
            }
            FlashAction::Erase { from, to } => {
                assert_eq!((from, to), (STORAGE_BASE, STORAGE_BASE + PAGE_SIZE));
                self.bytes = vec![0xff; PAGE_SIZE as usize];
                self.erases += 1;
                FlashInput::Completed(true)
            }
            FlashAction::Write { offset, record } => {
                let at = (offset - STORAGE_BASE) as usize;
                for i in 0..RECORD_SIZE {
                    self.bytes[at + i] &= record[i];
                }
                FlashInput::Completed(true)
            }
            FlashAction::Finished => panic!("nothing to do"),
        }
    }

    fn save(&mut self, p: &Profile) {
        let mut job = save(p);
        while job.action() != FlashAction::Finished {
            let input = self.perform(job.action());
            job.step(&input);
        }
    }

    fn load(&mut self) -> Option<Profile> {
        let mut job = load();
        while job.action() != FlashAction::Finished {
            let input = self.perform(job.action());
            job.step(&input);
        }
        job.profile()
    }
}

#[test]
fn record_layout() {
    let rec = encode(&profile(0x0102_0304));
    assert_eq!(&rec[0..4], &MAGIC.to_le_bytes());
    assert_eq!(&rec[4..9], &[0x3d, 0x41, 0x95, 0x0e, 0x0c]);
    assert_eq!(rec[9], 32);
    assert_eq!(&rec[10..12], &[0, 0]);
    assert_eq!(&rec[12..28], &profile(0).aes_key);
    assert_eq!(&rec[28..32], &[4, 3, 2, 1]);
    assert_eq!(decode(&rec), Some(profile(0x0102_0304)));
}

#[test]
fn other_records_are_none() {
    assert_eq!(decode(&[0xff; RECORD_SIZE]), None);
    assert_eq!(decode(&[0; RECORD_SIZE]), None);
    let mut rec = encode(&profile(1));
    rec[3] ^= 1;
    assert_eq!(decode(&rec), None);
}

#[test]
fn load_gives_what_was_saved_last() {
    let mut page = Page::new();
    assert_eq!(page.load(), None);
    for counter in 0..SLOTS {
        page.save(&profile(counter));
        assert_eq!(page.load(), Some(profile(counter)));
    }
    assert_eq!(page.erases, 0);
    page.save(&profile(1000));
    assert_eq!(page.erases, 1);
    assert_eq!(page.load(), Some(profile(1000)));
    page.save(&profile(1001));
    assert_eq!(page.erases, 1);
    assert_eq!(page.load(), Some(profile(1001)));
}

#[test]
fn clear_forgets() {
    let mut page = Page::new();
    page.save(&profile(1));
    page.perform(clear());
    assert_eq!(page.load(), None);
}

#[test]
fn failures_end_the_jobs() {
    let mut job = load();
    job.step(&FlashInput::Record(Some(encode(&profile(3)))));
    job.step(&FlashInput::Record(None));
    assert_eq!(job.action(), FlashAction::Finished);
    assert_eq!(job.profile(), Some(profile(3)));

    let mut job = save(&profile(4));
    job.step(&FlashInput::Record(None));
    assert_eq!(job.action(), FlashAction::Finished);

    let mut job = save(&profile(4));
    for _ in 0..SLOTS {
        assert!(matches!(job.action(), FlashAction::Read { .. }));
        job.step(&FlashInput::Record(Some(encode(&profile(3)))));
    }
    assert_eq!(job.action(), clear());
    job.step(&FlashInput::Completed(false));
    assert_eq!(job.action(), FlashAction::Finished);
}

#[test]
fn damaged_slot_is_passed_over() {
    let mut page = Page::new();
    page.bytes[0..4].copy_from_slice(&[0x31, 0x4b, 0x46, 0x00]);
    let rec = encode(&profile(7));
    page.bytes[RECORD_SIZE..2 * RECORD_SIZE].copy_from_slice(&rec);
    assert_eq!(page.load(), Some(profile(7)));

    let mut damaged = Page::new();
    damaged.bytes[0..RECORD_SIZE].copy_from_slice(&[0; RECORD_SIZE]);
    assert_eq!(damaged.load(), None);
    damaged.save(&profile(8));
    assert_eq!(&damaged.bytes[0..RECORD_SIZE], &[0; RECORD_SIZE]);
    assert_eq!(&damaged.bytes[RECORD_SIZE..2 * RECORD_SIZE], &encode(&profile(8)));
    assert_eq!(damaged.load(), Some(profile(8)));
    assert_eq!(damaged.erases, 0);
}

#[test]
fn save_after_a_torn_write_is_found() {
    let mut page = Page::new();
    page.save(&profile(1));
    page.save(&profile(2));
    let torn = 2 * RECORD_SIZE;
    page.bytes[torn..torn + 2].copy_from_slice(&encode(&profile(3))[..2]);
    assert_eq!(page.load(), Some(profile(2)));
    page.save(&profile(4));
    assert_eq!(page.load(), Some(profile(4)));
    assert_eq!(&page.bytes[torn + RECORD_SIZE..torn + 2 * RECORD_SIZE], &encode(&profile(4)));
}

#[test]
fn page_of_damaged_slots_is_wiped() {
    let mut page = Page::new();
    page.bytes = vec![0xa5; PAGE_SIZE as usize];
    assert_eq!(page.load(), None);
    page.save(&profile(5));
    assert_eq!(page.erases, 1);
    assert_eq!(page.load(), Some(profile(5)));
}

#[test]
fn erased_slots() {
    assert!(is_erased(&[0xff; RECORD_SIZE]));
    let mut rec = [0xff; RECORD_SIZE];
    rec[31] = 0xfe;
    assert!(!is_erased(&rec));
    assert!(!is_erased(&encode(&profile(0))));
}
