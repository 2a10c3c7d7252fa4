use nrf_unifying::ota::{confirms_boot, Upload, UploadAction, ACTIVE_IMAGE_LIMIT};
use nrf_unifying::replies::{BootState, Reply};

/// Gives the upload a packet and performs what it asks for on `flash`.
fn feed(upload: &mut Upload, packet: &[u8], flash: &mut Vec<u8>) -> Vec<Reply> {
    let mut replies = Vec::new();
    upload.take(packet);
    loop {
        match upload.action() {
            UploadAction::Wait => return replies,
            UploadAction::Write { offset, bytes } => {
                assert_eq!(offset, flash.len());
                assert_eq!(bytes.len() % 4, 0);
                flash.extend_from_slice(bytes.as_slice());
                upload.step(true);
            }
            UploadAction::Reply(reply) => {
                replies.push(reply);
                upload.step(true);
            }
        }
    }
}

fn image(n: usize) -> Vec<u8> {
    (0..n).map(|i| (i * 7 + 3) as u8).collect()
}

#[test]
fn images_arrive_whole() {
    for size in [1usize, 3, 4, 5, 63, 64, 65, 128, 1001] {
        for chunk in [1usize, 2, 5, 63, 64] {
            let data = image(size);
            let mut upload = Upload::new();
            upload.announce(size);
            let mut flash = Vec::new();
            let mut replies = Vec::new();
            for packet in data.chunks(chunk) {
                assert!(upload.active);
                replies.extend(feed(&mut upload, packet, &mut flash));
            }
            assert_eq!(replies, vec![Reply::Done]);
            assert!(upload.image_ready && !upload.active);
            assert_eq!(upload.received, size);
            assert_eq!(flash.len(), (size + 3) / 4 * 4);
            assert_eq!(&flash[..size], &data[..]);
            assert!(flash[size..].iter().all(|b| *b == 0xff));
        }
    }
}

#[test]
fn bytes_beyond_the_size_are_written_too() {
    let mut upload = Upload::new();
    upload.announce(2);
    let mut flash = Vec::new();
    assert_eq!(feed(&mut upload, &image(6), &mut flash), vec![Reply::Done]);
    assert_eq!(&flash[..6], &image(6)[..]);
    assert_eq!(&flash[6..], &[0xff, 0xff]);
}

#[test]
fn failing_flash_ends_the_upload() {
    let mut upload = Upload::new();
    upload.announce(100);
    upload.take(&image(64));
    assert!(matches!(upload.action(), UploadAction::Write { offset: 0, .. }));
    upload.step(false);
    assert!(matches!(upload.action(), UploadAction::Reply(Reply::ErrWrite)));
    upload.step(true);
    assert!(!upload.active && !upload.image_ready);

    upload.announce(2);
    upload.take(&image(2));
    assert!(matches!(upload.action(), UploadAction::Write { offset: 0, .. }));
    upload.step(false);
    assert!(matches!(upload.action(), UploadAction::Reply(Reply::ErrWrite)));
}

#[test]
fn abort_forgets_the_image() {
    let mut upload = Upload::new();
    upload.announce(4);
    let mut flash = Vec::new();
    feed(&mut upload, &image(4), &mut flash);
    assert!(upload.image_ready);
    upload.abort();
    assert!(!upload.image_ready && !upload.active);
    assert_eq!(ACTIVE_IMAGE_LIMIT, 491_520);
}

#[test]
fn confirming_a_new_firmware() {
    assert!(confirms_boot(Some(BootState::Swap)));
    assert!(confirms_boot(Some(BootState::Revert)));
    assert!(!confirms_boot(Some(BootState::Boot)));
    assert!(!confirms_boot(Some(BootState::DfuDetach)));
    assert!(!confirms_boot(None));
}
