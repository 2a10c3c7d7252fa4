use nrf_unifying::unifying_hal::{EmbassyClock, SwAesCtr};

#[test]
fn aes_ctr_known_answer() {
    let key: [u8; 16] = [
        0x2b, 0x7e, 0x15, 0x16, 0x28, 0xae, 0xd2, 0xa6, 0xab, 0xf7, 0x15, 0x88, 0x09, 0xcf, 0x4f,
        0x3c,
    ];
    let counter: [u8; 16] = [
        0xf0, 0xf1, 0xf2, 0xf3, 0xf4, 0xf5, 0xf6, 0xf7, 0xf8, 0xf9, 0xfa, 0xfb, 0xfc, 0xfd, 0xfe,
        0xff,
    ];
    let mut data: [u8; 8] = [0x6b, 0xc1, 0xbe, 0xe2, 0x2e, 0x40, 0x9f, 0x96];
    let mut aes = SwAesCtr;
    assert!(aes.encrypt(&mut data, &key, &counter).is_ok());
    assert_eq!(data, [0x87, 0x4d, 0x61, 0x91, 0xb6, 0x20, 0xe3, 0x26]);
    assert!(aes.encrypt(&mut data, &key, &counter).is_ok());
    assert_eq!(data, [0x6b, 0xc1, 0xbe, 0xe2, 0x2e, 0x40, 0x9f, 0x96]);
}

#[test]
fn clock_counts_milliseconds() {
    let clock = EmbassyClock::new(1000);
    assert_eq!(clock.millis(1000), 0);
    assert_eq!(clock.millis(1000 + 32), 0);
    assert_eq!(clock.millis(1000 + 33), 1);
    assert_eq!(clock.millis(1000 + 32768), 1000);
}
