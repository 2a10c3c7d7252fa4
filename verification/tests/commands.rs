use nrf_unifying::commands::{
    parse_key_args, parse_ota_command, parse_unifying_command, OtaCommand, UnifyingCommand,
};
use nrf_unifying::state::KeyReport;

#[test]
fn update_commands() {
    assert_eq!(parse_ota_command(b"PING"), Some(OtaCommand::Ping));
    assert_eq!(parse_ota_command(b"INFO"), Some(OtaCommand::Info));
    assert_eq!(parse_ota_command(b"BOOT"), Some(OtaCommand::Boot));
    assert_eq!(parse_ota_command(b"ABORT"), Some(OtaCommand::Abort));
    assert_eq!(parse_ota_command(b"REBOOT"), Some(OtaCommand::Reboot));
    assert_eq!(parse_ota_command(b"WRITE 32128"), Some(OtaCommand::Write(32128)));
    assert_eq!(parse_ota_command(b"WRITE 0"), Some(OtaCommand::Write(0)));
    assert_eq!(parse_ota_command(b"WRITE +8"), Some(OtaCommand::Write(8)));
    assert_eq!(parse_ota_command(b"WRITE"), None);
    assert_eq!(parse_ota_command(b"WRITE "), None);
    assert_eq!(parse_ota_command(b"WRITE abc"), None);
    assert_eq!(parse_ota_command(b"ping"), None);
    assert_eq!(parse_ota_command(b"PING "), None);
    assert_eq!(parse_ota_command(b""), None);
}

#[test]
fn keyboard_commands() {
    assert_eq!(parse_unifying_command(b""), UnifyingCommand::Empty);
    assert_eq!(parse_unifying_command(b"URADIOTEST"), UnifyingCommand::RadioTest);
    assert_eq!(parse_unifying_command(b"UPAIR"), UnifyingCommand::Pair);
    assert_eq!(parse_unifying_command(b"UCONNECT"), UnifyingCommand::Connect);
    assert_eq!(parse_unifying_command(b"UKEEPALIVE"), UnifyingCommand::KeepAlive);
    assert_eq!(parse_unifying_command(b"USTATUS"), UnifyingCommand::Status);
    assert_eq!(parse_unifying_command(b"VER"), UnifyingCommand::Version);
    assert_eq!(parse_unifying_command(b"UDELETE"), UnifyingCommand::Delete);
    assert_eq!(parse_unifying_command(b"UTYPE hello"), UnifyingCommand::Type);
    assert_eq!(parse_unifying_command(b"UTYPE "), UnifyingCommand::Type);
    assert_eq!(parse_unifying_command(b"UTYPE"), UnifyingCommand::Unknown);
    assert_eq!(parse_unifying_command(b"UKEY"), UnifyingCommand::Unknown);
    assert_eq!(parse_unifying_command(b"help"), UnifyingCommand::Unknown);
    assert_eq!(
        parse_unifying_command(b"UKEY 05 4C"),
        UnifyingCommand::Key(Some(KeyReport { modifier: 0x05, keys: [0x4c, 0, 0, 0, 0, 0] }))
    );
    assert_eq!(parse_unifying_command(b"UKEY zz"), UnifyingCommand::Key(None));
    assert_eq!(
        parse_unifying_command(b"UKEYDOWN 02 04"),
        UnifyingCommand::KeyDown(Some(KeyReport { modifier: 0x02, keys: [0x04, 0, 0, 0, 0, 0] }))
    );
    assert_eq!(
        parse_unifying_command(b"UKEYDOWN 00"),
        UnifyingCommand::KeyDown(Some(KeyReport { modifier: 0, keys: [0; 6] }))
    );
}

#[test]
fn key_arguments() {
    assert_eq!(
        parse_key_args(b"  1   4  5 6 7 8 9 "),
        Some(KeyReport { modifier: 1, keys: [4, 5, 6, 7, 8, 9] })
    );
    assert_eq!(parse_key_args(b"1 4 5 6 7 8 9 a"), None);
    assert_eq!(parse_key_args(b""), None);
    assert_eq!(parse_key_args(b"   "), None);
    assert_eq!(parse_key_args(b"1 4 x"), None);
    assert_eq!(parse_key_args(b"100"), None);
    assert_eq!(parse_key_args(b"ff FF"), Some(KeyReport { modifier: 255, keys: [255, 0, 0, 0, 0, 0] }));
}

#[test]
fn update_commands_are_no_keyboard_commands() {
    for line in [&b"PING"[..], b"INFO", b"BOOT", b"ABORT", b"REBOOT", b"WRITE 4"] {
        assert!(parse_ota_command(line).is_some());
        assert_eq!(parse_unifying_command(line), UnifyingCommand::Unknown);
    }
}
