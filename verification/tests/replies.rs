use nrf_unifying::replies::{
    format_connected, format_paired, format_radiotest, format_status, format_typed, next_packet,
    BootState, Disconnected, EndpointFault, Reply, REPLY_LEN,
};
use nrf_unifying::state::{Device, UnifyingState};

fn text(reply: Reply) -> Vec<u8> {
    let build = b"1780592198";
    let mut out = vec![0u8; REPLY_LEN + build.len()];
    let n = reply.render(build, &mut out);
    out.truncate(n);
    out
}

#[test]
fn formatted_replies() {
    let mut out = [0u8; 96];
    let n = format_typed(&mut out, 11, 11);
    assert_eq!(&out[..n], b"TYPED 11/11\r\n");
    let n = format_paired(&mut out, &[0x3d, 0x41, 0x95, 0x0e, 0x0c], 32);
    assert_eq!(&out[..n], b"PAIRED 3D41950E0C CH=32\r\n");
    let n = format_connected(&mut out, 8);
    assert_eq!(&out[..n], b"CONNECTED CH=8\r\n");
    let n = format_radiotest(&mut out, 1, 33);
    assert_eq!(&out[..n], b"RADIOTEST ENC=1 ACKS=33\r\n");
    let state = UnifyingState {
        device: Device { address: [0; 5], aes_key: [0; 16], aes_counter: 26, channel: 62 },
        paired: true,
        connected: true,
        held_frames: 0,
    };
    let n = format_status(&mut out, &state);
    assert_eq!(&out[..n], b"STATUS PAIRED=1 CONN=1 CH=62 CNT=26\r\n");
}

#[test]
fn longest_replies_fit() {
    let mut typed = [0u8; 48];
    assert!(format_typed(&mut typed, u32::MAX, u32::MAX) <= 48);
    let mut paired = [0u8; 64];
    assert!(format_paired(&mut paired, &[0xff; 5], 255) <= 64);
    let mut connected = [0u8; 32];
    assert!(format_connected(&mut connected, 255) <= 32);
    let mut test = [0u8; 48];
    assert!(format_radiotest(&mut test, 255, u32::MAX) <= 48);
}

#[test]
fn fixed_replies() {
    assert_eq!(text(Reply::Banner), b"nrf-unifying ready build=1780592198\r\n");
    assert_eq!(text(Reply::Pong), b"PONG\r\n");
    assert_eq!(text(Reply::Info(Some(BootState::Boot))), b"STATE BOOT BUILD=1780592198\r\n");
    assert_eq!(text(Reply::Info(Some(BootState::Swap))), b"STATE SWAP BUILD=1780592198\r\n");
    assert_eq!(text(Reply::Info(Some(BootState::Revert))), b"STATE REVERT BUILD=1780592198\r\n");
    assert_eq!(text(Reply::Info(Some(BootState::DfuDetach))), b"STATE DFU BUILD=1780592198\r\n");
    assert_eq!(text(Reply::Info(None)), b"STATE ERR BUILD=1780592198\r\n");
    assert_eq!(text(Reply::ErrSize), b"ERR SIZE\r\n");
    assert_eq!(text(Reply::Ready), b"READY\r\n");
    assert_eq!(text(Reply::ErrWrite), b"ERR WRITE\r\n");
    assert_eq!(text(Reply::Done), b"OK\r\n");
    assert_eq!(text(Reply::ErrNoImage), b"ERR NOIMAGE\r\n");
    assert_eq!(text(Reply::ErrMark), b"ERR MARK\r\n");
    assert_eq!(text(Reply::Reboot), b"REBOOT\r\n");
    assert_eq!(text(Reply::Aborted), b"ABORTED\r\n");
    assert_eq!(text(Reply::ErrRadio), b"ERR RADIO\r\n");
    assert_eq!(text(Reply::RadioTestDone), b"RADIOTEST DONE\r\n");
    assert_eq!(text(Reply::ErrPair), b"ERR PAIR\r\n");
    assert_eq!(text(Reply::ErrNotPaired), b"ERR NOTPAIRED\r\n");
    assert_eq!(text(Reply::ErrConnect), b"ERR CONNECT\r\n");
    assert_eq!(text(Reply::ErrNotConn), b"ERR NOTCONN\r\n");
    assert_eq!(text(Reply::Tick), b"TICK\r\n");
    assert_eq!(text(Reply::Version), b"VER unifying/1 build=1780592198\r\n");
    assert_eq!(text(Reply::Deleted), b"DELETED\r\n");
    assert_eq!(text(Reply::ErrArg), b"ERR ARG\r\n");
    assert_eq!(text(Reply::ErrSend), b"ERR SEND\r\n");
    assert_eq!(text(Reply::Typed { ok: 13, total: 13 }), b"TYPED 13/13\r\n");
    assert_eq!(
        text(Reply::Commands),
        b"UCMDS: VER UPAIR UCONNECT UTYPE <text> UKEY <mod> [keys] UKEEPALIVE USTATUS UDELETE\r\n"
    );
}

#[test]
fn replies_go_out_in_packets() {
    let data: Vec<u8> = (0..150u8).collect();
    let mut sent: Vec<u8> = Vec::new();
    let mut sizes: Vec<usize> = Vec::new();
    while let Some(packet) = next_packet(&data, sent.len()) {
        sizes.push(packet.len());
        sent.extend_from_slice(packet);
    }
    assert_eq!(sizes, vec![64, 64, 22]);
    assert_eq!(sent, data);
    assert_eq!(next_packet(&[], 0), None);
    assert_eq!(next_packet(&[0u8; 64], 0).map(|p| p.len()), Some(64));
    assert_eq!(next_packet(&[0u8; 64], 64), None);
}

#[test]
fn disabled_endpoint_is_a_lost_host() {
    assert_eq!(Disconnected::from_fault(EndpointFault::Disabled), Disconnected);
}
