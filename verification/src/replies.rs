//! The lines that the device sends to its host.

use crate::state::UnifyingState;
use crate::storage::ADDRESS_LEN;
use crate::text::{hex_byte, write_bytes, write_crlf, write_u32};
use vstd::prelude::*;
use vstd::string::StringSliceAdditionalSpecFns;

verus! {

use crate::text::{
    all_digits, crlf, decimal, decimal_round_trip, decimal_u32_len, decimal_u8_len, decimal_value,
    hex_pair, hex_round_trip, hex_word, splice, splice_twice,
};

/// Largest packet of the serial endpoint.
pub const PACKET_LEN: usize = 64;

/// What the bootloader says of the running firmware.
#[derive(Clone, Copy, Debug, PartialEq, Eq)]
pub enum BootState {
    Boot,
    Swap,
    Revert,
    DfuDetach,
}

/// One line to the host.
#[derive(Clone, Copy, Debug, PartialEq, Eq)]
pub enum Reply {
    /// Greets a host that has just connected.
    Banner,
    Pong,
    /// The bootloader state, or none if it could not be read.
    Info(Option<BootState>),
    ErrSize,
    Ready,
    ErrWrite,
    Done,
    ErrNoImage,
    ErrMark,
    Reboot,
    Aborted,
    ErrRadio,
    RadioTest { encoding: u8, acks: u32 },
    RadioTestDone,
    ErrPair,
    Paired { address: [u8; ADDRESS_LEN], channel: u8 },
    ErrNotPaired,
    ErrConnect,
    Connected { channel: u8 },
    ErrNotConn,
    Tick,
    Status { paired: bool, connected: bool, channel: u8, counter: u32 },
    Version,
    Deleted,
    ErrArg,
    ErrSend,
    Typed { ok: u32, total: u32 },
    Commands,
}

/// `TYPED <ok>/<total>`
pub open spec fn typed_text(ok: u32, total: u32) -> Seq<u8> {
    "TYPED ".spec_bytes() + decimal(ok as nat) + "/".spec_bytes() + decimal(total as nat) + crlf()
}

/// The address in hexadecimal, first byte first.
pub open spec fn address_text(address: [u8; ADDRESS_LEN]) -> Seq<u8> {
    hex_pair(address@[0]) + hex_pair(address@[1]) + hex_pair(address@[2]) + hex_pair(address@[3])
        + hex_pair(address@[4])
}

/// `PAIRED <address> CH=<channel>`
pub open spec fn paired_text(address: [u8; ADDRESS_LEN], channel: u8) -> Seq<u8> {
    "PAIRED ".spec_bytes() + address_text(address) + " CH=".spec_bytes() + decimal(channel as nat)
        + crlf()
}

/// `CONNECTED CH=<channel>`
pub open spec fn connected_text(channel: u8) -> Seq<u8> {
    "CONNECTED CH=".spec_bytes() + decimal(channel as nat) + crlf()
}

/// `RADIOTEST ENC=<encoding> ACKS=<acks>`
pub open spec fn radiotest_text(encoding: u8, acks: u32) -> Seq<u8> {
    "RADIOTEST ENC=".spec_bytes() + decimal(encoding as nat) + " ACKS=".spec_bytes() + decimal(
        acks as nat,
    ) + crlf()
}

/// `1` or `0`.
pub open spec fn flag_text(flag: bool) -> Seq<u8> {
    if flag {
        seq![0x31]
    } else {
        seq![0x30]
    }
}

/// `STATUS PAIRED=<0|1> CONN=<0|1> CH=<channel> CNT=<counter>`
pub open spec fn status_text(paired: bool, connected: bool, channel: u8, counter: u32) -> Seq<u8> {
    "STATUS PAIRED=".spec_bytes() + flag_text(paired) + " CONN=".spec_bytes() + flag_text(connected)
        + " CH=".spec_bytes() + decimal(channel as nat) + " CNT=".spec_bytes() + decimal(
        counter as nat,
    ) + crlf()
}

/// The line of a reply, for firmware of the given build.
pub open spec fn reply_text(reply: Reply, build: Seq<u8>) -> Seq<u8> {
    match reply {
        Reply::Banner => "nrf-unifying ready build=".spec_bytes() + build + crlf(),
        Reply::Pong => "PONG".spec_bytes() + crlf(),
        Reply::Info(Some(BootState::Boot)) => "STATE BOOT BUILD=".spec_bytes() + build + crlf(),
        Reply::Info(Some(BootState::Swap)) => "STATE SWAP BUILD=".spec_bytes() + build + crlf(),
        Reply::Info(Some(BootState::Revert)) => "STATE REVERT BUILD=".spec_bytes() + build + crlf(),
        Reply::Info(Some(BootState::DfuDetach)) => "STATE DFU BUILD=".spec_bytes() + build + crlf(),
        Reply::Info(None) => "STATE ERR BUILD=".spec_bytes() + build + crlf(),
        Reply::ErrSize => "ERR SIZE".spec_bytes() + crlf(),
        Reply::Ready => "READY".spec_bytes() + crlf(),
        Reply::ErrWrite => "ERR WRITE".spec_bytes() + crlf(),
        Reply::Done => "OK".spec_bytes() + crlf(),
        Reply::ErrNoImage => "ERR NOIMAGE".spec_bytes() + crlf(),
        Reply::ErrMark => "ERR MARK".spec_bytes() + crlf(),
        Reply::Reboot => "REBOOT".spec_bytes() + crlf(),
        Reply::Aborted => "ABORTED".spec_bytes() + crlf(),
        Reply::ErrRadio => "ERR RADIO".spec_bytes() + crlf(),
        Reply::RadioTest { encoding, acks } => radiotest_text(encoding, acks),
        Reply::RadioTestDone => "RADIOTEST DONE".spec_bytes() + crlf(),
        Reply::ErrPair => "ERR PAIR".spec_bytes() + crlf(),
        Reply::Paired { address, channel } => paired_text(address, channel),
        Reply::ErrNotPaired => "ERR NOTPAIRED".spec_bytes() + crlf(),
        Reply::ErrConnect => "ERR CONNECT".spec_bytes() + crlf(),
        Reply::Connected { channel } => connected_text(channel),
        Reply::ErrNotConn => "ERR NOTCONN".spec_bytes() + crlf(),
        Reply::Tick => "TICK".spec_bytes() + crlf(),
        Reply::Status { paired, connected, channel, counter } => status_text(
            paired,
            connected,
            channel,
            counter,
        ),
        Reply::Version => "VER unifying/1 build=".spec_bytes() + build + crlf(),
        Reply::Deleted => "DELETED".spec_bytes() + crlf(),
        Reply::ErrArg => "ERR ARG".spec_bytes() + crlf(),
        Reply::ErrSend => "ERR SEND".spec_bytes() + crlf(),
        Reply::Typed { ok, total } => typed_text(ok, total),
        Reply::Commands =>
            "UCMDS: VER UPAIR UCONNECT UTYPE <text> UKEY <mod> [keys] UKEEPALIVE USTATUS UDELETE".spec_bytes()
            + crlf(),
    }
}

/// Writes `TYPED <ok>/<total>` and returns its length.
pub fn format_typed(out: &mut [u8], ok: u32, total: u32) -> (n: usize)
    requires
        typed_text(ok, total).len() <= old(out)@.len(),
    ensures
        n == typed_text(ok, total).len(),
        final(out)@ == splice(old(out)@, 0, typed_text(ok, total)),
{
    let mut pos: usize = write_bytes(out, 0, "TYPED ".as_bytes());
    pos = write_u32(out, pos, ok);
    pos = write_bytes(out, pos, "/".as_bytes());
    pos = write_u32(out, pos, total);
    pos = write_crlf(out, pos);
    proof {
        let s = old(out)@;
        let a = "TYPED ".spec_bytes();
        let b = a + decimal(ok as nat);
        let c = b + "/".spec_bytes();
        let d = c + decimal(total as nat);
        splice_twice(s, 0, a, decimal(ok as nat));
        splice_twice(s, 0, b, "/".spec_bytes());
        splice_twice(s, 0, c, decimal(total as nat));
        splice_twice(s, 0, d, crlf());
    }
    pos
}

fn write_address(out: &mut [u8], pos: usize, address: &[u8; ADDRESS_LEN]) -> (end: usize)
    requires
        pos + 10 <= old(out)@.len(),
    ensures
        end == pos + 10,
        final(out)@ == splice(old(out)@, pos as int, address_text(*address)),
{
    let room: usize = out.len();
    assert(pos + 10 <= room);
    hex_byte(out, pos, address[0]);
    hex_byte(out, pos + 2, address[1]);
    hex_byte(out, pos + 4, address[2]);
    hex_byte(out, pos + 6, address[3]);
    hex_byte(out, pos + 8, address[4]);
    assert(out@ =~= splice(old(out)@, pos as int, address_text(*address)));
    pos + 10
}

/// Writes `PAIRED <address> CH=<channel>` and returns its length.
pub fn format_paired(out: &mut [u8], address: &[u8; ADDRESS_LEN], channel: u8) -> (n: usize)
    requires
        paired_text(*address, channel).len() <= old(out)@.len(),
    ensures
        n == paired_text(*address, channel).len(),
        final(out)@ == splice(old(out)@, 0, paired_text(*address, channel)),
{
    let mut pos: usize = write_bytes(out, 0, "PAIRED ".as_bytes());
    pos = write_address(out, pos, address);
    pos = write_bytes(out, pos, " CH=".as_bytes());
    pos = write_u32(out, pos, channel as u32);
    pos = write_crlf(out, pos);
    proof {
        let s = old(out)@;
        let a = "PAIRED ".spec_bytes();
        let b = a + address_text(*address);
        let c = b + " CH=".spec_bytes();
        let d = c + decimal(channel as nat);
        splice_twice(s, 0, a, address_text(*address));
        splice_twice(s, 0, b, " CH=".spec_bytes());
        splice_twice(s, 0, c, decimal(channel as nat));
        splice_twice(s, 0, d, crlf());
    }
    pos
}

/// Writes `CONNECTED CH=<channel>` and returns its length.
pub fn format_connected(out: &mut [u8], channel: u8) -> (n: usize)
    requires
        connected_text(channel).len() <= old(out)@.len(),
    ensures
        n == connected_text(channel).len(),
        final(out)@ == splice(old(out)@, 0, connected_text(channel)),
{
    let mut pos: usize = write_bytes(out, 0, "CONNECTED CH=".as_bytes());
    pos = write_u32(out, pos, channel as u32);
    pos = write_crlf(out, pos);
    proof {
        let s = old(out)@;
        let a = "CONNECTED CH=".spec_bytes();
        splice_twice(s, 0, a, decimal(channel as nat));
        splice_twice(s, 0, a + decimal(channel as nat), crlf());
    }
    pos
}

/// Writes `RADIOTEST ENC=<encoding> ACKS=<acks>` and returns its length.
pub fn format_radiotest(out: &mut [u8], encoding: u8, acks: u32) -> (n: usize)
    requires
        radiotest_text(encoding, acks).len() <= old(out)@.len(),
    ensures
        n == radiotest_text(encoding, acks).len(),
        final(out)@ == splice(old(out)@, 0, radiotest_text(encoding, acks)),
{
    let mut pos: usize = write_bytes(out, 0, "RADIOTEST ENC=".as_bytes());
    pos = write_u32(out, pos, encoding as u32);
    pos = write_bytes(out, pos, " ACKS=".as_bytes());
    pos = write_u32(out, pos, acks);
    pos = write_crlf(out, pos);
    proof {
        let s = old(out)@;
        let a = "RADIOTEST ENC=".spec_bytes();
        let b = a + decimal(encoding as nat);
        let c = b + " ACKS=".spec_bytes();
        let d = c + decimal(acks as nat);
        splice_twice(s, 0, a, decimal(encoding as nat));
        splice_twice(s, 0, b, " ACKS=".spec_bytes());
        splice_twice(s, 0, c, decimal(acks as nat));
        splice_twice(s, 0, d, crlf());
    }
    pos
}

fn write_flag(out: &mut [u8], pos: usize, flag: bool) -> (end: usize)
    requires
        pos + 1 <= old(out)@.len(),
    ensures
        end == pos + 1,
        final(out)@ == splice(old(out)@, pos as int, flag_text(flag)),
{
    out[pos] = if flag {
        0x31
    } else {
        0x30
    };
    assert(out@ =~= splice(old(out)@, pos as int, flag_text(flag)));
    pos + 1
}

fn write_status(
    out: &mut [u8],
    paired: bool,
    connected: bool,
    channel: u8,
    counter: u32,
) -> (n: usize)
    requires
        status_text(paired, connected, channel, counter).len() <= old(out)@.len(),
    ensures
        n == status_text(paired, connected, channel, counter).len(),
        final(out)@ == splice(old(out)@, 0, status_text(paired, connected, channel, counter)),
{
    let mut pos: usize = write_bytes(out, 0, "STATUS PAIRED=".as_bytes());
    pos = write_flag(out, pos, paired);
    pos = write_bytes(out, pos, " CONN=".as_bytes());
    pos = write_flag(out, pos, connected);
    pos = write_bytes(out, pos, " CH=".as_bytes());
    pos = write_u32(out, pos, channel as u32);
    pos = write_bytes(out, pos, " CNT=".as_bytes());
    pos = write_u32(out, pos, counter);
    pos = write_crlf(out, pos);
    proof {
        let s = old(out)@;
        let a = "STATUS PAIRED=".spec_bytes();
        let b = a + flag_text(paired);
        let c = b + " CONN=".spec_bytes();
        let d = c + flag_text(connected);
        let e = d + " CH=".spec_bytes();
        let f = e + decimal(channel as nat);
        let g = f + " CNT=".spec_bytes();
        let h = g + decimal(counter as nat);
        splice_twice(s, 0, a, flag_text(paired));
        splice_twice(s, 0, b, " CONN=".spec_bytes());
        splice_twice(s, 0, c, flag_text(connected));
        splice_twice(s, 0, d, " CH=".spec_bytes());
        splice_twice(s, 0, e, decimal(channel as nat));
        splice_twice(s, 0, f, " CNT=".spec_bytes());
        splice_twice(s, 0, g, decimal(counter as nat));
        splice_twice(s, 0, h, crlf());
    }
    pos
}

/// Writes the status line of `state` and returns its length.
pub fn format_status(out: &mut [u8], state: &UnifyingState) -> (n: usize)
    requires
        status_text(
            state.paired,
            state.connected,
            state.device.channel,
            state.device.aes_counter,
        ).len() <= old(out)@.len(),
    ensures
        n == status_text(
            state.paired,
            state.connected,
            state.device.channel,
            state.device.aes_counter,
        ).len(),
        final(out)@ == splice(
            old(out)@,
            0,
            status_text(
                state.paired,
                state.connected,
                state.device.channel,
                state.device.aes_counter,
            ),
        ),
{
    write_status(
        out,
        state.paired,
        state.connected,
        state.device.channel,
        state.device.aes_counter,
    )
}

fn line(out: &mut [u8], text: &str) -> (n: usize)
    requires
        (text.spec_bytes() + crlf()).len() <= old(out)@.len(),
    ensures
        n == (text.spec_bytes() + crlf()).len(),
        final(out)@ == splice(old(out)@, 0, text.spec_bytes() + crlf()),
{
    let pos: usize = write_bytes(out, 0, text.as_bytes());
    let end: usize = write_crlf(out, pos);
    proof {
        splice_twice(old(out)@, 0, text.spec_bytes(), crlf());
    }
    end
}

fn build_line(out: &mut [u8], text: &str, build: &[u8]) -> (n: usize)
    requires
        (text.spec_bytes() + build@ + crlf()).len() <= old(out)@.len(),
    ensures
        n == (text.spec_bytes() + build@ + crlf()).len(),
        final(out)@ == splice(old(out)@, 0, text.spec_bytes() + build@ + crlf()),
{
    let mut pos: usize = write_bytes(out, 0, text.as_bytes());
    pos = write_bytes(out, pos, build);
    pos = write_crlf(out, pos);
    proof {
        splice_twice(old(out)@, 0, text.spec_bytes(), build@);
        splice_twice(old(out)@, 0, text.spec_bytes() + build@, crlf());
    }
    pos
}

impl Reply {
    /// Writes the line of this reply and returns its length.
    pub fn render(&self, build: &[u8], out: &mut [u8]) -> (n: usize)
        requires
            reply_text(*self, build@).len() <= old(out)@.len(),
        ensures
            n == reply_text(*self, build@).len(),
            final(out)@ == splice(old(out)@, 0, reply_text(*self, build@)),
    {
        match *self {
            Reply::Banner => build_line(out, "nrf-unifying ready build=", build),
            Reply::Pong => line(out, "PONG"),
            Reply::Info(Some(BootState::Boot)) => build_line(out, "STATE BOOT BUILD=", build),
            Reply::Info(Some(BootState::Swap)) => build_line(out, "STATE SWAP BUILD=", build),
            Reply::Info(Some(BootState::Revert)) => build_line(out, "STATE REVERT BUILD=", build),
            Reply::Info(Some(BootState::DfuDetach)) => build_line(out, "STATE DFU BUILD=", build),
            Reply::Info(None) => build_line(out, "STATE ERR BUILD=", build),
            Reply::ErrSize => line(out, "ERR SIZE"),
            Reply::Ready => line(out, "READY"),
            Reply::ErrWrite => line(out, "ERR WRITE"),
            Reply::Done => line(out, "OK"),
            Reply::ErrNoImage => line(out, "ERR NOIMAGE"),
            Reply::ErrMark => line(out, "ERR MARK"),
            Reply::Reboot => line(out, "REBOOT"),
            Reply::Aborted => line(out, "ABORTED"),
            Reply::ErrRadio => line(out, "ERR RADIO"),
            Reply::RadioTest { encoding, acks } => format_radiotest(out, encoding, acks),
            Reply::RadioTestDone => line(out, "RADIOTEST DONE"),
            Reply::ErrPair => line(out, "ERR PAIR"),
            Reply::Paired { address, channel } => format_paired(out, &address, channel),
            Reply::ErrNotPaired => line(out, "ERR NOTPAIRED"),
            Reply::ErrConnect => line(out, "ERR CONNECT"),
            Reply::Connected { channel } => format_connected(out, channel),
            Reply::ErrNotConn => line(out, "ERR NOTCONN"),
            Reply::Tick => line(out, "TICK"),
            Reply::Status { paired, connected, channel, counter } => write_status(
                out,
                paired,
                connected,
                channel,
                counter,
            ),
            Reply::Version => build_line(out, "VER unifying/1 build=", build),
            Reply::Deleted => line(out, "DELETED"),
            Reply::ErrArg => line(out, "ERR ARG"),
            Reply::ErrSend => line(out, "ERR SEND"),
            Reply::Typed { ok, total } => format_typed(out, ok, total),
            Reply::Commands => line(
                out,
                "UCMDS: VER UPAIR UCONNECT UTYPE <text> UKEY <mod> [keys] UKEEPALIVE USTATUS UDELETE",
            ),
        }
    }
}

// Laws.

/// The buffers that the formatted replies are written into are long enough.
pub proof fn buffers_suffice(
    ok: u32,
    total: u32,
    address: [u8; ADDRESS_LEN],
    channel: u8,
    encoding: u8,
    acks: u32,
    paired: bool,
    connected: bool,
    counter: u32,
)
    ensures
        typed_text(ok, total).len() <= 48,
        paired_text(address, channel).len() <= 64,
        connected_text(channel).len() <= 32,
        radiotest_text(encoding, acks).len() <= 48,
        status_text(paired, connected, channel, counter).len() <= 96,
{
    reveal_strlit("TYPED ");
    reveal_strlit("/");
    reveal_strlit("PAIRED ");
    reveal_strlit(" CH=");
    reveal_strlit("CONNECTED CH=");
    reveal_strlit("RADIOTEST ENC=");
    reveal_strlit(" ACKS=");
    reveal_strlit("STATUS PAIRED=");
    reveal_strlit(" CONN=");
    reveal_strlit(" CNT=");
    assert("TYPED ".is_ascii() && "/".is_ascii() && "PAIRED ".is_ascii() && " CH=".is_ascii());
    assert("CONNECTED CH=".is_ascii() && "RADIOTEST ENC=".is_ascii() && " ACKS=".is_ascii());
    assert("STATUS PAIRED=".is_ascii() && " CONN=".is_ascii() && " CNT=".is_ascii());
    decimal_u32_len(ok);
    decimal_u32_len(total);
    decimal_u8_len(channel);
    decimal_u8_len(encoding);
    decimal_u32_len(acks);
    decimal_u32_len(counter);
}

/// Room that every reply fits into, besides the build name.
pub const REPLY_LEN: usize = 96;

/// The bytes hold no line feed.
pub open spec fn on_one_line(s: Seq<u8>) -> bool {
    forall|i: int| 0 <= i < s.len() ==> #[trigger] s[i] != 0x0a
}

/// The bytes end in a carriage return and a line feed, which is the only one.
pub open spec fn is_line(s: Seq<u8>) -> bool {
    &&& s.len() >= 2
    &&& s.skip(s.len() - 2) == crlf()
    &&& on_one_line(s.take(s.len() - 2))
}

proof fn plain_literal(lit: &str)
    requires
        lit.is_ascii(),
        forall|i: int| 0 <= i < lit@.len() ==> lit@[i] != '\n',
    ensures
        on_one_line(lit.spec_bytes()),
        lit.spec_bytes().len() == lit@.len(),
{
}

proof fn line_shape(body: Seq<u8>)
    requires
        on_one_line(body),
    ensures
        is_line(body + crlf()),
{
    let s = body + crlf();
    assert(s.skip(s.len() - 2) =~= crlf());
    assert(s.take(s.len() - 2) =~= body);
}

proof fn formatted_shape(reply: Reply, build: Seq<u8>)
    requires
        reply is RadioTest || reply is Paired || reply is Connected || reply is Status
            || reply is Typed,
    ensures
        is_line(reply_text(reply, build)),
{
    match reply {
        Reply::RadioTest { encoding, acks } => {
            reveal_strlit("RADIOTEST ENC=");
            reveal_strlit(" ACKS=");
            plain_literal("RADIOTEST ENC=");
            plain_literal(" ACKS=");
            decimal_round_trip(encoding as nat);
            decimal_round_trip(acks as nat);
            line_shape(
                "RADIOTEST ENC=".spec_bytes() + decimal(encoding as nat) + " ACKS=".spec_bytes()
                    + decimal(acks as nat),
            );
        },
        Reply::Paired { address, channel } => {
            reveal_strlit("PAIRED ");
            reveal_strlit(" CH=");
            plain_literal("PAIRED ");
            plain_literal(" CH=");
            decimal_round_trip(channel as nat);
            line_shape(
                "PAIRED ".spec_bytes() + address_text(address) + " CH=".spec_bytes() + decimal(
                    channel as nat,
                ),
            );
        },
        Reply::Connected { channel } => {
            reveal_strlit("CONNECTED CH=");
            plain_literal("CONNECTED CH=");
            decimal_round_trip(channel as nat);
            line_shape("CONNECTED CH=".spec_bytes() + decimal(channel as nat));
        },
        Reply::Status { paired, connected, channel, counter } => {
            reveal_strlit("STATUS PAIRED=");
            reveal_strlit(" CONN=");
            reveal_strlit(" CH=");
            reveal_strlit(" CNT=");
            plain_literal("STATUS PAIRED=");
            plain_literal(" CONN=");
            plain_literal(" CH=");
            plain_literal(" CNT=");
            decimal_round_trip(channel as nat);
            decimal_round_trip(counter as nat);
            line_shape(
                "STATUS PAIRED=".spec_bytes() + flag_text(paired) + " CONN=".spec_bytes()
                    + flag_text(connected) + " CH=".spec_bytes() + decimal(channel as nat)
                    + " CNT=".spec_bytes() + decimal(counter as nat),
            );
        },
        Reply::Typed { ok, total } => {
            reveal_strlit("TYPED ");
            reveal_strlit("/");
            plain_literal("TYPED ");
            plain_literal("/");
            decimal_round_trip(ok as nat);
            decimal_round_trip(total as nat);
            line_shape(
                "TYPED ".spec_bytes() + decimal(ok as nat) + "/".spec_bytes() + decimal(
                    total as nat,
                ),
            );
        },
        _ => {},
    }
}

/// Every reply is one line, and fits into `REPLY_LEN` bytes and as many more as
/// the build name has, which is on one line itself.
pub proof fn reply_is_one_line(reply: Reply, build: Seq<u8>)
    requires
        on_one_line(build),
    ensures
        is_line(reply_text(reply, build)),
        reply_text(reply, build).len() <= REPLY_LEN + build.len(),
{
    match reply {
        Reply::Banner => {
            reveal_strlit("nrf-unifying ready build=");
            plain_literal("nrf-unifying ready build=");
            line_shape("nrf-unifying ready build=".spec_bytes() + build);
        },
        Reply::Pong => {
            reveal_strlit("PONG");
            plain_literal("PONG");
            line_shape("PONG".spec_bytes());
        },
        Reply::Info(Some(BootState::Boot)) => {
            reveal_strlit("STATE BOOT BUILD=");
            plain_literal("STATE BOOT BUILD=");
            line_shape("STATE BOOT BUILD=".spec_bytes() + build);
        },
        Reply::Info(Some(BootState::Swap)) => {
            reveal_strlit("STATE SWAP BUILD=");
            plain_literal("STATE SWAP BUILD=");
            line_shape("STATE SWAP BUILD=".spec_bytes() + build);
        },
        Reply::Info(Some(BootState::Revert)) => {
            reveal_strlit("STATE REVERT BUILD=");
            plain_literal("STATE REVERT BUILD=");
            line_shape("STATE REVERT BUILD=".spec_bytes() + build);
        },
        Reply::Info(Some(BootState::DfuDetach)) => {
            reveal_strlit("STATE DFU BUILD=");
            plain_literal("STATE DFU BUILD=");
            line_shape("STATE DFU BUILD=".spec_bytes() + build);
        },
        Reply::Info(None) => {
            reveal_strlit("STATE ERR BUILD=");
            plain_literal("STATE ERR BUILD=");
            line_shape("STATE ERR BUILD=".spec_bytes() + build);
        },
        Reply::ErrSize => {
            reveal_strlit("ERR SIZE");
            plain_literal("ERR SIZE");
            line_shape("ERR SIZE".spec_bytes());
        },
        Reply::Ready => {
            reveal_strlit("READY");
            plain_literal("READY");
            line_shape("READY".spec_bytes());
        },
        Reply::ErrWrite => {
            reveal_strlit("ERR WRITE");
            plain_literal("ERR WRITE");
            line_shape("ERR WRITE".spec_bytes());
        },
        Reply::Done => {
            reveal_strlit("OK");
            plain_literal("OK");
            line_shape("OK".spec_bytes());
        },
        Reply::ErrNoImage => {
            reveal_strlit("ERR NOIMAGE");
            plain_literal("ERR NOIMAGE");
            line_shape("ERR NOIMAGE".spec_bytes());
        },
        Reply::ErrMark => {
            reveal_strlit("ERR MARK");
            plain_literal("ERR MARK");
            line_shape("ERR MARK".spec_bytes());
        },
        Reply::Reboot => {
            reveal_strlit("REBOOT");
            plain_literal("REBOOT");
            line_shape("REBOOT".spec_bytes());
        },
        Reply::Aborted => {
            reveal_strlit("ABORTED");
            plain_literal("ABORTED");
            line_shape("ABORTED".spec_bytes());
        },
        Reply::ErrRadio => {
            reveal_strlit("ERR RADIO");
            plain_literal("ERR RADIO");
            line_shape("ERR RADIO".spec_bytes());
        },
        Reply::RadioTestDone => {
            reveal_strlit("RADIOTEST DONE");
            plain_literal("RADIOTEST DONE");
            line_shape("RADIOTEST DONE".spec_bytes());
        },
        Reply::ErrPair => {
            reveal_strlit("ERR PAIR");
            plain_literal("ERR PAIR");
            line_shape("ERR PAIR".spec_bytes());
        },
        Reply::ErrNotPaired => {
            reveal_strlit("ERR NOTPAIRED");
            plain_literal("ERR NOTPAIRED");
            line_shape("ERR NOTPAIRED".spec_bytes());
        },
        Reply::ErrConnect => {
            reveal_strlit("ERR CONNECT");
            plain_literal("ERR CONNECT");
            line_shape("ERR CONNECT".spec_bytes());
        },
        Reply::ErrNotConn => {
            reveal_strlit("ERR NOTCONN");
            plain_literal("ERR NOTCONN");
            line_shape("ERR NOTCONN".spec_bytes());
        },
        Reply::Tick => {
            reveal_strlit("TICK");
            plain_literal("TICK");
            line_shape("TICK".spec_bytes());
        },
        Reply::Version => {
            reveal_strlit("VER unifying/1 build=");
            plain_literal("VER unifying/1 build=");
            line_shape("VER unifying/1 build=".spec_bytes() + build);
        },
        Reply::Deleted => {
            reveal_strlit("DELETED");
            plain_literal("DELETED");
            line_shape("DELETED".spec_bytes());
        },
        Reply::ErrArg => {
            reveal_strlit("ERR ARG");
            plain_literal("ERR ARG");
            line_shape("ERR ARG".spec_bytes());
        },
        Reply::ErrSend => {
            reveal_strlit("ERR SEND");
            plain_literal("ERR SEND");
            line_shape("ERR SEND".spec_bytes());
        },
        Reply::Commands => {
            reveal_strlit("UCMDS: VER UPAIR UCONNECT UTYPE <text> UKEY <mod> [keys] UKEEPALIVE USTATUS UDELETE");
            plain_literal("UCMDS: VER UPAIR UCONNECT UTYPE <text> UKEY <mod> [keys] UKEEPALIVE USTATUS UDELETE");
            line_shape("UCMDS: VER UPAIR UCONNECT UTYPE <text> UKEY <mod> [keys] UKEEPALIVE USTATUS UDELETE".spec_bytes());
        },
        Reply::RadioTest { encoding, acks } => {
            buffers_suffice(0, 0, [0, 0, 0, 0, 0], 0, encoding, acks, true, true, 0);
            formatted_shape(reply, build);
        },
        Reply::Paired { address, channel } => {
            buffers_suffice(0, 0, address, channel, 0, 0, true, true, 0);
            formatted_shape(reply, build);
        },
        Reply::Connected { channel } => {
            buffers_suffice(0, 0, [0, 0, 0, 0, 0], channel, 0, 0, true, true, 0);
            formatted_shape(reply, build);
        },
        Reply::Status { paired, connected, channel, counter } => {
            buffers_suffice(0, 0, [0, 0, 0, 0, 0], channel, 0, 0, paired, connected, counter);
            formatted_shape(reply, build);
        },
        Reply::Typed { ok, total } => {
            buffers_suffice(ok, total, [0, 0, 0, 0, 0], 0, 0, 0, true, true, 0);
            formatted_shape(reply, build);
        },
    }
}

// Packets.

/// Where the packet that begins at `offset` ends.
pub open spec fn packet_end(len: nat, offset: nat) -> nat {
    if offset + PACKET_LEN <= len {
        offset + PACKET_LEN as nat
    } else {
        len
    }
}

/// The packets that carry `data` from `offset` on, in the order they are sent.
pub open spec fn packets(data: Seq<u8>, offset: nat) -> Seq<Seq<u8>>
    decreases data.len() - offset,
{
    if offset >= data.len() {
        Seq::empty()
    } else {
        let end = packet_end(data.len(), offset);
        seq![data.subrange(offset as int, end as int)] + packets(data, end)
    }
}

/// The next packet of a reply of which `offset` bytes have been sent, or none
/// once all of it has.
pub fn next_packet(data: &[u8], offset: usize) -> (packet: Option<&[u8]>)
    ensures
        packet is Some <==> packets(data@, offset as nat).len() > 0,
        packet matches Some(p) ==> p@ == packets(data@, offset as nat)[0] && packets(
            data@,
            (offset + p@.len()) as nat,
        ) == packets(data@, offset as nat).skip(1),
{
    if offset >= data.len() {
        return None;
    }
    let end: usize = if data.len() - offset >= PACKET_LEN {
        offset + PACKET_LEN
    } else {
        data.len()
    };
    assert(packets(data@, offset as nat).skip(1) =~= packets(data@, end as nat));
    Some(vstd::slice::slice_subrange(data, offset, end))
}

/// The packets of a reply carry all of it, in order, and none is empty or longer
/// than the endpoint takes.
pub proof fn packets_carry_all(data: Seq<u8>, offset: nat)
    requires
        offset <= data.len(),
    ensures
        packets(data, offset).flatten() == data.skip(offset as int),
        forall|i: int|
            0 <= i < packets(data, offset).len() ==> 1 <= (#[trigger] packets(
                data,
                offset,
            )[i]).len() <= PACKET_LEN,
    decreases data.len() - offset,
{
    if offset < data.len() {
        let end = packet_end(data.len(), offset);
        packets_carry_all(data, end);
        let all = packets(data, offset);
        assert(all.drop_first() =~= packets(data, end));
        assert(all.flatten() =~= data.skip(offset as int));
        assert forall|i: int| 0 <= i < all.len() implies 1 <= (#[trigger] all[i]).len()
            <= PACKET_LEN by {
            if i > 0 {
                assert(all[i] == packets(data, end)[i - 1]);
            }
        }
    } else {
        assert(packets(data, offset) =~= Seq::<Seq<u8>>::empty());
        assert(packets(data, offset).flatten() =~= data.skip(offset as int));
    }
}

// What the replies say.

/// The numbers in a reply are those that it is about: its text is made of fixed
/// words and of digits that read back as these numbers.
pub proof fn replies_tell_numbers(
    ok: u32,
    total: u32,
    address: [u8; ADDRESS_LEN],
    channel: u8,
    encoding: u8,
    acks: u32,
    paired: bool,
    connected: bool,
    counter: u32,
    build: Seq<u8>,
)
    ensures
        forall|v: nat| all_digits(#[trigger] decimal(v)) && decimal_value(decimal(v)) == v,
        forall|b: u8| hex_word(#[trigger] hex_pair(b)) == Some(b),
        reply_text(Reply::Typed { ok, total }, build) == "TYPED ".spec_bytes() + decimal(ok as nat)
            + "/".spec_bytes() + decimal(total as nat) + seq![0x0d, 0x0a],
        reply_text(Reply::Paired { address, channel }, build) == "PAIRED ".spec_bytes() + (hex_pair(
            address@[0],
        ) + hex_pair(address@[1]) + hex_pair(address@[2]) + hex_pair(address@[3]) + hex_pair(
            address@[4],
        )) + " CH=".spec_bytes() + decimal(channel as nat) + seq![0x0d, 0x0a],
        reply_text(Reply::Connected { channel }, build) == "CONNECTED CH=".spec_bytes() + decimal(
            channel as nat,
        ) + seq![0x0d, 0x0a],
        reply_text(Reply::RadioTest { encoding, acks }, build) == "RADIOTEST ENC=".spec_bytes()
            + decimal(encoding as nat) + " ACKS=".spec_bytes() + decimal(acks as nat) + seq![
            0x0d,
            0x0a,
        ],
        reply_text(Reply::Status { paired, connected, channel, counter }, build)
            == "STATUS PAIRED=".spec_bytes() + seq![
            if paired {
                0x31u8
            } else {
                0x30u8
            },
        ] + " CONN=".spec_bytes() + seq![
            if connected {
                0x31u8
            } else {
                0x30u8
            },
        ] + " CH=".spec_bytes() + decimal(channel as nat) + " CNT=".spec_bytes() + decimal(
            counter as nat,
        ) + seq![0x0d, 0x0a],
{
    assert forall|v: nat| all_digits(#[trigger] decimal(v)) && decimal_value(decimal(v)) == v by {
        decimal_round_trip(v);
    }
    assert forall|b: u8| hex_word(#[trigger] hex_pair(b)) == Some(b) by {
        hex_round_trip(b);
    }
}

/// The lines that name the build give all of its name.
pub proof fn replies_tell_build(build: Seq<u8>)
    ensures
        reply_text(Reply::Banner, build) == "nrf-unifying ready build=".spec_bytes() + build
            + seq![0x0d, 0x0a],
        reply_text(Reply::Version, build) == "VER unifying/1 build=".spec_bytes() + build
            + seq![0x0d, 0x0a],
        reply_text(Reply::Info(Some(BootState::Boot)), build) == "STATE BOOT BUILD=".spec_bytes()
            + build + seq![0x0d, 0x0a],
        reply_text(Reply::Info(Some(BootState::Swap)), build) == "STATE SWAP BUILD=".spec_bytes()
            + build + seq![0x0d, 0x0a],
        reply_text(Reply::Info(Some(BootState::Revert)), build)
            == "STATE REVERT BUILD=".spec_bytes() + build + seq![0x0d, 0x0a],
        reply_text(Reply::Info(Some(BootState::DfuDetach)), build)
            == "STATE DFU BUILD=".spec_bytes() + build + seq![0x0d, 0x0a],
        reply_text(Reply::Info(None), build) == "STATE ERR BUILD=".spec_bytes() + build + seq![
            0x0d,
            0x0a,
        ],
{
}

/// The fixed lines, whatever the build.
pub proof fn replies_in_words(build: Seq<u8>)
    ensures
        reply_text(Reply::Pong, build) == "PONG".spec_bytes() + seq![0x0d, 0x0a],
        reply_text(Reply::ErrSize, build) == "ERR SIZE".spec_bytes() + seq![0x0d, 0x0a],
        reply_text(Reply::Ready, build) == "READY".spec_bytes() + seq![0x0d, 0x0a],
        reply_text(Reply::ErrWrite, build) == "ERR WRITE".spec_bytes() + seq![0x0d, 0x0a],
        reply_text(Reply::Done, build) == "OK".spec_bytes() + seq![0x0d, 0x0a],
        reply_text(Reply::ErrNoImage, build) == "ERR NOIMAGE".spec_bytes() + seq![0x0d, 0x0a],
        reply_text(Reply::ErrMark, build) == "ERR MARK".spec_bytes() + seq![0x0d, 0x0a],
        reply_text(Reply::Reboot, build) == "REBOOT".spec_bytes() + seq![0x0d, 0x0a],
        reply_text(Reply::Aborted, build) == "ABORTED".spec_bytes() + seq![0x0d, 0x0a],
        reply_text(Reply::ErrRadio, build) == "ERR RADIO".spec_bytes() + seq![0x0d, 0x0a],
        reply_text(Reply::RadioTestDone, build) == "RADIOTEST DONE".spec_bytes() + seq![0x0d, 0x0a],
        reply_text(Reply::ErrPair, build) == "ERR PAIR".spec_bytes() + seq![0x0d, 0x0a],
        reply_text(Reply::ErrNotPaired, build) == "ERR NOTPAIRED".spec_bytes() + seq![0x0d, 0x0a],
        reply_text(Reply::ErrConnect, build) == "ERR CONNECT".spec_bytes() + seq![0x0d, 0x0a],
        reply_text(Reply::ErrNotConn, build) == "ERR NOTCONN".spec_bytes() + seq![0x0d, 0x0a],
        reply_text(Reply::Tick, build) == "TICK".spec_bytes() + seq![0x0d, 0x0a],
        reply_text(Reply::Deleted, build) == "DELETED".spec_bytes() + seq![0x0d, 0x0a],
        reply_text(Reply::ErrArg, build) == "ERR ARG".spec_bytes() + seq![0x0d, 0x0a],
        reply_text(Reply::ErrSend, build) == "ERR SEND".spec_bytes() + seq![0x0d, 0x0a],
{
}

/// All packets of a reply but the last one are full.
pub proof fn packets_are_full(data: Seq<u8>, offset: nat)
    requires
        offset <= data.len(),
    ensures
        forall|i: int|
            0 <= i < packets(data, offset).len() - 1 ==> (#[trigger] packets(
                data,
                offset,
            )[i]).len() == 64,
    decreases data.len() - offset,
{
    if offset < data.len() {
        let end = packet_end(data.len(), offset);
        packets_are_full(data, end);
        let all = packets(data, offset);
        assert forall|i: int| 0 <= i < all.len() - 1 implies (#[trigger] all[i]).len() == 64 by {
            if i > 0 {
                assert(all[i] == packets(data, end)[i - 1]);
            } else {
                assert(packets(data, end).len() > 0);
            }
        }
    }
}

/// What a serial endpoint can report instead of taking a packet.
#[derive(Clone, Copy, Debug, PartialEq, Eq)]
pub enum EndpointFault {
    /// The packet is longer than the endpoint takes.
    BufferOverflow,
    /// The host is gone.
    Disabled,
}

/// The host is gone.
#[derive(Clone, Copy, Debug, PartialEq, Eq)]
pub struct Disconnected;

impl Disconnected {
    /// The host is gone if its endpoint is disabled. Packets are never too long.
    pub fn from_fault(fault: EndpointFault) -> (gone: Disconnected)
        requires
            fault is Disabled,
        ensures
            gone == Disconnected,
    {
        Disconnected
    }
}

} // verus!
