//! The command lines that the host sends.

use crate::state::{KeyReport, KEYS_LEN};
use crate::text::{bytes_equal, parse_u8_hex, parse_usize, strip_prefix};
use vstd::prelude::*;
use vstd::string::StringSliceAdditionalSpecFns;

verus! {

use crate::text::{
    decimal, has_prefix, hex_pair, hex_round_trip, hex_word, prefix_and_rest, usize_round_trip,
    usize_word,
};

/// A command of the firmware update.
#[derive(Clone, Copy, Debug, PartialEq, Eq)]
pub enum OtaCommand {
    Ping,
    Info,
    /// An image of that many bytes follows.
    Write(usize),
    Boot,
    Abort,
    Reboot,
}

/// The update command that a line spells, if it is one.
pub open spec fn ota_command(line: Seq<u8>) -> Option<OtaCommand> {
    if line == "PING".spec_bytes() {
        Some(OtaCommand::Ping)
    } else if line == "INFO".spec_bytes() {
        Some(OtaCommand::Info)
    } else if line == "BOOT".spec_bytes() {
        Some(OtaCommand::Boot)
    } else if line == "ABORT".spec_bytes() {
        Some(OtaCommand::Abort)
    } else if line == "REBOOT".spec_bytes() {
        Some(OtaCommand::Reboot)
    } else if has_prefix(line, "WRITE ".spec_bytes()) {
        match usize_word(line.skip("WRITE ".spec_bytes().len() as int)) {
            Some(size) => Some(OtaCommand::Write(size)),
            None => None,
        }
    } else {
        None
    }
}

/// Parses a line as an update command.
pub fn parse_ota_command(line: &[u8]) -> (command: Option<OtaCommand>)
    ensures
        command == ota_command(line@),
{
    if bytes_equal(line, "PING".as_bytes()) {
        Some(OtaCommand::Ping)
    } else if bytes_equal(line, "INFO".as_bytes()) {
        Some(OtaCommand::Info)
    } else if bytes_equal(line, "BOOT".as_bytes()) {
        Some(OtaCommand::Boot)
    } else if bytes_equal(line, "ABORT".as_bytes()) {
        Some(OtaCommand::Abort)
    } else if bytes_equal(line, "REBOOT".as_bytes()) {
        Some(OtaCommand::Reboot)
    } else {
        match strip_prefix(line, "WRITE ".as_bytes()) {
            Some(rest) => match parse_usize(rest) {
                Some(size) => Some(OtaCommand::Write(size)),
                None => None,
            },
            None => None,
        }
    }
}

// Words.

/// The length of the word that `s` begins with, none if it begins with a space.
pub open spec fn word_len(s: Seq<u8>) -> nat
    decreases s.len(),
{
    if s.len() == 0 || s[0] == 0x20 {
        0
    } else {
        1 + word_len(s.skip(1))
    }
}

proof fn word_len_bound(s: Seq<u8>)
    ensures
        word_len(s) <= s.len(),
        s.len() > 0 && s[0] != 0x20 ==> word_len(s) > 0,
    decreases s.len(),
{
    if s.len() > 0 && s[0] != 0x20 {
        word_len_bound(s.skip(1));
    }
}

/// The words of `s`: what stands between its spaces, without empty ones.
pub open spec fn words(s: Seq<u8>) -> Seq<Seq<u8>>
    decreases s.len(),
    via words_shrink
{
    if s.len() == 0 {
        Seq::empty()
    } else if s[0] == 0x20 {
        words(s.skip(1))
    } else {
        seq![s.take(word_len(s) as int)] + words(s.skip(word_len(s) as int))
    }
}

#[via_fn]
proof fn words_shrink(s: Seq<u8>) {
    word_len_bound(s);
}

/// The value of the word at `i`, and zero where there is no such word.
pub open spec fn key_at(w: Seq<Seq<u8>>, i: int) -> u8 {
    if 0 <= i < w.len() {
        hex_word(w[i])->0
    } else {
        0
    }
}

/// The report that the arguments of a key command spell: the modifier and up to
/// six usages, each a word of one or two hexadecimal digits.
pub open spec fn key_report(args: Seq<u8>) -> Option<KeyReport> {
    let w = words(args);
    if 1 <= w.len() <= 1 + KEYS_LEN && (forall|i: int|
        0 <= i < w.len() ==> hex_word(#[trigger] w[i]) is Some) {
        Some(
            KeyReport {
                modifier: key_at(w, 0),
                keys: [
                    key_at(w, 1),
                    key_at(w, 2),
                    key_at(w, 3),
                    key_at(w, 4),
                    key_at(w, 5),
                    key_at(w, 6),
                ],
            },
        )
    } else {
        None
    }
}

/// The end of the word that begins at `start`.
fn word_end(s: &[u8], start: usize) -> (end: usize)
    requires
        start <= s@.len(),
    ensures
        end == start + word_len(s@.skip(start as int)),
        start <= end <= s@.len(),
{
    let mut end: usize = start;
    while end < s.len() && s[end] != 0x20
        invariant
            start <= end <= s@.len(),
            word_len(s@.skip(start as int)) == (end - start) + word_len(s@.skip(end as int)),
        decreases s@.len() - end,
    {
        assert(s@.skip(end as int).skip(1) =~= s@.skip(end + 1));
        end = end + 1;
    }
    end
}

/// The start of the first word from `start` on, or the end of the text.
fn word_start(s: &[u8], start: usize) -> (at: usize)
    requires
        start <= s@.len(),
    ensures
        start <= at <= s@.len(),
        words(s@.skip(start as int)) == words(s@.skip(at as int)),
        at < s@.len() ==> s@[at as int] != 0x20,
{
    let mut at: usize = start;
    while at < s.len() && s[at] == 0x20
        invariant
            start <= at <= s@.len(),
            words(s@.skip(start as int)) == words(s@.skip(at as int)),
        decreases s@.len() - at,
    {
        assert(s@.skip(at as int).skip(1) =~= s@.skip(at + 1));
        at = at + 1;
    }
    at
}

/// Parses the arguments of a key command.
pub fn parse_key_args(args: &[u8]) -> (report: Option<KeyReport>)
    ensures
        report == key_report(args@),
{
    let mut values: [u8; 7] = [0, 0, 0, 0, 0, 0, 0];
    let mut count: usize = 0;
    let mut pos: usize = word_start(args, 0);
    let ghost w = words(args@);
    assert(args@.skip(0) =~= args@);
    assert(w =~= w.take(0) + words(args@.skip(pos as int)));
    while pos < args.len()
        invariant
            w == words(args@),
            pos <= args@.len(),
            pos < args@.len() ==> args@[pos as int] != 0x20,
            count <= 7,
            count <= w.len(),
            w == w.take(count as int) + words(args@.skip(pos as int)),
            forall|i: int| 0 <= i < count ==> hex_word(#[trigger] w[i]) == Some(values@[i]),
            forall|i: int| count <= i < 7 ==> #[trigger] values@[i] == 0,
        decreases args@.len() - pos,
    {
        let ghost rest = args@.skip(pos as int);
        let end: usize = word_end(args, pos);
        let token = vstd::slice::slice_subrange(args, pos, end);
        proof {
            word_len_bound(rest);
            assert(token@ =~= rest.take(word_len(rest) as int));
            assert(rest.skip(word_len(rest) as int) =~= args@.skip(end as int));
            assert(words(rest)[0] == token@);
            assert(w[count as int] == token@);
            assert(w.take(count + 1) + words(args@.skip(end as int)) =~= w);
        }
        if count >= 7 {
            return None;
        }
        match parse_u8_hex(token) {
            Some(v) => {
                values[count] = v;
                count = count + 1;
            },
            None => {
                assert(hex_word(w[count as int]) is None);
                return None;
            },
        }
        pos = word_start(args, end);
    }
    assert(words(args@.skip(pos as int)) =~= Seq::empty());
    assert(w.len() == count);
    if count == 0 {
        return None;
    }
    let keys: [u8; KEYS_LEN] = [values[1], values[2], values[3], values[4], values[5], values[6]];
    let ghost spelled = key_report(args@)->0;
    proof {
        assert forall|i: int| 0 <= i < 7 implies key_at(w, i) == #[trigger] values@[i] by {
            if i < count {
                assert(hex_word(w[i]) == Some(values@[i]));
            }
        }
        assert(key_at(w, 0) == values@[0] && key_at(w, 1) == values@[1] && key_at(w, 2)
            == values@[2] && key_at(w, 3) == values@[3] && key_at(w, 4) == values@[4] && key_at(
            w,
            5,
        ) == values@[5] && key_at(w, 6) == values@[6]);
        assert(keys@ =~= spelled.keys@);
        assert(keys =~= spelled.keys);
    }
    Some(KeyReport { modifier: values[0], keys })
}

// Keyboard commands.

/// A command of the keyboard.
#[derive(Clone, Copy, Debug, PartialEq, Eq)]
pub enum UnifyingCommand {
    /// An empty line.
    Empty,
    /// `URADIOTEST`
    RadioTest,
    /// `UPAIR`
    Pair,
    /// `UCONNECT`
    Connect,
    /// `UKEEPALIVE`
    KeepAlive,
    /// `USTATUS`
    Status,
    /// `VER`
    Version,
    /// `UDELETE`
    Delete,
    /// `UKEY <mod> [keys]`, with none for arguments that spell no report.
    Key(Option<KeyReport>),
    /// `UKEYDOWN <mod> [keys]`
    KeyDown(Option<KeyReport>),
    /// `UTYPE <text>`
    Type,
    /// Anything else.
    Unknown,
}

/// Where the text of `UTYPE <text>` begins.
pub const TYPE_TEXT_AT: usize = 6;

/// The keyboard command that a line spells.
pub open spec fn unifying_command(line: Seq<u8>) -> UnifyingCommand {
    if line.len() == 0 {
        UnifyingCommand::Empty
    } else if line == "URADIOTEST".spec_bytes() {
        UnifyingCommand::RadioTest
    } else if line == "UPAIR".spec_bytes() {
        UnifyingCommand::Pair
    } else if line == "UCONNECT".spec_bytes() {
        UnifyingCommand::Connect
    } else if line == "UKEEPALIVE".spec_bytes() {
        UnifyingCommand::KeepAlive
    } else if line == "USTATUS".spec_bytes() {
        UnifyingCommand::Status
    } else if line == "VER".spec_bytes() {
        UnifyingCommand::Version
    } else if line == "UDELETE".spec_bytes() {
        UnifyingCommand::Delete
    } else if has_prefix(line, "UKEY ".spec_bytes()) {
        UnifyingCommand::Key(key_report(line.skip("UKEY ".spec_bytes().len() as int)))
    } else if has_prefix(line, "UKEYDOWN ".spec_bytes()) {
        UnifyingCommand::KeyDown(key_report(line.skip("UKEYDOWN ".spec_bytes().len() as int)))
    } else if has_prefix(line, "UTYPE ".spec_bytes()) {
        UnifyingCommand::Type
    } else {
        UnifyingCommand::Unknown
    }
}

/// Parses a line as a keyboard command.
pub fn parse_unifying_command(line: &[u8]) -> (command: UnifyingCommand)
    ensures
        command == unifying_command(line@),
        command is Type ==> line@.len() >= TYPE_TEXT_AT,
{
    if line.len() == 0 {
        return UnifyingCommand::Empty;
    }
    if bytes_equal(line, "URADIOTEST".as_bytes()) {
        return UnifyingCommand::RadioTest;
    }
    if bytes_equal(line, "UPAIR".as_bytes()) {
        return UnifyingCommand::Pair;
    }
    if bytes_equal(line, "UCONNECT".as_bytes()) {
        return UnifyingCommand::Connect;
    }
    if bytes_equal(line, "UKEEPALIVE".as_bytes()) {
        return UnifyingCommand::KeepAlive;
    }
    if bytes_equal(line, "USTATUS".as_bytes()) {
        return UnifyingCommand::Status;
    }
    if bytes_equal(line, "VER".as_bytes()) {
        return UnifyingCommand::Version;
    }
    if bytes_equal(line, "UDELETE".as_bytes()) {
        return UnifyingCommand::Delete;
    }
    if let Some(args) = strip_prefix(line, "UKEY ".as_bytes()) {
        return UnifyingCommand::Key(parse_key_args(args));
    }
    if let Some(args) = strip_prefix(line, "UKEYDOWN ".as_bytes()) {
        return UnifyingCommand::KeyDown(parse_key_args(args));
    }
    if let Some(_text) = strip_prefix(line, "UTYPE ".as_bytes()) {
        proof {
            type_text_follows(line@);
        }
        return UnifyingCommand::Type;
    }
    UnifyingCommand::Unknown
}

/// The text to type is what follows the command word and one space.
pub proof fn type_text_follows(line: Seq<u8>)
    requires
        has_prefix(line, "UTYPE ".spec_bytes()),
    ensures
        line.len() >= TYPE_TEXT_AT,
        line == "UTYPE ".spec_bytes() + line.skip(TYPE_TEXT_AT as int),
{
    reveal_strlit("UTYPE ");
    assert("UTYPE ".is_ascii());
    assert("UTYPE ".spec_bytes().len() == TYPE_TEXT_AT);
    assert(line =~= line.take(TYPE_TEXT_AT as int) + line.skip(TYPE_TEXT_AT as int));
}

/// No line is an update command and a keyboard command at once, so that the
/// order in which the two are tried does not matter.
pub proof fn command_sets_disjoint(line: Seq<u8>)
    requires
        ota_command(line) is Some,
    ensures
        unifying_command(line) is Unknown,
{
    reveal_strlit("PING");
    reveal_strlit("INFO");
    reveal_strlit("BOOT");
    reveal_strlit("ABORT");
    reveal_strlit("REBOOT");
    reveal_strlit("WRITE ");
    assert("PING".is_ascii() && "INFO".is_ascii() && "BOOT".is_ascii());
    assert("ABORT".is_ascii() && "REBOOT".is_ascii() && "WRITE ".is_ascii());
    assert(line.len() > 0);
    assert(has_prefix(line, "WRITE ".spec_bytes()) ==> line[0] == line.take(6)[0]);
    assert(line[0] != 0x55 && line[0] != 0x56);
    reveal_strlit("URADIOTEST");
    reveal_strlit("UPAIR");
    reveal_strlit("UCONNECT");
    reveal_strlit("UKEEPALIVE");
    reveal_strlit("USTATUS");
    reveal_strlit("VER");
    reveal_strlit("UDELETE");
    reveal_strlit("UKEY ");
    reveal_strlit("UKEYDOWN ");
    reveal_strlit("UTYPE ");
    assert("URADIOTEST".is_ascii() && "UPAIR".is_ascii() && "UCONNECT".is_ascii());
    assert("UKEEPALIVE".is_ascii() && "USTATUS".is_ascii() && "VER".is_ascii());
    assert("UDELETE".is_ascii() && "UKEY ".is_ascii() && "UKEYDOWN ".is_ascii());
    assert("UTYPE ".is_ascii());
    assert(has_prefix(line, "UKEY ".spec_bytes()) ==> line[0] == line.take(5)[0]);
    assert(has_prefix(line, "UKEYDOWN ".spec_bytes()) ==> line[0] == line.take(9)[0]);
    assert(has_prefix(line, "UTYPE ".spec_bytes()) ==> line[0] == line.take(6)[0]);
}

// What the commands are spelled like.

/// The words of the update commands.
pub proof fn update_words()
    ensures
        ota_command("PING".spec_bytes()) == Some(OtaCommand::Ping),
        ota_command("INFO".spec_bytes()) == Some(OtaCommand::Info),
        ota_command("BOOT".spec_bytes()) == Some(OtaCommand::Boot),
        ota_command("ABORT".spec_bytes()) == Some(OtaCommand::Abort),
        ota_command("REBOOT".spec_bytes()) == Some(OtaCommand::Reboot),
{
    reveal_strlit("PING");
    reveal_strlit("INFO");
    reveal_strlit("BOOT");
    reveal_strlit("ABORT");
    reveal_strlit("REBOOT");
    reveal_strlit("WRITE ");
    assert("PING".is_ascii());
    assert("INFO".is_ascii());
    assert("BOOT".is_ascii());
    assert("ABORT".is_ascii());
    assert("REBOOT".is_ascii());
    assert("WRITE ".is_ascii());
    assert("PING".spec_bytes()[0] == 0x50 && "INFO".spec_bytes()[0] == 0x49);
    assert("BOOT".spec_bytes()[0] == 0x42 && "ABORT".spec_bytes()[0] == 0x41);
    assert("REBOOT".spec_bytes()[0] == 0x52);
}

/// An image is announced by `WRITE`, a space and its size: whatever number is
/// written there in decimal is the size that is read.
pub proof fn write_spells_size(size: usize, text: Seq<u8>)
    ensures
        ota_command("WRITE ".spec_bytes() + decimal(size as nat)) == Some(OtaCommand::Write(size)),
        ota_command("WRITE ".spec_bytes() + text) == match usize_word(text) {
            Some(n) => Some(OtaCommand::Write(n)),
            None => None,
        },
{
    reveal_strlit("PING");
    reveal_strlit("INFO");
    reveal_strlit("BOOT");
    reveal_strlit("ABORT");
    reveal_strlit("REBOOT");
    reveal_strlit("WRITE ");
    assert("PING".is_ascii());
    assert("INFO".is_ascii());
    assert("BOOT".is_ascii());
    assert("ABORT".is_ascii());
    assert("REBOOT".is_ascii());
    assert("WRITE ".is_ascii());
    let w = "WRITE ".spec_bytes();
    assert(w[0] == 0x57);
    assert("PING".spec_bytes()[0] == 0x50 && "INFO".spec_bytes()[0] == 0x49);
    assert("BOOT".spec_bytes()[0] == 0x42 && "ABORT".spec_bytes()[0] == 0x41);
    assert("REBOOT".spec_bytes()[0] == 0x52);
    prefix_and_rest(w + text, w, text);
    prefix_and_rest(w + decimal(size as nat), w, decimal(size as nat));
    assert((w + text)[0] == 0x57);
    assert((w + decimal(size as nat))[0] == 0x57);
    usize_round_trip(size);
}

/// There are no other update commands.
pub proof fn update_commands_only(line: Seq<u8>)
    requires
        ota_command(line) is Some,
    ensures
        line == "PING".spec_bytes() || line == "INFO".spec_bytes() || line == "BOOT".spec_bytes()
            || line == "ABORT".spec_bytes() || line == "REBOOT".spec_bytes() || (line
            == "WRITE ".spec_bytes() + line.skip("WRITE ".spec_bytes().len() as int) && usize_word(
            line.skip("WRITE ".spec_bytes().len() as int),
        ) is Some),
{
    prefix_and_rest(line, "WRITE ".spec_bytes(), Seq::empty());
}

/// The words of the keyboard commands that take no arguments.
pub proof fn keyboard_words()
    ensures
        unifying_command(Seq::empty()) is Empty,
        unifying_command("URADIOTEST".spec_bytes()) is RadioTest,
        unifying_command("UPAIR".spec_bytes()) is Pair,
        unifying_command("UCONNECT".spec_bytes()) is Connect,
        unifying_command("UKEEPALIVE".spec_bytes()) is KeepAlive,
        unifying_command("USTATUS".spec_bytes()) is Status,
        unifying_command("VER".spec_bytes()) is Version,
        unifying_command("UDELETE".spec_bytes()) is Delete,
{
    reveal_strlit("URADIOTEST");
    reveal_strlit("UPAIR");
    reveal_strlit("UCONNECT");
    reveal_strlit("UKEEPALIVE");
    reveal_strlit("USTATUS");
    reveal_strlit("VER");
    reveal_strlit("UDELETE");
    reveal_strlit("UKEY ");
    reveal_strlit("UKEYDOWN ");
    reveal_strlit("UTYPE ");
    assert("URADIOTEST".is_ascii());
    assert("UPAIR".is_ascii());
    assert("UCONNECT".is_ascii());
    assert("UKEEPALIVE".is_ascii());
    assert("USTATUS".is_ascii());
    assert("VER".is_ascii());
    assert("UDELETE".is_ascii());
    assert("UKEY ".is_ascii());
    assert("UKEYDOWN ".is_ascii());
    assert("UTYPE ".is_ascii());
    assert("URADIOTEST".spec_bytes()[1] == 0x52 && "UPAIR".spec_bytes()[1] == 0x50);
    assert("UCONNECT".spec_bytes()[1] == 0x43 && "UKEEPALIVE".spec_bytes()[1] == 0x4b);
    assert("USTATUS".spec_bytes()[1] == 0x53 && "VER".spec_bytes()[1] == 0x45);
    assert("UDELETE".spec_bytes()[1] == 0x44);
}

/// The keyboard commands that take arguments: what follows the word and one space
/// is the arguments, whatever it is.
pub proof fn keyboard_arguments(args: Seq<u8>)
    ensures
        unifying_command("UKEY ".spec_bytes() + args) == UnifyingCommand::Key(key_report(args)),
        unifying_command("UKEYDOWN ".spec_bytes() + args) == UnifyingCommand::KeyDown(
            key_report(args),
        ),
        unifying_command("UTYPE ".spec_bytes() + args) is Type,
        ("UTYPE ".spec_bytes() + args).skip(6) == args,
{
    reveal_strlit("URADIOTEST");
    reveal_strlit("UPAIR");
    reveal_strlit("UCONNECT");
    reveal_strlit("UKEEPALIVE");
    reveal_strlit("USTATUS");
    reveal_strlit("VER");
    reveal_strlit("UDELETE");
    reveal_strlit("UKEY ");
    reveal_strlit("UKEYDOWN ");
    reveal_strlit("UTYPE ");
    assert("URADIOTEST".is_ascii());
    assert("UPAIR".is_ascii());
    assert("UCONNECT".is_ascii());
    assert("UKEEPALIVE".is_ascii());
    assert("USTATUS".is_ascii());
    assert("VER".is_ascii());
    assert("UDELETE".is_ascii());
    assert("UKEY ".is_ascii());
    assert("UKEYDOWN ".is_ascii());
    assert("UTYPE ".is_ascii());
    let key = "UKEY ".spec_bytes();
    let down = "UKEYDOWN ".spec_bytes();
    let text = "UTYPE ".spec_bytes();
    prefix_and_rest(key + args, key, args);
    prefix_and_rest(down + args, down, args);
    prefix_and_rest(text + args, text, args);
    assert((key + args)[1] == 0x4b && (key + args)[3] == 0x59 && (key + args)[4] == 0x20);
    assert((down + args)[1] == 0x4b && (down + args)[3] == 0x59 && (down + args)[4] == 0x44);
    assert((text + args)[1] == 0x54);
    assert("URADIOTEST".spec_bytes()[1] == 0x52 && "UPAIR".spec_bytes()[1] == 0x50);
    assert("UCONNECT".spec_bytes()[1] == 0x43 && "UKEEPALIVE".spec_bytes()[3] == 0x45);
    assert("USTATUS".spec_bytes()[1] == 0x53 && "VER".spec_bytes()[1] == 0x45);
    assert("UDELETE".spec_bytes()[1] == 0x44);
    assert(key[4] == 0x20 && down[4] == 0x44);
    assert((down + args).take(5)[4] == 0x44);
    assert((text + args).take(5)[1] == 0x54);
    if (text + args).len() >= 9 {
        assert((text + args).take(9)[1] == 0x54);
    }
}

/// There are no other keyboard commands.
pub proof fn keyboard_commands_only(line: Seq<u8>)
    requires
        unifying_command(line) !is Unknown,
    ensures
        line.len() == 0 || line == "URADIOTEST".spec_bytes() || line == "UPAIR".spec_bytes() || line
            == "UCONNECT".spec_bytes() || line == "UKEEPALIVE".spec_bytes() || line
            == "USTATUS".spec_bytes() || line == "VER".spec_bytes() || line
            == "UDELETE".spec_bytes() || line == "UKEY ".spec_bytes() + line.skip(
            "UKEY ".spec_bytes().len() as int,
        ) || line == "UKEYDOWN ".spec_bytes() + line.skip("UKEYDOWN ".spec_bytes().len() as int)
            || line == "UTYPE ".spec_bytes() + line.skip("UTYPE ".spec_bytes().len() as int),
{
    prefix_and_rest(line, "UKEY ".spec_bytes(), Seq::empty());
    prefix_and_rest(line, "UKEYDOWN ".spec_bytes(), Seq::empty());
    prefix_and_rest(line, "UTYPE ".spec_bytes(), Seq::empty());
}

/// No byte is a space.
pub open spec fn is_word(s: Seq<u8>) -> bool {
    s.len() > 0 && forall|i: int| 0 <= i < s.len() ==> #[trigger] s[i] != 0x20
}

proof fn word_ends(word: Seq<u8>, rest: Seq<u8>)
    requires
        forall|i: int| 0 <= i < word.len() ==> #[trigger] word[i] != 0x20,
        rest.len() == 0 || rest[0] == 0x20,
    ensures
        word_len(word + rest) == word.len(),
    decreases word.len(),
{
    let s = word + rest;
    if word.len() == 0 {
        assert(s =~= rest);
    } else {
        assert(s[0] == word[0]);
        assert(s.skip(1) =~= word.skip(1) + rest);
        assert forall|i: int| 0 <= i < word.skip(1).len() implies #[trigger] word.skip(1)[i]
            != 0x20 by {
            assert(word.skip(1)[i] == word[i + 1]);
        }
        word_ends(word.skip(1), rest);
    }
}

proof fn words_of_word(word: Seq<u8>, rest: Seq<u8>)
    requires
        is_word(word),
        rest.len() == 0 || rest[0] == 0x20,
    ensures
        words(word + rest) == seq![word] + words(rest),
{
    let s = word + rest;
    word_ends(word, rest);
    assert(s[0] == word[0]);
    assert(s.take(word.len() as int) =~= word);
    assert(s.skip(word.len() as int) =~= rest);
}

/// Words are what stands between spaces: nothing has no words, a text without
/// spaces is one word, and a space between two texts parts their words.
pub proof fn words_are_parted_by_spaces(a: Seq<u8>, b: Seq<u8>)
    ensures
        words(Seq::empty()).len() == 0,
        is_word(a) ==> words(a) == seq![a],
        words(a + seq![0x20] + b) == words(a) + words(b),
    decreases a.len(),
{
    let none = Seq::<u8>::empty();
    let space = seq![0x20u8];
    assert(words(none) =~= Seq::empty());
    if is_word(a) {
        words_of_word(a, none);
        assert(a + none =~= a);
        assert(seq![a] + words(none) =~= seq![a]);
    }
    let s = a + space + b;
    if a.len() == 0 {
        assert(s[0] == 0x20);
        assert(s.skip(1) =~= b);
        assert(words(a) =~= Seq::empty());
        assert(words(a) + words(b) =~= words(b));
    } else if a[0] == 0x20 {
        assert(s[0] == 0x20);
        assert(s.skip(1) =~= a.skip(1) + space + b);
        words_are_parted_by_spaces(a.skip(1), b);
    } else {
        word_len_bound(a);
        let n = word_len(a) as int;
        let word = a.take(n);
        let rest = a.skip(n);
        word_is_word(a);
        words_are_parted_by_spaces(rest, b);
        assert(s =~= word + (rest + space + b));
        words_of_word(word, rest + space + b);
        assert(seq![word] + (words(rest) + words(b)) =~= (seq![word] + words(rest)) + words(b));
    }
}

proof fn word_is_word(s: Seq<u8>)
    ensures
        forall|i: int| 0 <= i < word_len(s) ==> #[trigger] s.take(word_len(s) as int)[i] != 0x20,
        word_len(s) <= s.len(),
        word_len(s) < s.len() ==> s[word_len(s) as int] == 0x20,
    decreases s.len(),
{
    if s.len() > 0 && s[0] != 0x20 {
        word_is_word(s.skip(1));
        let n = word_len(s) as int;
        assert forall|i: int| 0 <= i < n implies #[trigger] s.take(n)[i] != 0x20 by {
            if i > 0 {
                assert(s.take(n)[i] == s.skip(1).take(n - 1)[i - 1]);
            }
        }
    }
}

/// A modifier and usages, written as pairs of digits with a space between them.
pub open spec fn spelled(modifier: u8, usages: Seq<u8>) -> Seq<u8>
    decreases usages.len(),
{
    if usages.len() == 0 {
        hex_pair(modifier)
    } else {
        spelled(modifier, usages.drop_last()) + seq![0x20u8] + hex_pair(usages.last())
    }
}

proof fn spelled_words(modifier: u8, usages: Seq<u8>)
    ensures
        ({
            let w = words(spelled(modifier, usages));
            &&& w.len() == usages.len() + 1
            &&& hex_word(w[0]) == Some(modifier)
            &&& forall|i: int|
                0 <= i < usages.len() ==> hex_word(w[i + 1]) == Some(#[trigger] usages[i])
        }),
    decreases usages.len(),
{
    let none = Seq::<u8>::empty();
    if usages.len() == 0 {
        hex_round_trip(modifier);
        words_are_parted_by_spaces(hex_pair(modifier), none);
    } else {
        let head = spelled(modifier, usages.drop_last());
        let last = hex_pair(usages.last());
        spelled_words(modifier, usages.drop_last());
        hex_round_trip(usages.last());
        words_are_parted_by_spaces(last, none);
        words_are_parted_by_spaces(head, last);
        let w = words(spelled(modifier, usages));
        assert forall|i: int| 0 <= i < usages.len() implies hex_word(w[i + 1]) == Some(
            #[trigger] usages[i],
        ) by {
            if i < usages.len() - 1 {
                assert(usages.drop_last()[i] == usages[i]);
            }
        }
    }
}

/// The report that a key command is for is the one that its arguments spell: any
/// modifier and up to six usages, in the order in which they are written, with
/// zeros for those that are not. More usages are refused.
pub proof fn key_arguments_spell_report(modifier: u8, usages: Seq<u8>)
    ensures
        usages.len() > 6 ==> key_report(spelled(modifier, usages)) is None,
        usages.len() <= 6 ==> (key_report(spelled(modifier, usages)) matches Some(report) && {
            &&& report.modifier == modifier
            &&& forall|i: int|
                0 <= i < 6 ==> #[trigger] report.keys@[i] == if i < usages.len() {
                    usages[i]
                } else {
                    0
                }
        }),
{
    spelled_words(modifier, usages);
    let w = words(spelled(modifier, usages));
    if usages.len() <= 6 {
        assert forall|i: int| 0 <= i < w.len() implies hex_word(#[trigger] w[i]) is Some by {
            if i > 0 {
                assert(hex_word(w[i - 1 + 1]) == Some(usages[i - 1]));
            }
        }
        let report = key_report(spelled(modifier, usages))->0;
        assert forall|i: int| 0 <= i < 6 implies #[trigger] report.keys@[i] == if i < usages.len() {
            usages[i]
        } else {
            0
        } by {
            assert(report.keys@[i] == key_at(w, i + 1));
            if i < usages.len() {
                assert(hex_word(w[i + 1]) == Some(usages[i]));
            }
        }
    }
}

/// The arguments of a key command are read word by word, each as the number that
/// its one or two digits spell. No word at all, more than seven, or one that is
/// no such number, is refused.
pub proof fn key_arguments_by_word(args: Seq<u8>)
    ensures
        ({
            let w = words(args);
            match key_report(args) {
                Some(report) => {
                    &&& 1 <= w.len() <= 7
                    &&& hex_word(w[0]) == Some(report.modifier)
                    &&& forall|i: int|
                        0 <= i < 6 ==> if i + 1 < w.len() {
                            hex_word(w[i + 1]) == Some(#[trigger] report.keys@[i])
                        } else {
                            report.keys@[i] == 0
                        }
                },
                None => w.len() == 0 || w.len() > 7 || exists|i: int|
                    0 <= i < w.len() && hex_word(#[trigger] w[i]) is None,
            }
        }),
{
    let w = words(args);
    if let Some(report) = key_report(args) {
        assert forall|i: int| 0 <= i < 6 implies if i + 1 < w.len() {
            hex_word(w[i + 1]) == Some(#[trigger] report.keys@[i])
        } else {
            report.keys@[i] == 0
        } by {
            assert(report.keys@[i] == key_at(w, i + 1));
            if i + 1 < w.len() {
                assert(hex_word(w[i + 1]) is Some);
            }
        }
        assert(hex_word(w[0]) is Some);
    }
}

} // verus!
