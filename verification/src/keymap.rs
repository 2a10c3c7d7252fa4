//! ASCII to USB HID keyboard usages, on a US layout.

use vstd::prelude::*;
use vstd::string::StringSliceAdditionalSpecFns;

verus! {

/// The key `code`, with shift held or not, types the character `c`.
pub open spec fn types(code: u8, shift: bool, c: u8) -> bool {
    if 0x04 <= code <= 0x1d {
        c == code - 0x04 + (if shift {
            0x41int
        } else {
            0x61int
        })
    } else if 0x1e <= code <= 0x27 {
        c == digit_row(shift)[code - 0x1e]
    } else if 0x28 <= code <= 0x2c {
        !shift && control_keys(code).contains(c)
    } else if 0x2d <= code <= 0x31 {
        c == right_keys(shift)[code - 0x2d]
    } else if 0x33 <= code <= 0x38 {
        c == lower_keys(shift)[code - 0x33]
    } else {
        false
    }
}

/// `1234567890`, with shift `!@#$%^&*()`: usages 0x1E to 0x27.
pub open spec fn digit_row(shift: bool) -> Seq<u8> {
    if shift {
        seq![0x21, 0x40, 0x23, 0x24, 0x25, 0x5e, 0x26, 0x2a, 0x28, 0x29]
    } else {
        seq![0x31, 0x32, 0x33, 0x34, 0x35, 0x36, 0x37, 0x38, 0x39, 0x30]
    }
}

/// Enter, Escape, Backspace, Tab and Space: usages 0x28 to 0x2C.
pub open spec fn control_keys(code: u8) -> Seq<u8> {
    if code == 0x28 {
        seq![0x0a, 0x0d]
    } else if code == 0x29 {
        seq![0x1b]
    } else if code == 0x2a {
        seq![0x08]
    } else if code == 0x2b {
        seq![0x09]
    } else {
        seq![0x20]
    }
}

/// `-=[]\`, with shift `_+{}|`: usages 0x2D to 0x31.
pub open spec fn right_keys(shift: bool) -> Seq<u8> {
    if shift {
        seq![0x5f, 0x2b, 0x7b, 0x7d, 0x7c]
    } else {
        seq![0x2d, 0x3d, 0x5b, 0x5d, 0x5c]
    }
}

/// The keys `;` to `/`, with shift `:` to `?`: usages 0x33 to 0x38.
pub open spec fn lower_keys(shift: bool) -> Seq<u8> {
    if shift {
        seq![0x3a, 0x22, 0x7e, 0x3c, 0x3e, 0x3f]
    } else {
        seq![0x3b, 0x27, 0x60, 0x2c, 0x2e, 0x2f]
    }
}

/// The characters that some key types: the printable ASCII characters, and
/// Backspace, Tab, line feed, carriage return and Escape.
pub open spec fn is_typable(c: u8) -> bool {
    0x20 <= c <= 0x7e || c == 0x08 || c == 0x09 || c == 0x0a || c == 0x0d || c == 0x1b
}

/// The key that types a character, and whether shift is held.
pub open spec fn hid_key(c: u8) -> Option<(u8, bool)> {
    if 0x61 <= c <= 0x7a {
        Some(((0x04 + (c - 0x61)) as u8, false))
    } else if 0x41 <= c <= 0x5a {
        Some(((0x04 + (c - 0x41)) as u8, true))
    } else if 0x31 <= c <= 0x39 {
        Some(((0x1e + (c - 0x31)) as u8, false))
    } else {
        match c {
            0x30 => Some((0x27, false)),
            0x0a | 0x0d => Some((0x28, false)),
            0x1b => Some((0x29, false)),
            0x08 => Some((0x2a, false)),
            0x09 => Some((0x2b, false)),
            0x20 => Some((0x2c, false)),
            0x2d => Some((0x2d, false)),  // -
            0x3d => Some((0x2e, false)),  // =
            0x5b => Some((0x2f, false)),  // [
            0x5d => Some((0x30, false)),  // ]
            0x5c => Some((0x31, false)),  // backslash
            0x3b => Some((0x33, false)),  // ;
            0x27 => Some((0x34, false)),  // quote
            0x60 => Some((0x35, false)),  // grave
            0x2c => Some((0x36, false)),  // ,
            0x2e => Some((0x37, false)),  // .
            0x2f => Some((0x38, false)),  // /
            0x21 => Some((0x1e, true)),  // !
            0x40 => Some((0x1f, true)),  // @
            0x23 => Some((0x20, true)),  // #
            0x24 => Some((0x21, true)),  // $
            0x25 => Some((0x22, true)),  // %
            0x5e => Some((0x23, true)),  // ^
            0x26 => Some((0x24, true)),  // &
            0x2a => Some((0x25, true)),  // *
            0x28 => Some((0x26, true)),  // (
            0x29 => Some((0x27, true)),  // )
            0x5f => Some((0x2d, true)),  // _
            0x2b => Some((0x2e, true)),  // +
            0x7b => Some((0x2f, true)),  // {
            0x7d => Some((0x30, true)),  // }
            0x7c => Some((0x31, true)),  // |
            0x3a => Some((0x33, true)),  // :
            0x22 => Some((0x34, true)),  // double quote
            0x7e => Some((0x35, true)),  // ~
            0x3c => Some((0x36, true)),  // <
            0x3e => Some((0x37, true)),  // >
            0x3f => Some((0x38, true)),  // ?
            _ => None,
        }
    }
}

/// Maps a character to the usage of the key that types it and whether shift is
/// held; `None` if there is no such key.
pub fn char_to_hid(c: u8) -> (key: Option<(u8, bool)>)
    ensures
        key == hid_key(c),
{
    let r: (u8, bool) = match c {
        0x61..=0x7a => (0x04 + (c - 0x61), false),
        0x41..=0x5a => (0x04 + (c - 0x41), true),
        0x31..=0x39 => (0x1e + (c - 0x31), false),
        0x30 => (0x27, false),
        0x0a | 0x0d => (0x28, false),
        0x1b => (0x29, false),
        0x08 => (0x2a, false),
        0x09 => (0x2b, false),
        0x20 => (0x2c, false),
        0x2d => (0x2d, false),  // -
        0x3d => (0x2e, false),  // =
        0x5b => (0x2f, false),  // [
        0x5d => (0x30, false),  // ]
        0x5c => (0x31, false),  // backslash
        0x3b => (0x33, false),  // ;
        0x27 => (0x34, false),  // quote
        0x60 => (0x35, false),  // grave
        0x2c => (0x36, false),  // ,
        0x2e => (0x37, false),  // .
        0x2f => (0x38, false),  // /
        0x21 => (0x1e, true),  // !
        0x40 => (0x1f, true),  // @
        0x23 => (0x20, true),  // #
        0x24 => (0x21, true),  // $
        0x25 => (0x22, true),  // %
        0x5e => (0x23, true),  // ^
        0x26 => (0x24, true),  // &
        0x2a => (0x25, true),  // *
        0x28 => (0x26, true),  // (
        0x29 => (0x27, true),  // )
        0x5f => (0x2d, true),  // _
        0x2b => (0x2e, true),  // +
        0x7b => (0x2f, true),  // {
        0x7d => (0x30, true),  // }
        0x7c => (0x31, true),  // |
        0x3a => (0x33, true),  // :
        0x22 => (0x34, true),  // double quote
        0x7e => (0x35, true),  // ~
        0x3c => (0x36, true),  // <
        0x3e => (0x37, true),  // >
        0x3f => (0x38, true),  // ?
        _ => return None,
    };
    Some(r)
}

/// The key for a character is the one that types it.
pub proof fn key_types_character(code: u8, shift: bool, c: u8)
    ensures
        hid_key(c) == Some((code, shift)) <==> types(code, shift, c),
        hid_key(c) is Some <==> is_typable(c),
{
    if 0x28 <= code <= 0x2c && !shift {
        let legend = control_keys(code);
        assert(legend.contains(c) <==> legend[0] == c || (code == 0x28 && legend[1] == c));
    }
}

/// What is printed on the keys.
pub proof fn key_legends()
    ensures
        digit_row(false) == "1234567890".spec_bytes(),
        digit_row(true) == "!@#$%^&*()".spec_bytes(),
        right_keys(false) == "-=[]\\".spec_bytes(),
        right_keys(true) == "_+{}|".spec_bytes(),
        lower_keys(false) == ";'`,./".spec_bytes(),
        lower_keys(true) == ":\"~<>?".spec_bytes(),
        control_keys(0x28) == seq![0x0au8, 0x0d],
        control_keys(0x29) == seq![0x1bu8],
        control_keys(0x2a) == seq![0x08u8],
        control_keys(0x2b) == seq![0x09u8],
        control_keys(0x2c) == seq![0x20u8],
        forall|c: u8| 0x61 <= c <= 0x7a ==> #[trigger] types((c - 0x5d) as u8, false, c),
        forall|c: u8| 0x41 <= c <= 0x5a ==> #[trigger] types((c - 0x3d) as u8, true, c),
{
    reveal_strlit("1234567890");
    reveal_strlit("!@#$%^&*()");
    reveal_strlit("-=[]\\");
    reveal_strlit("_+{}|");
    reveal_strlit(";'`,./");
    reveal_strlit(":\"~<>?");
    assert("1234567890".is_ascii() && "!@#$%^&*()".is_ascii() && "-=[]\\".is_ascii());
    assert("_+{}|".is_ascii() && ";'`,./".is_ascii() && ":\"~<>?".is_ascii());
    assert(digit_row(false) =~= "1234567890".spec_bytes());
    assert(digit_row(true) =~= "!@#$%^&*()".spec_bytes());
    assert(right_keys(false) =~= "-=[]\\".spec_bytes());
    assert(right_keys(true) =~= "_+{}|".spec_bytes());
    assert(lower_keys(false) =~= ";'`,./".spec_bytes());
    assert(lower_keys(true) =~= ":\"~<>?".spec_bytes());
}

/// Each key at its place: the usages of the rows count up from left to right.
pub proof fn key_places(i: int)
    ensures
        0 <= i < 10 ==> types((0x1e + i) as u8, false, digit_row(false)[i]) && types(
            (0x1e + i) as u8,
            true,
            digit_row(true)[i],
        ),
        0 <= i < 5 ==> types((0x2d + i) as u8, false, right_keys(false)[i]) && types(
            (0x2d + i) as u8,
            true,
            right_keys(true)[i],
        ),
        0 <= i < 6 ==> types((0x33 + i) as u8, false, lower_keys(false)[i]) && types(
            (0x33 + i) as u8,
            true,
            lower_keys(true)[i],
        ),
        types(0x28, false, 0x0a) && types(0x28, false, 0x0d) && types(0x29, false, 0x1b),
        types(0x2a, false, 0x08) && types(0x2b, false, 0x09) && types(0x2c, false, 0x20),
{
    assert(control_keys(0x28)[0] == 0x0a && control_keys(0x28)[1] == 0x0d);
    assert(control_keys(0x29)[0] == 0x1b && control_keys(0x2a)[0] == 0x08);
    assert(control_keys(0x2b)[0] == 0x09 && control_keys(0x2c)[0] == 0x20);
}

/// A character is typed by one key alone, and a key types one character alone,
/// but for Enter, which types both line feed and carriage return.
pub proof fn keys_distinct(code: u8, shift: bool, code2: u8, shift2: bool, c: u8, c2: u8)
    requires
        types(code, shift, c),
        types(code2, shift2, c2),
    ensures
        c == c2 ==> code == code2 && shift == shift2,
        code == code2 && shift == shift2 ==> c == c2 || (code == 0x28 && !shift),
{
    key_types_character(code, shift, c);
    key_types_character(code2, shift2, c2);
}

} // verus!
