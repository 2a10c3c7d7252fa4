//! Bytes as text: comparing, hexadecimal, decimal, and writing into a buffer.

use vstd::prelude::*;

verus! {

use vstd::arithmetic::power::{lemma_pow0, pow};

/// `s` with the bytes from `at` on replaced by `bytes`.
pub open spec fn splice(s: Seq<u8>, at: int, bytes: Seq<u8>) -> Seq<u8> {
    Seq::new(s.len(), |i: int| if at <= i < at + bytes.len() { bytes[i - at] } else { s[i] })
}

/// Writing `a` and then `b` right behind it is writing `a + b`.
pub proof fn splice_twice(s: Seq<u8>, at: int, a: Seq<u8>, b: Seq<u8>)
    ensures
        splice(splice(s, at, a), at + a.len(), b) == splice(s, at, a + b),
{
    assert(splice(splice(s, at, a), at + a.len(), b) =~= splice(s, at, a + b));
}

/// Whether two byte strings are the same.
pub fn bytes_equal(a: &[u8], b: &[u8]) -> (same: bool)
    ensures
        same == (a@ == b@),
{
    if a.len() != b.len() {
        return false;
    }
    let mut i: usize = 0;
    while i < a.len()
        invariant
            i <= a.len(),
            a.len() == b.len(),
            a@.take(i as int) == b@.take(i as int),
        decreases a.len() - i,
    {
        if a[i] != b[i] {
            assert(a@[i as int] != b@[i as int]);
            return false;
        }
        assert(a@.take(i + 1) =~= a@.take(i as int).push(a@[i as int]));
        assert(b@.take(i + 1) =~= b@.take(i as int).push(b@[i as int]));
        i = i + 1;
    }
    assert(a@.take(i as int) =~= a@);
    assert(b@.take(i as int) =~= b@);
    true
}

/// `text` begins with `prefix`.
pub open spec fn has_prefix(text: Seq<u8>, prefix: Seq<u8>) -> bool {
    prefix.len() <= text.len() && text.take(prefix.len() as int) == prefix
}

/// What follows `prefix` in `line`, if `line` begins with it.
pub fn strip_prefix<'a>(line: &'a [u8], prefix: &[u8]) -> (rest: Option<&'a [u8]>)
    ensures
        rest is Some <==> has_prefix(line@, prefix@),
        rest matches Some(r) ==> r@ == line@.skip(prefix@.len() as int),
{
    if line.len() < prefix.len() {
        return None;
    }
    let head = vstd::slice::slice_subrange(line, 0, prefix.len());
    if bytes_equal(head, prefix) {
        Some(vstd::slice::slice_subrange(line, prefix.len(), line.len()))
    } else {
        None
    }
}

/// Copies `bytes` into `out` from `pos` on and returns the position behind them.
pub fn write_bytes(out: &mut [u8], pos: usize, bytes: &[u8]) -> (end: usize)
    requires
        pos + bytes@.len() <= old(out)@.len(),
    ensures
        end == pos + bytes@.len(),
        final(out)@ == splice(old(out)@, pos as int, bytes@),
{
    let room: usize = out.len();
    let mut i: usize = 0;
    while i < bytes.len()
        invariant
            i <= bytes.len(),
            room == out@.len(),
            pos + bytes@.len() <= out@.len(),
            out@ == splice(old(out)@, pos as int, bytes@.take(i as int)),
        decreases bytes.len() - i,
    {
        out[pos + i] = bytes[i];
        i = i + 1;
        assert(out@ =~= splice(old(out)@, pos as int, bytes@.take(i as int)));
    }
    assert(bytes@.take(i as int) =~= bytes@);
    pos + i
}

/// Writes a carriage return and a line feed.
pub fn write_crlf(out: &mut [u8], pos: usize) -> (end: usize)
    requires
        pos + 2 <= old(out)@.len(),
    ensures
        end == pos + 2,
        final(out)@ == splice(old(out)@, pos as int, crlf()),
{
    out[pos] = 0x0d;
    out[pos + 1] = 0x0a;
    assert(out@ =~= splice(old(out)@, pos as int, crlf()));
    pos + 2
}

/// The end of every reply line.
pub open spec fn crlf() -> Seq<u8> {
    seq![0x0d, 0x0a]
}

// Hexadecimal.

/// The upper-case hexadecimal digit of `n < 16`.
pub open spec fn hex_digit(n: int) -> u8 {
    (if n < 10 { 0x30 + n } else { 0x41 + (n - 10) }) as u8
}

/// The two upper-case hexadecimal digits of a byte.
pub open spec fn hex_pair(b: u8) -> Seq<u8> {
    seq![hex_digit(b as int / 16), hex_digit(b as int % 16)]
}

/// The value of a hexadecimal digit of either case.
pub open spec fn hex_value(c: u8) -> Option<int> {
    if 0x30 <= c <= 0x39 {
        Some(c - 0x30)
    } else if 0x61 <= c <= 0x66 {
        Some(c - 0x61 + 10)
    } else if 0x41 <= c <= 0x46 {
        Some(c - 0x41 + 10)
    } else {
        None
    }
}

/// The value of a word of one or two hexadecimal digits.
pub open spec fn hex_word(word: Seq<u8>) -> Option<u8> {
    if word.len() == 1 && hex_value(word[0]) is Some {
        Some(hex_value(word[0])->0 as u8)
    } else if word.len() == 2 && hex_value(word[0]) is Some && hex_value(word[1]) is Some {
        Some((16 * hex_value(word[0])->0 + hex_value(word[1])->0) as u8)
    } else {
        None
    }
}

fn hex_nibble(n: u8) -> (digit: u8)
    requires
        n < 16,
    ensures
        digit == hex_digit(n as int),
{
    if n < 10 {
        0x30 + n
    } else {
        0x41 + (n - 10)
    }
}

/// Writes `b` as two upper-case hexadecimal digits at `idx`.
pub fn hex_byte(out: &mut [u8], idx: usize, b: u8)
    requires
        idx + 1 < old(out)@.len(),
    ensures
        final(out)@ == splice(old(out)@, idx as int, hex_pair(b)),
{
    assert((b >> 4) == b / 16 && (b & 0x0f) == b % 16) by (bit_vector);
    out[idx] = hex_nibble(b >> 4);
    out[idx + 1] = hex_nibble(b & 0x0f);
    assert(out@ =~= splice(old(out)@, idx as int, hex_pair(b)));
}

/// Parses an ASCII hex byte token ("0F", "4c", "5").
pub fn parse_u8_hex(tok: &[u8]) -> (value: Option<u8>)
    ensures
        value == hex_word(tok@),
{
    if tok.len() == 0 || tok.len() > 2 {
        return None;
    }
    let mut value: u8 = 0;
    let mut i: usize = 0;
    while i < tok.len()
        invariant
            1 <= tok.len() <= 2,
            i <= tok.len(),
            forall|k: int| 0 <= k < i ==> hex_value(#[trigger] tok@[k]) is Some,
            i == 0 ==> value == 0,
            i == 1 ==> value == hex_value(tok@[0])->0,
            i == 2 ==> value == 16 * hex_value(tok@[0])->0 + hex_value(tok@[1])->0,
        decreases tok.len() - i,
    {
        let c: u8 = tok[i];
        let nibble: u8 = if 0x30 <= c && c <= 0x39 {
            c - 0x30
        } else if 0x61 <= c && c <= 0x66 {
            c - 0x61 + 10
        } else if 0x41 <= c && c <= 0x46 {
            c - 0x41 + 10
        } else {
            assert(hex_value(tok@[i as int]) is None);
            return None;
        };
        assert(value < 16 && nibble < 16 ==> (value << 4) | nibble == 16 * value + nibble)
            by (bit_vector);
        value = (value << 4) | nibble;
        i = i + 1;
    }
    Some(value)
}

/// Reading back the two digits of a byte gives the byte.
pub proof fn hex_round_trip(b: u8)
    ensures
        hex_word(hex_pair(b)) == Some(b),
{
}

// Decimal.

/// The decimal digits of `v`, without leading zeros.
pub open spec fn decimal(v: nat) -> Seq<u8>
    decreases v,
{
    if v < 10 {
        seq![(0x30 + v) as u8]
    } else {
        decimal(v / 10).push((0x30 + v % 10) as u8)
    }
}

/// The number that a row of decimal digits stands for.
pub open spec fn decimal_value(digits: Seq<u8>) -> nat
    decreases digits.len(),
{
    if digits.len() == 0 {
        0
    } else {
        (10 * decimal_value(digits.drop_last()) + (digits.last() - 0x30)) as nat
    }
}

/// Every byte is a decimal digit.
pub open spec fn all_digits(s: Seq<u8>) -> bool {
    forall|i: int| 0 <= i < s.len() ==> 0x30 <= #[trigger] s[i] <= 0x39
}

/// The digits of a number with an optional plus sign before them.
pub open spec fn unsigned_body(text: Seq<u8>) -> Seq<u8> {
    if text.len() > 0 && text[0] == 0x2b {
        text.skip(1)
    } else {
        text
    }
}

/// The unsigned number that `text` spells: an optional plus sign and at least
/// one digit, of a value that a `usize` can hold.
pub open spec fn usize_word(text: Seq<u8>) -> Option<usize> {
    let body = unsigned_body(text);
    if body.len() > 0 && all_digits(body) && decimal_value(body) <= usize::MAX {
        Some(decimal_value(body) as usize)
    } else {
        None
    }
}

spec fn ten_to(n: nat) -> nat
    decreases n,
{
    if n == 0 {
        1
    } else {
        10 * ten_to((n - 1) as nat)
    }
}

proof fn ten_to_ten()
    ensures
        ten_to(10) == 10_000_000_000,
{
    reveal_with_fuel(ten_to, 11);
}

proof fn decimal_shorter(v: nat, n: nat)
    requires
        n >= 1,
        v < ten_to(n),
    ensures
        1 <= decimal(v).len() <= n,
    decreases n,
{
    if v >= 10 {
        reveal_with_fuel(ten_to, 2);
        assert(n >= 2);
        decimal_shorter(v / 10, (n - 1) as nat);
    }
}

/// A `u32` has at most ten decimal digits.
pub proof fn decimal_u32_len(v: u32)
    ensures
        1 <= decimal(v as nat).len() <= 10,
{
    ten_to_ten();
    decimal_shorter(v as nat, 10);
}

/// A `u8` has at most three decimal digits.
pub proof fn decimal_u8_len(v: u8)
    ensures
        1 <= decimal(v as nat).len() <= 3,
{
    reveal_with_fuel(ten_to, 4);
    decimal_shorter(v as nat, 3);
}

/// Reading back the digits of a number gives the number.
pub proof fn decimal_round_trip(v: nat)
    ensures
        decimal(v).len() > 0,
        all_digits(decimal(v)),
        decimal_value(decimal(v)) == v,
    decreases v,
{
    if v < 10 {
        assert(decimal(v).drop_last() =~= Seq::<u8>::empty());
        assert(decimal_value(Seq::<u8>::empty()) == 0);
    } else {
        decimal_round_trip(v / 10);
        assert(decimal(v).drop_last() =~= decimal(v / 10));
    }
}

/// What is written for a number is read back as that number.
pub proof fn usize_round_trip(v: usize)
    ensures
        usize_word(decimal(v as nat)) == Some(v),
{
    decimal_round_trip(v as nat);
    assert(0x30 <= decimal(v as nat)[0] <= 0x39);
}

proof fn decimal_value_prefix(s: Seq<u8>, n: int)
    requires
        0 <= n <= s.len(),
        all_digits(s),
    ensures
        decimal_value(s.take(n)) <= decimal_value(s),
    decreases s.len(),
{
    if n == s.len() {
        assert(s.take(n) =~= s);
    } else {
        assert(s.drop_last().take(n) =~= s.take(n));
        assert(all_digits(s.drop_last()));
        decimal_value_prefix(s.drop_last(), n);
        assert(0x30 <= s[s.len() - 1]);
    }
}

/// Writes `value` in decimal from `pos` on and returns the position behind it.
pub fn write_u32(out: &mut [u8], pos: usize, value: u32) -> (end: usize)
    requires
        pos + decimal(value as nat).len() <= old(out)@.len(),
    ensures
        end == pos + decimal(value as nat).len(),
        final(out)@ == splice(old(out)@, pos as int, decimal(value as nat)),
{
    if value == 0 {
        out[pos] = 0x30;
        assert(out@ =~= splice(old(out)@, pos as int, decimal(0)));
        return pos + 1;
    }
    let mut rest: u32 = value;
    let mut digits: [u8; 10] = [0u8; 10];
    let mut count: usize = 0;
    proof {
        ten_to_ten();
        assert(digits@.take(0).reverse() =~= Seq::<u8>::empty());
    }
    while rest > 0
        invariant
            value > 0,
            count <= 10,
            rest < ten_to((10 - count) as nat),
            decimal(value as nat) =~= (if rest == 0 {
                Seq::<u8>::empty()
            } else {
                decimal(rest as nat)
            }) + digits@.take(count as int).reverse(),
        decreases rest,
    {
        assert(count < 10) by {
            reveal_with_fuel(ten_to, 1);
        }
        let ghost before = digits@;
        let digit: u8 = 0x30 + (rest % 10) as u8;
        digits[count] = digit;
        assert(digits@.take(count + 1).reverse() =~= seq![digit] + before.take(
            count as int,
        ).reverse());
        rest = rest / 10;
        count = count + 1;
    }
    let ghost text = decimal(value as nat);
    assert(text =~= digits@.take(count as int).reverse());
    let ghost total: int = count as int;
    let mut at: usize = pos;
    while count > 0
        invariant
            0 <= count <= total <= 10,
            at == pos + (total - count),
            text.len() == total,
            pos + text.len() <= out@.len(),
            forall|k: int| 0 <= k < total ==> text[k] == digits@[total - 1 - k],
            out@ == splice(old(out)@, pos as int, text.take(total - count)),
        decreases count,
    {
        count = count - 1;
        out[at] = digits[count];
        at = at + 1;
        assert(out@ =~= splice(old(out)@, pos as int, text.take(total - count)));
    }
    assert(text.take(total) =~= text);
    at
}

/// Parses an unsigned number: an optional plus sign, then decimal digits.
pub fn parse_usize(text: &[u8]) -> (value: Option<usize>)
    ensures
        value == usize_word(text@),
{
    let start: usize = if text.len() > 0 && text[0] == 0x2b {
        1
    } else {
        0
    };
    let ghost body = unsigned_body(text@);
    assert(body =~= text@.skip(start as int));
    if start == text.len() {
        return None;
    }
    let mut value: usize = 0;
    let mut i: usize = start;
    while i < text.len()
        invariant
            start <= i <= text.len(),
            start < text.len(),
            body == text@.skip(start as int),
            body == unsigned_body(text@),
            all_digits(body.take(i - start)),
            value == decimal_value(body.take(i - start)),
        decreases text.len() - i,
    {
        let c: u8 = text[i];
        assert(c == body[i - start]);
        if c < 0x30 || c > 0x39 {
            return None;
        }
        let ghost longer = body.take(i + 1 - start);
        assert(longer.drop_last() =~= body.take(i - start));
        assert(longer.last() == c);
        assert(all_digits(longer)) by {
            assert forall|k: int| 0 <= k < longer.len() implies 0x30 <= #[trigger] longer[k]
                <= 0x39 by {
                if k < i - start {
                    assert(longer[k] == body.take(i - start)[k]);
                }
            }
        }
        let digit: usize = (c - 0x30) as usize;
        let next: Option<usize> = match value.checked_mul(10) {
            Some(tens) => tens.checked_add(digit),
            None => None,
        };
        match next {
            Some(n) => {
                value = n;
            },
            None => {
                proof {
                    if all_digits(body) {
                        decimal_value_prefix(body, i + 1 - start);
                    }
                }
                return None;
            },
        }
        i = i + 1;
    }
    assert(body.take(i - start) =~= body);
    Some(value)
}

// Laws.

/// Splicing replaces the bytes that stand there, and no others.
pub proof fn splice_replaces(before: Seq<u8>, old_bytes: Seq<u8>, after: Seq<u8>, bytes: Seq<u8>)
    requires
        old_bytes.len() == bytes.len(),
    ensures
        splice(before + old_bytes + after, before.len() as int, bytes) == before + bytes + after,
{
    assert(splice(before + old_bytes + after, before.len() as int, bytes) =~= before + bytes
        + after);
}

/// A text begins with a prefix exactly if it is the prefix and something behind
/// it.
pub proof fn prefix_and_rest(text: Seq<u8>, prefix: Seq<u8>, rest: Seq<u8>)
    ensures
        has_prefix(prefix + rest, prefix),
        (prefix + rest).skip(prefix.len() as int) == rest,
        has_prefix(text, prefix) <==> text.len() >= prefix.len() && text == prefix + text.skip(
            prefix.len() as int,
        ),
{
    let n = prefix.len() as int;
    assert((prefix + rest).take(n) =~= prefix);
    assert((prefix + rest).skip(n) =~= rest);
    if has_prefix(text, prefix) {
        assert(text =~= prefix + text.skip(n));
    } else if text.len() >= prefix.len() && text == prefix + text.skip(n) {
        assert(text.take(n) =~= prefix);
    }
}

/// The sixteen digits, of either case, are the only ones, and stand for the
/// numbers from 0 to 15.
pub proof fn hex_digits(n: int, c: u8)
    requires
        0 <= n < 16,
    ensures
        hex_digit(n) == seq![
            0x30u8,
            0x31,
            0x32,
            0x33,
            0x34,
            0x35,
            0x36,
            0x37,
            0x38,
            0x39,
            0x41,
            0x42,
            0x43,
            0x44,
            0x45,
            0x46,
        ][n],
        hex_value(c) == Some(n) <==> c == hex_digit(n) || (n >= 10 && c == hex_digit(n) + 0x20),
        hex_value(c) matches Some(v) ==> 0 <= v < 16,
{
}

/// A byte is written as its upper and then its lower half, and a word of one or
/// two digits is read as the number that they spell; no other word is read.
pub proof fn hex_words(b: u8, word: Seq<u8>, x: int, y: int)
    requires
        0 <= x < 16,
        0 <= y < 16,
    ensures
        hex_pair(b).len() == 2,
        hex_pair(b)[0] == hex_digit(b as int / 16) && hex_pair(b)[1] == hex_digit(b as int % 16),
        word.len() == 1 && hex_value(word[0]) == Some(x) ==> hex_word(word) == Some(x as u8),
        word.len() == 2 && hex_value(word[0]) == Some(x) && hex_value(word[1]) == Some(y)
            ==> hex_word(word) == Some((16 * x + y) as u8),
        hex_word(word) is Some ==> word.len() == 1 || word.len() == 2,
        hex_word(word) is Some ==> forall|i: int|
            0 <= i < word.len() ==> hex_value(#[trigger] word[i]) is Some,
{
}

/// Decimal digits are worth ten times as much one place further to the left.
pub proof fn decimal_places(a: Seq<u8>, b: Seq<u8>, c: u8)
    requires
        all_digits(a),
        all_digits(b),
        0x30 <= c <= 0x39,
    ensures
        decimal_value(seq![c]) == c - 0x30,
        decimal_value(a + b) == decimal_value(a) * pow(10, b.len()) + decimal_value(b),
    decreases b.len(),
{
    assert(seq![c].drop_last() =~= Seq::<u8>::empty());
    assert(decimal_value(Seq::<u8>::empty()) == 0);
    if b.len() == 0 {
        assert(a + b =~= a);
        lemma_pow0(10);
    } else {
        let t = b.drop_last();
        assert(all_digits(t)) by {
            assert forall|i: int| 0 <= i < t.len() implies 0x30 <= #[trigger] t[i] <= 0x39 by {
                assert(t[i] == b[i]);
            }
        }
        decimal_places(a, t, c);
        assert((a + b).drop_last() =~= a + t);
        assert((a + b).last() == b.last());
        assert(0x30 <= b[b.len() - 1] <= 0x39);
        let p = pow(10, t.len());
        let q = pow(10, b.len());
        assert(q == 10 * p) by {
            reveal(pow);
        }
        let x = decimal_value(a) as int;
        assert(10 * (x * p) == x * (10 * p)) by (nonlinear_arith);
    }
}

/// A number is written without leading zeros.
pub proof fn decimal_leads(v: nat)
    requires
        v > 0,
    ensures
        decimal(v).len() > 0,
        decimal(v)[0] != 0x30,
    decreases v,
{
    if v >= 10 {
        decimal_leads(v / 10);
    }
}

/// A row of digits, with a plus sign before it or not, is read as its value, as
/// far as a machine word holds it; anything else is not read.
pub proof fn numbers_read(digits: Seq<u8>, text: Seq<u8>)
    requires
        digits.len() > 0,
        all_digits(digits),
    ensures
        usize_word(digits) == usize_word(seq![0x2b] + digits),
        decimal_value(digits) <= usize::MAX ==> usize_word(digits) == Some(
            decimal_value(digits) as usize,
        ),
        decimal_value(digits) > usize::MAX ==> usize_word(digits) is None,
        usize_word(text) is Some ==> text.len() > 0 && (all_digits(text) || (text[0] == 0x2b
            && all_digits(text.skip(1)) && text.len() > 1)),
{
    assert(0x30 <= digits[0] <= 0x39);
    assert((seq![0x2bu8] + digits).skip(1) =~= digits);
}

} // verus!
