use vstd::prelude::*;

verus! {

/// The UTF-16 code units of one character: itself below U+10000, else a surrogate pair.
pub open spec fn utf16_of_char(c: char) -> Seq<u16> {
    let v = c as int;
    if v < 0x10000 {
        seq![v as u16]
    } else {
        seq![(0xD800 + (v - 0x10000) / 0x400) as u16, (0xDC00 + (v - 0x10000) % 0x400) as u16]
    }
}

/// The UTF-16 code units of a text; its carriage returns are left out unless `keep_cr`.
pub open spec fn units_of(s: Seq<char>, keep_cr: bool) -> Seq<u16>
    decreases s.len(),
{
    if s.len() == 0 {
        Seq::empty()
    } else if s.last() == '\r' && !keep_cr {
        units_of(s.drop_last(), keep_cr)
    } else {
        units_of(s.drop_last(), keep_cr) + utf16_of_char(s.last())
    }
}

/// The UTF-16 encoding of a text.
pub open spec fn utf16(s: Seq<char>) -> Seq<u16> {
    units_of(s, true)
}

/// The UTF-16 code units of a text, carriage returns left out.
pub open spec fn v16(s: Seq<char>) -> Seq<u16> {
    units_of(s, false)
}

/// Whether the code unit is half of a surrogate pair.
pub open spec fn is_surrogate(u: u16) -> bool {
    0xD800 <= u <= 0xDFFF
}

/// Whether the code unit is the first half of a surrogate pair.
pub open spec fn is_high_surrogate(u: u16) -> bool {
    0xD800 <= u <= 0xDBFF
}

/// Whether the code unit is the second half of a surrogate pair.
pub open spec fn is_low_surrogate(u: u16) -> bool {
    0xDC00 <= u <= 0xDFFF
}

/// The text that UTF-16 code units stand for, with U+FFFD for each surrogate that has
/// no partner.
pub open spec fn utf16_lossy(units: Seq<u16>) -> Seq<char>
    decreases units.len(),
{
    if units.len() == 0 {
        Seq::empty()
    } else if !is_surrogate(units[0]) {
        seq![units[0] as char] + utf16_lossy(units.skip(1))
    } else if is_high_surrogate(units[0]) && units.len() >= 2 && is_low_surrogate(units[1]) {
        seq![(0x10000 + (units[0] - 0xD800) * 0x400 + (units[1] - 0xDC00)) as char]
            + utf16_lossy(units.skip(2))
    } else {
        seq!['\u{FFFD}'] + utf16_lossy(units.skip(1))
    }
}

/// The code unit that stands for a character where only one can: its number, less the
/// bits above the sixteenth.
pub open spec fn low_unit(c: char) -> u16 {
    ((c as int) % 0x10000) as u16
}

/// The code unit that stands for a character where only one can.
pub fn low_unit_of(c: char) -> (r: u16)
    ensures
        r == low_unit(c),
{
    (code_point(c) % 0x10000) as u16
}

/// The number of a character: a Unicode scalar value.
pub fn code_point(c: char) -> (r: u32)
    ensures
        r == c as int,
        r <= 0x10FFFF,
        !(0xD800 <= r <= 0xDFFF),
{
    c as u32
}

/// The UTF-16 code units of `s`; its carriage returns are left out unless `keep_cr`.
fn encode(s: &str, keep_cr: bool) -> (r: Vec<u16>)
    ensures
        r@ == units_of(s@, keep_cr),
{
    let mut out: Vec<u16> = Vec::new();
    for c in it: s.chars()
        invariant
            it.seq() == s@,
            out@ == units_of(s@.take(it.index()), keep_cr),
    {
        proof {
            let next = s@.take(it.index() + 1);
            assert(next.drop_last() =~= s@.take(it.index()));
            assert(next.last() == c);
        }
        let v: u32 = code_point(c);
        if v < 0x10000 {
            if v != 13 || keep_cr {
                out.push(v as u16);
                assert(out@ =~= units_of(s@.take(it.index()), keep_cr) + utf16_of_char(c));
            }
        } else {
            out.push((0xD800 + (v - 0x10000) / 0x400) as u16);
            out.push((0xDC00 + (v - 0x10000) % 0x400) as u16);
            assert(out@ =~= units_of(s@.take(it.index()), keep_cr) + utf16_of_char(c));
        }
    }
    assert(s@.take(s@.len() as int) =~= s@);
    out
}

/// The UTF-16 code units of `s`, carriage returns left out.
pub fn into_v16(s: &str) -> (r: Vec<u16>)
    ensures
        r@ == v16(s@),
{
    encode(s, false)
}

/// The UTF-16 encoding of `s`.
pub fn encode_utf16(s: &str) -> (r: Vec<u16>)
    ensures
        r@ == utf16(s@),
{
    encode(s, true)
}

/// `char::from_u32`: the character with the number `v`, where `v` is a Unicode scalar
/// value, that is, at most U+10FFFF and no surrogate; nothing for any other number.
#[verifier::external_body]
pub(crate) fn char_from_u32(v: u32) -> (r: Option<char>)
    ensures
        r == (if v <= 0x10FFFF && !(0xD800 <= v <= 0xDFFF) {
            Some(v as char)
        } else {
            None::<char>
        }),
{
    char::from_u32(v)
}

/// The number of code units that the first character of `units` takes: two for a
/// surrogate pair, else one.
pub open spec fn first_char_len(units: Seq<u16>) -> int {
    if units.len() >= 2 && is_high_surrogate(units[0]) && is_low_surrogate(units[1]) {
        2
    } else {
        1
    }
}

/// Decodes the character at the head of `units[at..]`, and tells how many code units
/// it took.
pub fn decode_at(units: &Vec<u16>, at: usize) -> (r: (char, usize))
    requires
        at < units.len(),
    ensures
        r.1 == first_char_len(units@.skip(at as int)),
        at + r.1 <= units.len(),
        utf16_lossy(units@.skip(at as int)) == seq![r.0] + utf16_lossy(units@.skip(at + r.1)),
{
    let ghost rest = units@.skip(at as int);
    let first = units[at];
    assert(rest[0] == first);
    assert(rest.skip(1) =~= units@.skip(at + 1));
    if at + 1 < units.len() {
        assert(rest[1] == units[at + 1]);
        assert(rest.skip(2) =~= units@.skip(at + 2));
    }
    if first < 0xD800 || first > 0xDFFF {
        match char_from_u32(first as u32) {
            Some(c) => (c, 1),
            None => ('\u{FFFD}', 1),
        }
    } else if first <= 0xDBFF && at + 1 < units.len() && 0xDC00 <= units[at + 1] && units[at + 1] <= 0xDFFF {
        let second = units[at + 1];
        let v: u32 = 0x10000 + (first as u32 - 0xD800) * 0x400 + (second as u32 - 0xDC00);
        match char_from_u32(v) {
            Some(c) => (c, 2),
            None => ('\u{FFFD}', 2),
        }
    } else {
        ('\u{FFFD}', 1)
    }
}

/// The text that the code units stand for, with U+FFFD in place of each surrogate that
/// has no partner.
pub fn from_v16(units: &Vec<u16>) -> (r: String)
    ensures
        r@ == utf16_lossy(units@),
{
    let mut chars: Vec<char> = Vec::new();
    let mut i: usize = 0;
    assert(units@.skip(0) =~= units@);
    while i < units.len()
        invariant
            i <= units.len(),
            chars@ + utf16_lossy(units@.skip(i as int)) == utf16_lossy(units@),
        decreases units.len() - i,
    {
        let ghost before = chars@;
        let (c, n) = decode_at(units, i);
        chars.push(c);
        assert(chars@ + utf16_lossy(units@.skip(i + n)) =~= before + (seq![c] + utf16_lossy(
            units@.skip(i + n),
        )));
        i += n;
    }
    assert(chars@ + utf16_lossy(units@.skip(i as int)) =~= chars@);
    string_of(&chars)
}

/// The character of a decimal digit `d`, `0 <= d <= 9`.
pub open spec fn digit_char(d: int) -> char {
    (48 + d) as char
}

/// The decimal numeral of `n`, without leading zeros.
pub open spec fn decimal(n: nat) -> Seq<char>
    decreases n,
{
    if n < 10 {
        seq![digit_char(n as int)]
    } else {
        decimal(n / 10).push(digit_char((n % 10) as int))
    }
}

/// The characters of `s`, in order.
pub fn chars_of(s: &str) -> (r: Vec<char>)
    ensures
        r@ == s@,
{
    let mut out: Vec<char> = Vec::new();
    for c in it: s.chars()
        invariant
            it.seq() == s@,
            out.len() == it.index(),
            forall|j: int| 0 <= j < out.len() ==> out@[j] == it.seq()[j],
    {
        out.push(c);
    }
    assert(out@ =~= s@);
    out
}

/// `String::from_iter` over the characters of a vector: the string that holds exactly
/// these characters, in this order.
#[verifier::external_body]
pub(crate) fn string_of(chars: &Vec<char>) -> (r: String)
    ensures
        r@ == chars@,
{
    String::from_iter(chars)
}

/// Appends the characters of `s` to `buffer`.
pub fn push_str(buffer: &mut Vec<char>, s: &str)
    ensures
        final(buffer)@ == old(buffer)@ + s@,
{
    let ghost before = buffer@;
    for c in it: s.chars()
        invariant
            it.seq() == s@,
            buffer@.len() == before.len() + it.index(),
            forall|j: int| 0 <= j < before.len() ==> buffer@[j] == before[j],
            forall|j: int| 0 <= j < it.index() ==> buffer@[before.len() + j] == it.seq()[j],
    {
        buffer.push(c);
    }
    assert(buffer@ =~= before + s@);
}

/// Appends the decimal numeral of `n` to `buffer`.
pub fn push_decimal(buffer: &mut Vec<char>, n: u8)
    ensures
        final(buffer)@ == old(buffer)@ + decimal(n as nat),
{
    reveal_with_fuel(decimal, 3);
    if n >= 100 {
        buffer.push((48 + n / 100) as char);
    }
    if n >= 10 {
        buffer.push((48 + (n / 10) % 10) as char);
    }
    buffer.push((48 + n % 10) as char);
    assert(buffer@ =~= old(buffer)@ + decimal(n as nat));
}

/// The decimal numeral of `n`.
pub fn decimal_string(n: usize) -> (r: String)
    ensures
        r@ == decimal(n as nat),
{
    decimal_string_u64(n as u64)
}

/// The decimal numeral of `n`.
pub fn decimal_string_u64(n: u64) -> (r: String)
    ensures
        r@ == decimal(n as nat),
{
    let mut digits: Vec<char> = Vec::new();
    let mut m: u64 = n;
    assert(decimal(n as nat) =~= decimal(m as nat) + digits@.reverse());
    while m >= 10
        invariant
            decimal(n as nat) == decimal(m as nat) + digits@.reverse(),
        decreases m,
    {
        let ghost before = digits@;
        digits.push((48 + (m % 10) as u8) as char);
        assert(digits@.reverse() =~= seq![digit_char((m % 10) as int)] + before.reverse());
        assert(decimal(m as nat) == decimal((m / 10) as nat).push(digit_char((m % 10) as int)));
        assert(decimal((m / 10) as nat).push(digit_char((m % 10) as int)) + before.reverse() =~= decimal(
            (m / 10) as nat,
        ) + digits@.reverse());
        m = m / 10;
    }
    let ghost before = digits@;
    digits.push((48 + m as u8) as char);
    assert(digits@.reverse() =~= decimal(m as nat) + before.reverse());
    let mut out: Vec<char> = Vec::new();
    let mut i: usize = digits.len();
    while i > 0
        invariant
            i <= digits.len(),
            out.len() == digits.len() - i,
            forall|k: int| 0 <= k < out.len() ==> #[trigger] out@[k] == digits@[digits.len() - 1 - k],
        decreases i,
    {
        i -= 1;
        out.push(digits[i]);
    }
    assert(out@ =~= digits@.reverse());
    string_of(&out)
}

/// Whether two texts are the same.
pub fn same_text(a: &str, b: &str) -> (r: bool)
    ensures
        r == (a@ == b@),
{
    let left = chars_of(a);
    let right = chars_of(b);
    if left.len() != right.len() {
        return false;
    }
    let mut i: usize = 0;
    while i < left.len()
        invariant
            i <= left.len(),
            left.len() == right.len(),
            left@ == a@,
            right@ == b@,
            forall|k: int| 0 <= k < i ==> left@[k] == right@[k],
        decreases left.len() - i,
    {
        if left[i] != right[i] {
            return false;
        }
        i += 1;
    }
    assert(left@ =~= right@);
    true
}

} // verus!
