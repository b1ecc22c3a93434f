use vstd::prelude::*;
use crate::color::{color_before, Color, ColorModeView};
use crate::lines::{scan, scan_step, visible_width, EscapeState, ESCAPE};
use crate::utils::{decimal, units_of, utf16, utf16_of_char};

verus! {

/// Scanning one text after another is scanning the second from where the first ended.
pub proof fn lemma_scan_concat(a: Seq<u16>, b: Seq<u16>, start: (EscapeState, nat))
    ensures
        scan(a + b, start) == scan(b, scan(a, start)),
    decreases b.len(),
{
    if b.len() == 0 {
        assert(a + b =~= a);
    } else {
        assert((a + b).drop_last() =~= a + b.drop_last());
        assert((a + b).last() == b.last());
        lemma_scan_concat(a, b.drop_last(), start);
    }
}

/// The number of a character is a Unicode scalar value.
pub proof fn lemma_char_range(c: char)
    ensures
        0 <= c as int <= 0x10FFFF,
        !(0xD800 <= c as int <= 0xDFFF),
{
}

/// Scanning a single code unit is one step of the scanner.
pub proof fn lemma_scan_single(unit: u16, start: (EscapeState, nat))
    ensures
        scan(seq![unit], start) == scan_step(start, unit),
{
    assert(seq![unit].drop_last() =~= Seq::<u16>::empty());
    assert(scan(Seq::<u16>::empty(), start) == start);
}

/// The code units of one text after another are those of the first, then those of the
/// second, whether or not carriage returns are left out.
pub proof fn lemma_units_concat(a: Seq<char>, b: Seq<char>, keep_cr: bool)
    ensures
        units_of(a + b, keep_cr) == units_of(a, keep_cr) + units_of(b, keep_cr),
    decreases b.len(),
{
    if b.len() == 0 {
        assert(a + b =~= a);
        assert(units_of(a, keep_cr) + units_of(b, keep_cr) =~= units_of(a, keep_cr));
    } else {
        assert((a + b).drop_last() =~= a + b.drop_last());
        assert((a + b).last() == b.last());
        lemma_units_concat(a, b.drop_last(), keep_cr);
        assert(units_of(a, keep_cr) + (units_of(b.drop_last(), keep_cr) + utf16_of_char(b.last())) =~= (units_of(
            a,
            keep_cr,
        ) + units_of(b.drop_last(), keep_cr)) + utf16_of_char(b.last()));
    }
}

/// The code units of one text after another are those of the first, then those of the
/// second.
pub proof fn lemma_utf16_concat(a: Seq<char>, b: Seq<char>)
    ensures
        utf16(a + b) == utf16(a) + utf16(b),
{
    lemma_units_concat(a, b, true);
}

/// The code units of a text of one character.
pub proof fn lemma_utf16_single(c: char)
    ensures
        utf16(seq![c]) == utf16_of_char(c),
{
    assert(seq![c].drop_last() =~= Seq::<char>::empty());
    assert(utf16(Seq::<char>::empty()) + utf16_of_char(c) =~= utf16_of_char(c));
}

/// A character other than the escape character counts for as many cells as it has code
/// units, and leaves the scanner outside any sequence.
pub proof fn lemma_scan_char(c: char, n: nat)
    requires
        c as int != ESCAPE,
    ensures
        scan(utf16_of_char(c), (EscapeState::Idle, n)) == (EscapeState::Idle, n + utf16_of_char(c).len()),
{
    let units = utf16_of_char(c);
    let start = (EscapeState::Idle, n);
    if (c as int) < 0x10000 {
        assert(units =~= seq![units[0]]);
        lemma_scan_single(units[0], start);
    } else {
        let v = c as int;
        assert(0 <= (v - 0x10000) / 0x400 < 0x400) by {
            assert(v <= 0x10FFFF);
        }
        assert(units =~= seq![units[0]] + seq![units[1]]);
        lemma_scan_concat(seq![units[0]], seq![units[1]], start);
        lemma_scan_single(units[0], start);
        lemma_scan_single(units[1], scan_step(start, units[0]));
    }
}

/// Whether the text is made of ASCII characters other than `m` and the escape character.
pub open spec fn inert(text: Seq<char>) -> bool {
    forall|i: int| 0 <= i < text.len() ==> (#[trigger] text[i]) as int != 0x6D && text[i] as int != ESCAPE && (
    text[i] as int) < 0x80
}

/// Within a color sequence, text without `m` changes nothing.
pub proof fn lemma_scan_inert(text: Seq<char>, n: nat)
    requires
        inert(text),
    ensures
        scan(utf16(text), (EscapeState::Digit, n)) == (EscapeState::Digit, n),
    decreases text.len(),
{
    if text.len() > 0 {
        assert(inert(text.drop_last())) by {
            assert forall|i: int| 0 <= i < text.drop_last().len() implies (#[trigger] text.drop_last()[i]) as int
                != 0x6D && text.drop_last()[i] as int != ESCAPE && (text.drop_last()[i] as int) < 0x80 by {
                assert(text.drop_last()[i] == text[i]);
            }
        }
        lemma_scan_inert(text.drop_last(), n);
        let c = text.last();
        lemma_char_range(c);
        assert(0 <= (c as int) < 0x80);
        let unit = (c as int) as u16;
        assert(unit as int == c as int);
        assert(utf16_of_char(c) =~= seq![unit]);
        assert(utf16(text) == utf16(text.drop_last()) + utf16_of_char(c));
        lemma_scan_concat(utf16(text.drop_last()), utf16_of_char(c), (EscapeState::Digit, n));
        lemma_scan_single(unit, (EscapeState::Digit, n));
    }
}

/// A decimal numeral is made of digits.
pub proof fn lemma_decimal_inert(n: nat)
    ensures
        inert(decimal(n)),
    decreases n,
{
    if n >= 10 {
        lemma_decimal_inert(n / 10);
        assert forall|i: int| 0 <= i < decimal(n).len() implies (#[trigger] decimal(n)[i]) as int != 0x6D
            && decimal(n)[i] as int != ESCAPE && (decimal(n)[i] as int) < 0x80 by {
            if i < decimal(n / 10).len() {
                assert(decimal(n)[i] == decimal(n / 10)[i]);
            }
        }
    }
}

/// Texts of which each is inert make an inert text.
pub proof fn lemma_inert_concat(a: Seq<char>, b: Seq<char>)
    requires
        inert(a),
        inert(b),
    ensures
        inert(a + b),
{
    assert forall|i: int| 0 <= i < (a + b).len() implies (#[trigger] (a + b)[i]) as int != 0x6D && (a + b)[i] as int
        != ESCAPE && ((a + b)[i] as int) < 0x80 by {
        if i < a.len() {
            assert((a + b)[i] == a[i]);
        } else {
            assert((a + b)[i] == b[i - a.len()]);
        }
    }
}

/// A sequence that starts with the escape character, `[` and `3`, goes on with inert
/// text and ends in `m` takes no cell, and leaves the scanner outside any sequence.
pub proof fn lemma_scan_sequence(body: Seq<char>, n: nat)
    requires
        inert(body),
    ensures
        scan(utf16(seq!['\x1b', '[', '3'] + body + seq!['m']), (EscapeState::Idle, n)) == (EscapeState::Idle, n),
{
    let head = seq!['\x1b', '[', '3'];
    let tail = seq!['m'];
    let start = (EscapeState::Idle, n);
    lemma_utf16_concat(head + body, tail);
    lemma_utf16_concat(head, body);
    lemma_utf16_single('m');
    assert(head =~= seq!['\x1b'] + seq!['['] + seq!['3']);
    lemma_utf16_concat(seq!['\x1b'] + seq!['['], seq!['3']);
    lemma_utf16_concat(seq!['\x1b'], seq!['[']);
    lemma_utf16_single('\x1b');
    lemma_utf16_single('[');
    lemma_utf16_single('3');
    let h = utf16(head);
    assert(h =~= seq![27u16] + seq![0x5Bu16] + seq![0x33u16]);
    lemma_scan_single(27u16, start);
    lemma_scan_concat(seq![27u16], seq![0x5Bu16], start);
    lemma_scan_single(0x5Bu16, (EscapeState::Escape, n));
    lemma_scan_concat(seq![27u16] + seq![0x5Bu16], seq![0x33u16], start);
    lemma_scan_single(0x33u16, (EscapeState::Bracket, n));
    assert(scan(h, start) == (EscapeState::Digit, n));
    lemma_scan_concat(h, utf16(body), start);
    lemma_scan_inert(body, n);
    lemma_scan_concat(h + utf16(body), utf16(tail), start);
    assert(utf16(tail) =~= seq![0x6Du16]);
    lemma_scan_single(0x6Du16, (EscapeState::Digit, n));
}

/// The markers of the foreground mode take no cell.
pub proof fn lemma_scan_markers(color: Color, n: nat)
    ensures
        scan(utf16(color.start_marker(ColorModeView::TerminalFg)), (EscapeState::Idle, n)) == (EscapeState::Idle, n),
        scan(utf16(ColorModeView::TerminalFg.end_marker()), (EscapeState::Idle, n)) == (EscapeState::Idle, n),
{
    reveal_strlit("\x1b[38;2;");
    reveal_strlit("\x1b[39m");
    reveal_strlit(";");
    reveal_strlit("m");
    let (r, g, b) = color.rgb();
    let body = seq!['8', ';', '2', ';'] + decimal(r as nat) + seq![';'] + decimal(g as nat) + seq![';'] + decimal(
        b as nat,
    );
    lemma_decimal_inert(r as nat);
    lemma_decimal_inert(g as nat);
    lemma_decimal_inert(b as nat);
    lemma_inert_concat(seq!['8', ';', '2', ';'], decimal(r as nat));
    lemma_inert_concat(seq!['8', ';', '2', ';'] + decimal(r as nat), seq![';']);
    lemma_inert_concat(seq!['8', ';', '2', ';'] + decimal(r as nat) + seq![';'], decimal(g as nat));
    lemma_inert_concat(seq!['8', ';', '2', ';'] + decimal(r as nat) + seq![';'] + decimal(g as nat), seq![';']);
    lemma_inert_concat(
        seq!['8', ';', '2', ';'] + decimal(r as nat) + seq![';'] + decimal(g as nat) + seq![';'],
        decimal(b as nat),
    );
    assert(color.start_marker(ColorModeView::TerminalFg) =~= seq!['\x1b', '[', '3'] + body + seq!['m']);
    lemma_scan_sequence(body, n);
    assert(ColorModeView::TerminalFg.end_marker() =~= seq!['\x1b', '[', '3'] + seq!['9'] + seq!['m']);
    lemma_scan_sequence(seq!['9'], n);
}

/// What is written where the color changes takes no cell, in the foreground mode.
pub proof fn lemma_scan_transition(prev: Option<Color>, next: Option<Color>, n: nat)
    ensures
        scan(utf16(ColorModeView::TerminalFg.transition(prev, next)), (EscapeState::Idle, n)) == (EscapeState::Idle, n),
{
    let mode = ColorModeView::TerminalFg;
    let start = (EscapeState::Idle, n);
    let first = if prev is Some { mode.end_marker() } else { Seq::<char>::empty() };
    let second = match next {
        Some(color) => color.start_marker(mode),
        None => Seq::<char>::empty(),
    };
    if prev != next {
        lemma_utf16_concat(first, second);
        lemma_scan_concat(utf16(first), utf16(second), start);
        if prev is Some {
            lemma_scan_markers(prev->0, n);
        }
        if next is Some {
            lemma_scan_markers(next->0, n);
        }
    }
}

/// Text written with colors in the foreground mode is as wide as without them: the
/// markers that `ColorModeView::colored` adds are not counted by `visible_width`. This holds
/// of any colors, for a text without the escape character.
pub proof fn lemma_colored_width(text: Seq<char>, colors: Seq<Option<Color>>)
    requires
        text.len() == colors.len(),
        forall|i: int| 0 <= i < text.len() ==> (#[trigger] text[i]) as int != ESCAPE,
    ensures
        visible_width(utf16(ColorModeView::TerminalFg.colored(text, colors)), ColorModeView::TerminalFg) == utf16(text).len(),
{
    let mode = ColorModeView::TerminalFg;
    lemma_colored_prefix_width(text, colors, text.len());
    assert(text.take(text.len() as int) =~= text);
    let body = mode.colored_prefix(text, colors, text.len());
    let closing = mode.transition(color_before(colors, text.len() as int), None);
    lemma_utf16_concat(body, closing);
    lemma_scan_concat(utf16(body), utf16(closing), (EscapeState::Idle, 0));
    lemma_scan_transition(color_before(colors, text.len() as int), None, utf16(text).len());
}

/// The first `n` characters of a text, written with their colors in the foreground mode,
/// are as wide as without them, and leave the scanner outside any sequence.
pub proof fn lemma_colored_prefix_width(text: Seq<char>, colors: Seq<Option<Color>>, n: nat)
    requires
        n <= text.len(),
        text.len() == colors.len(),
        forall|i: int| 0 <= i < text.len() ==> (#[trigger] text[i]) as int != ESCAPE,
    ensures
        scan(utf16(ColorModeView::TerminalFg.colored_prefix(text, colors, n)), (EscapeState::Idle, 0)) == (
            EscapeState::Idle,
            utf16(text.take(n as int)).len(),
        ),
    decreases n,
{
    let mode = ColorModeView::TerminalFg;
    let start = (EscapeState::Idle, 0nat);
    if n == 0 {
        assert(text.take(0) =~= Seq::<char>::empty());
    } else {
        let before = mode.colored_prefix(text, colors, (n - 1) as nat);
        let change = mode.transition(color_before(colors, n - 1), colors[n - 1]);
        let c = text[n - 1];
        let width = utf16(text.take(n - 1)).len();
        lemma_colored_prefix_width(text, colors, (n - 1) as nat);
        lemma_utf16_concat(before + change, seq![c]);
        lemma_utf16_concat(before, change);
        lemma_utf16_single(c);
        lemma_scan_concat(utf16(before), utf16(change), start);
        lemma_scan_transition(color_before(colors, n - 1), colors[n - 1], width);
        lemma_scan_concat(utf16(before) + utf16(change), utf16_of_char(c), start);
        lemma_scan_char(c, width);
        assert(text.take(n as int).drop_last() =~= text.take(n - 1));
        assert(text.take(n as int).last() == c);
    }
}

} // verus!
