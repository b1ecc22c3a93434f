use vstd::prelude::*;
use std::str::FromStr;
use crate::utils::{chars_of, decimal, push_decimal, push_str, string_of};

verus! {

/// The palette: eighteen named colors, each with a fixed RGB triple.
#[derive(Clone, Copy, Debug, PartialEq, Eq, Structural)]
pub enum Color {
    Black,
    Dark,
    Gray,
    Lightgray,
    White,
    Red,
    Green,
    Blue,
    Brown,
    Slateblue,
    Seagreen,
    Aqua,
    Emerald,
    Violet,
    Turquoise,
    Pink,
    Grassgreen,
    Gold,
}

/// How per-cell colors are written into text.
#[derive(Clone, Debug)]
pub enum ColorMode {
    /// Colors are dropped.
    Plain,
    /// `<span class="{prefix}red">` ... `</span>`
    Html { prefix: String },
    /// ANSI 24-bit foreground sequences.
    TerminalFg,
    /// ANSI 24-bit background sequences.
    TerminalBg,
}

/// A color mode as a mathematical value.
pub enum ColorModeView {
    Plain,
    Html { prefix: Seq<char> },
    TerminalFg,
    TerminalBg,
}

impl View for ColorMode {
    type V = ColorModeView;

    open spec fn view(&self) -> ColorModeView {
        match self {
            ColorMode::Plain => ColorModeView::Plain,
            ColorMode::Html { prefix } => ColorModeView::Html { prefix: prefix@ },
            ColorMode::TerminalFg => ColorModeView::TerminalFg,
            ColorMode::TerminalBg => ColorModeView::TerminalBg,
        }
    }
}

impl Color {
    /// The red, green and blue of the color.
    pub open spec fn rgb(self) -> (u8, u8, u8) {
        match self {
            Color::Black => (0, 0, 0),
            Color::Dark => (64, 64, 64),
            Color::Gray => (128, 128, 128),
            Color::Lightgray => (192, 192, 192),
            Color::White => (255, 255, 255),
            Color::Red => (192, 32, 32),
            Color::Green => (32, 192, 32),
            Color::Blue => (32, 32, 192),
            Color::Brown => (192, 128, 32),
            Color::Slateblue => (64, 64, 192),
            Color::Seagreen => (32, 192, 192),
            Color::Aqua => (64, 192, 255),
            Color::Emerald => (64, 192, 64),
            Color::Violet => (192, 64, 255),
            Color::Turquoise => (64, 255, 192),
            Color::Pink => (255, 64, 192),
            Color::Grassgreen => (192, 255, 64),
            Color::Gold => (255, 192, 64),
        }
    }

    /// The lower-case name used as a markup class.
    pub open spec fn name(self) -> Seq<char> {
        match self {
            Color::Black => "black"@,
            Color::Dark => "dark"@,
            Color::Gray => "gray"@,
            Color::Lightgray => "lightgray"@,
            Color::White => "white"@,
            Color::Red => "red"@,
            Color::Green => "green"@,
            Color::Blue => "blue"@,
            Color::Brown => "brown"@,
            Color::Slateblue => "slateblue"@,
            Color::Seagreen => "seagreen"@,
            Color::Aqua => "aqua"@,
            Color::Emerald => "emerald"@,
            Color::Violet => "violet"@,
            Color::Turquoise => "turquoise"@,
            Color::Pink => "pink"@,
            Color::Grassgreen => "grassgreen"@,
            Color::Gold => "gold"@,
        }
    }

    /// The text that switches this color on.
    pub open spec fn start_marker(self, mode: ColorModeView) -> Seq<char> {
        let (r, g, b) = self.rgb();
        let channels = decimal(r as nat) + ";"@ + decimal(g as nat) + ";"@ + decimal(b as nat) + "m"@;
        match mode {
            ColorModeView::Plain => Seq::empty(),
            ColorModeView::Html { prefix } => "<span class=\""@ + prefix + self.name() + "\">"@,
            ColorModeView::TerminalFg => "\x1b[38;2;"@ + channels,
            ColorModeView::TerminalBg => "\x1b[48;2;"@ + channels,
        }
    }

    /// The red, green and blue of the color.
    pub fn get_rgb(&self) -> (r: (u8, u8, u8))
        ensures
            r == self.rgb(),
    {
        match self {
            Color::Black => (0, 0, 0),
            Color::Dark => (64, 64, 64),
            Color::Gray => (128, 128, 128),
            Color::Lightgray => (192, 192, 192),
            Color::White => (255, 255, 255),
            Color::Red => (192, 32, 32),
            Color::Green => (32, 192, 32),
            Color::Blue => (32, 32, 192),
            Color::Brown => (192, 128, 32),
            Color::Slateblue => (64, 64, 192),
            Color::Seagreen => (32, 192, 192),
            Color::Aqua => (64, 192, 255),
            Color::Emerald => (64, 192, 64),
            Color::Violet => (192, 64, 255),
            Color::Turquoise => (64, 255, 192),
            Color::Pink => (255, 64, 192),
            Color::Grassgreen => (192, 255, 64),
            Color::Gold => (255, 192, 64),
        }
    }

    /// The lower-case name of the color.
    pub fn get_name(&self) -> (r: &'static str)
        ensures
            r@ == self.name(),
    {
        match self {
            Color::Black => "black",
            Color::Dark => "dark",
            Color::Gray => "gray",
            Color::Lightgray => "lightgray",
            Color::White => "white",
            Color::Red => "red",
            Color::Green => "green",
            Color::Blue => "blue",
            Color::Brown => "brown",
            Color::Slateblue => "slateblue",
            Color::Seagreen => "seagreen",
            Color::Aqua => "aqua",
            Color::Emerald => "emerald",
            Color::Violet => "violet",
            Color::Turquoise => "turquoise",
            Color::Pink => "pink",
            Color::Grassgreen => "grassgreen",
            Color::Gold => "gold",
        }
    }

    /// Appends to `buffer` the text that switches this color on.
    pub fn append_start_marker(&self, buffer: &mut Vec<char>, color_mode: &ColorMode)
        ensures
            final(buffer)@ == old(buffer)@ + self.start_marker(color_mode@),
    {
        match color_mode {
            ColorMode::Html { prefix } => {
                push_str(buffer, "<span class=\"");
                push_str(buffer, prefix.as_str());
                push_str(buffer, self.get_name());
                push_str(buffer, "\">");
            },
            ColorMode::TerminalFg | ColorMode::TerminalBg => {
                let (r, g, b) = self.get_rgb();
                match color_mode {
                    ColorMode::TerminalFg => push_str(buffer, "\x1b[38;2;"),
                    _ => push_str(buffer, "\x1b[48;2;"),
                }
                let ghost head = buffer@;
                push_decimal(buffer, r);
                push_str(buffer, ";");
                push_decimal(buffer, g);
                push_str(buffer, ";");
                push_decimal(buffer, b);
                push_str(buffer, "m");
                assert(buffer@ =~= head + (decimal(r as nat) + ";"@ + decimal(g as nat) + ";"@
                    + decimal(b as nat) + "m"@));
            },
            ColorMode::Plain => {
                assert(buffer@ =~= old(buffer)@ + Seq::<char>::empty());
            },
        }
    }

    /// Appends to `buffer` the text that switches this color off.
    pub fn append_end_marker(&self, buffer: &mut Vec<char>, color_mode: &ColorMode)
        ensures
            final(buffer)@ == old(buffer)@ + color_mode@.end_marker(),
    {
        match color_mode {
            ColorMode::Html { .. } => push_str(buffer, "</span>"),
            ColorMode::TerminalFg => push_str(buffer, "\x1b[39m"),
            ColorMode::TerminalBg => push_str(buffer, "\x1b[49m"),
            ColorMode::Plain => {
                assert(buffer@ =~= old(buffer)@ + Seq::<char>::empty());
            },
        }
    }
}

impl ColorModeView {
    /// The text that switches the current color off.
    pub open spec fn end_marker(self) -> Seq<char> {
        match self {
            ColorModeView::Plain => Seq::empty(),
            ColorModeView::Html { .. } => "</span>"@,
            ColorModeView::TerminalFg => "\x1b[39m"@,
            ColorModeView::TerminalBg => "\x1b[49m"@,
        }
    }

    /// What is written between a character of color `prev` and one of color `next`:
    /// nothing while the color stays, else the end of the old run and the start of the new.
    pub open spec fn transition(self, prev: Option<Color>, next: Option<Color>) -> Seq<char> {
        if prev == next {
            Seq::empty()
        } else {
            (if prev is Some { self.end_marker() } else { Seq::empty() })
            + (match next {
                Some(color) => color.start_marker(self),
                None => Seq::empty(),
            })
        }
    }

    /// The first `n` characters of `text` with the markers that they need.
    pub open spec fn colored_prefix(
        self,
        text: Seq<char>,
        colors: Seq<Option<Color>>,
        n: nat,
    ) -> Seq<char>
        decreases n,
    {
        if n == 0 {
            Seq::empty()
        } else {
            self.colored_prefix(text, colors, (n - 1) as nat)
                + self.transition(color_before(colors, n - 1), colors[n - 1])
                + seq![text[n - 1]]
        }
    }

    /// `text` with a start marker wherever the color changes to a color, an end marker
    /// wherever a run of one color stops, and no run left open at the end.
    pub open spec fn colored(self, text: Seq<char>, colors: Seq<Option<Color>>) -> Seq<char> {
        if self is Plain {
            text
        } else {
            self.colored_prefix(text, colors, text.len())
                + self.transition(color_before(colors, text.len() as int), None)
        }
    }
}

impl ColorMode {
    /// Writes the color of each character of `string` into the text.
    ///
    /// `colors` gives one entry for each character of `string`.
    pub fn apply_colors(&self, string: String, colors: Vec<Option<Color>>) -> (r: String)
        requires
            self@ is Plain || string@.len() == colors@.len(),
        ensures
            r@ == self@.colored(string@, colors@),
    {
        if let ColorMode::Plain = self {
            return string;
        }
        let chars = chars_of(string.as_str());
        let mut buffer: Vec<char> = Vec::new();
        let mut curr_color: Option<Color> = None;
        let mut i: usize = 0;
        while i < chars.len()
            invariant
                i <= chars.len(),
                chars@ == string@,
                chars.len() == colors.len(),
                curr_color == color_before(colors@, i as int),
                buffer@ == self@.colored_prefix(string@, colors@, i as nat),
            decreases chars.len() - i,
        {
            let ghost before = buffer@;
            let next = colors[i];
            if curr_color != next {
                if let Some(color) = curr_color {
                    color.append_end_marker(&mut buffer, self);
                }
                if let Some(color) = next {
                    color.append_start_marker(&mut buffer, self);
                }
                curr_color = next;
            }
            assert(buffer@ =~= before + self@.transition(color_before(colors@, i as int), colors@[i as int]));
            buffer.push(chars[i]);
            i += 1;
        }
        let ghost before = buffer@;
        if let Some(color) = curr_color {
            color.append_end_marker(&mut buffer, self);
        }
        assert(buffer@ =~= before + self@.transition(color_before(colors@, string@.len() as int), None));
        string_of(&buffer)
    }
}

/// The color of the character before position `i`; none before the first.
pub open spec fn color_before(colors: Seq<Option<Color>>, i: int) -> Option<Color> {
    if i <= 0 {
        None
    } else {
        colors[i - 1]
    }
}

/// The lower-case letter of an ASCII capital; any other character as it is.
pub open spec fn lower(c: char) -> char {
    if 'A' <= c <= 'Z' {
        ((c as int) + 32) as char
    } else {
        c
    }
}

/// A name as it is looked up: without blanks, underscores and hyphens, and with ASCII
/// capitals in lower case.
pub open spec fn normalized_name(text: Seq<char>) -> Seq<char>
    decreases text.len(),
{
    if text.len() == 0 {
        Seq::empty()
    } else {
        let rest = normalized_name(text.drop_last());
        let c = text.last();
        if c == ' ' || c == '_' || c == '-' {
            rest
        } else {
            rest.push(lower(c))
        }
    }
}

/// The name in `s` as it is looked up.
fn normalize(s: &str) -> (r: Vec<char>)
    ensures
        r@ == normalized_name(s@),
{
    let chars = chars_of(s);
    let mut out: Vec<char> = Vec::new();
    let mut i: usize = 0;
    while i < chars.len()
        invariant
            i <= chars.len(),
            chars@ == s@,
            out@ == normalized_name(s@.take(i as int)),
        decreases chars.len() - i,
    {
        assert(s@.take(i + 1).drop_last() =~= s@.take(i as int));
        let c = chars[i];
        if !(c == ' ' || c == '_' || c == '-') {
            if 'A' <= c && c <= 'Z' {
                out.push((c as u8 + 32) as char);
            } else {
                out.push(c);
            }
        }
        i += 1;
    }
    assert(s@.take(chars.len() as int) =~= s@);
    out
}

/// Whether `chars` spell `name`.
fn spells(chars: &Vec<char>, name: &str) -> (r: bool)
    ensures
        r == (chars@ == name@),
{
    let other = chars_of(name);
    if chars.len() != other.len() {
        return false;
    }
    let mut i: usize = 0;
    while i < chars.len()
        invariant
            i <= chars.len(),
            chars.len() == other.len(),
            other@ == name@,
            forall|k: int| 0 <= k < i ==> chars@[k] == other@[k],
        decreases chars.len() - i,
    {
        if chars[i] != other[i] {
            return false;
        }
        i += 1;
    }
    assert(chars@ =~= other@);
    true
}

impl Color {
    /// The color that has the name `name`, if one has.
    pub open spec fn named(name: Seq<char>) -> Option<Color> {
        if name == "black"@ {
            Some(Color::Black)
        } else if name == "dark"@ {
            Some(Color::Dark)
        } else if name == "gray"@ {
            Some(Color::Gray)
        } else if name == "lightgray"@ {
            Some(Color::Lightgray)
        } else if name == "white"@ {
            Some(Color::White)
        } else if name == "red"@ {
            Some(Color::Red)
        } else if name == "green"@ {
            Some(Color::Green)
        } else if name == "blue"@ {
            Some(Color::Blue)
        } else if name == "brown"@ {
            Some(Color::Brown)
        } else if name == "slateblue"@ {
            Some(Color::Slateblue)
        } else if name == "seagreen"@ {
            Some(Color::Seagreen)
        } else if name == "aqua"@ {
            Some(Color::Aqua)
        } else if name == "emerald"@ {
            Some(Color::Emerald)
        } else if name == "violet"@ {
            Some(Color::Violet)
        } else if name == "turquoise"@ {
            Some(Color::Turquoise)
        } else if name == "pink"@ {
            Some(Color::Pink)
        } else if name == "grassgreen"@ {
            Some(Color::Grassgreen)
        } else if name == "gold"@ {
            Some(Color::Gold)
        } else {
            None
        }
    }

    /// The color with the name `s`, whatever its case and with or without blanks,
    /// underscores and hyphens; else the name as it was looked up.
    pub fn from_name(s: &str) -> (r: Result<Color, String>)
        ensures
            match r {
                Ok(color) => Color::named(normalized_name(s@)) == Some(color) && color.name() == normalized_name(
                    s@,
                ),
                Err(name) => name@ == normalized_name(s@) && Color::named(name@) is None && forall|color: Color|
                    #[trigger] color.name() != normalized_name(s@),
            },
    {
        let name = normalize(s);
        if spells(&name, "black") {
            Ok(Color::Black)
        } else if spells(&name, "dark") {
            Ok(Color::Dark)
        } else if spells(&name, "gray") {
            Ok(Color::Gray)
        } else if spells(&name, "lightgray") {
            Ok(Color::Lightgray)
        } else if spells(&name, "white") {
            Ok(Color::White)
        } else if spells(&name, "red") {
            Ok(Color::Red)
        } else if spells(&name, "green") {
            Ok(Color::Green)
        } else if spells(&name, "blue") {
            Ok(Color::Blue)
        } else if spells(&name, "brown") {
            Ok(Color::Brown)
        } else if spells(&name, "slateblue") {
            Ok(Color::Slateblue)
        } else if spells(&name, "seagreen") {
            Ok(Color::Seagreen)
        } else if spells(&name, "aqua") {
            Ok(Color::Aqua)
        } else if spells(&name, "emerald") {
            Ok(Color::Emerald)
        } else if spells(&name, "violet") {
            Ok(Color::Violet)
        } else if spells(&name, "turquoise") {
            Ok(Color::Turquoise)
        } else if spells(&name, "pink") {
            Ok(Color::Pink)
        } else if spells(&name, "grassgreen") {
            Ok(Color::Grassgreen)
        } else if spells(&name, "gold") {
            Ok(Color::Gold)
        } else {
            Err(string_of(&name))
        }
    }
}

impl FromStr for Color {
    type Err = String;

    /// The color with the name `s`: see `Color::from_name`.
    fn from_str(s: &str) -> (r: Result<Color, String>)
        ensures
            match r {
                Ok(color) => Color::named(normalized_name(s@)) == Some(color) && color.name() == normalized_name(
                    s@,
                ),
                Err(name) => name@ == normalized_name(s@) && Color::named(name@) is None && forall|color: Color|
                    #[trigger] color.name() != normalized_name(s@),
            },
    {
        Color::from_name(s)
    }
}

/// A color mode without the prefix that it may hold.
#[derive(Clone, Copy, Debug, PartialEq, Eq, Structural)]
pub enum ModeKind {
    Plain,
    Html,
    TerminalFg,
    TerminalBg,
}

impl ModeKind {
    /// The mode of this kind, markup without a prefix.
    pub open spec fn mode(self) -> ColorModeView {
        match self {
            ModeKind::Plain => ColorModeView::Plain,
            ModeKind::Html => ColorModeView::Html { prefix: Seq::empty() },
            ModeKind::TerminalFg => ColorModeView::TerminalFg,
            ModeKind::TerminalBg => ColorModeView::TerminalBg,
        }
    }
}

impl ColorMode {

    /// The mode that has the name `name`, if one has: `none`, `html`, `terminalfg` or
    /// `terminalbg`.
    pub open spec fn named(name: Seq<char>) -> Option<ModeKind> {
        if name == "none"@ {
            Some(ModeKind::Plain)
        } else if name == "html"@ {
            Some(ModeKind::Html)
        } else if name == "terminalfg"@ {
            Some(ModeKind::TerminalFg)
        } else if name == "terminalbg"@ {
            Some(ModeKind::TerminalBg)
        } else {
            None
        }
    }

    /// The mode with the name `s`, looked up as the name of a color is; markup has no
    /// prefix then. Else the name as it was looked up.
    pub fn from_name(s: &str) -> (r: Result<ColorMode, String>)
        ensures
            match r {
                Ok(mode) => ColorMode::named(normalized_name(s@)) matches Some(kind) && mode@ == kind.mode(),
                Err(name) => name@ == normalized_name(s@) && ColorMode::named(name@) is None,
            },
    {
        let name = normalize(s);
        if spells(&name, "none") {
            Ok(ColorMode::Plain)
        } else if spells(&name, "html") {
            Ok(ColorMode::Html { prefix: String::new() })
        } else if spells(&name, "terminalfg") {
            Ok(ColorMode::TerminalFg)
        } else if spells(&name, "terminalbg") {
            Ok(ColorMode::TerminalBg)
        } else {
            Err(string_of(&name))
        }
    }
}

impl FromStr for ColorMode {
    type Err = String;

    /// The mode with the name `s`: see `ColorMode::from_name`.
    fn from_str(s: &str) -> (r: Result<ColorMode, String>)
        ensures
            match r {
                Ok(mode) => ColorMode::named(normalized_name(s@)) matches Some(kind) && mode@ == kind.mode(),
                Err(name) => name@ == normalized_name(s@) && ColorMode::named(name@) is None,
            },
    {
        ColorMode::from_name(s)
    }
}

} // verus!
