//! Colors, styles and their SGR encoding.

use crate::text::{decimal, join, lemma_join_push, push_char, push_decimal};
use vstd::prelude::*;

verus! {

/// A terminal color: one of the sixteen palette names, an index into the
/// 256-color table, a 24-bit color given by channel or packed, or `Reset`.
#[derive(PartialEq, Eq, Clone, Copy, Debug, Structural)]
pub enum Color {
    Black,
    Red,
    Green,
    Yellow,
    Blue,
    Purple,
    Cyan,
    White,
    BrightBlack,
    BrightRed,
    BrightGreen,
    BrightYellow,
    BrightBlue,
    BrightPurple,
    BrightCyan,
    BrightWhite,
    Fixed(u8),
    RGB(u8, u8, u8),
    Hex(u32),
    Reset,
}

/// The red channel of a packed color: bits 16 to 23.
pub open spec fn hex_red(hex: u32) -> u8 {
    ((hex / 0x1_0000) % 0x100) as u8
}

/// The green channel of a packed color: bits 8 to 15.
pub open spec fn hex_green(hex: u32) -> u8 {
    ((hex / 0x100) % 0x100) as u8
}

/// The blue channel of a packed color: bits 0 to 7.
pub open spec fn hex_blue(hex: u32) -> u8 {
    (hex % 0x100) as u8
}

/// Three channels as decimal numerals with a semicolon between them.
pub open spec fn channels(r: u8, g: u8, b: u8) -> Seq<char> {
    decimal(r as nat).push(';') + decimal(g as nat).push(';') + decimal(b as nat)
}

impl Color {
    /// The SGR parameters that select this color for the foreground.
    ///
    /// A palette name has a fixed number; an index and a channel triple
    /// follow the prefixes `38;5;` and `38;2;`; a packed value is written
    /// as its channels are; `Reset` is written as white is.
    pub open spec fn fg_code(self) -> Seq<char> {
        match self {
            Color::Black => "30"@,
            Color::Red => "31"@,
            Color::Green => "32"@,
            Color::Yellow => "33"@,
            Color::Blue => "34"@,
            Color::Purple => "35"@,
            Color::Cyan => "36"@,
            Color::White => "37"@,
            Color::BrightBlack => "90"@,
            Color::BrightRed => "91"@,
            Color::BrightGreen => "92"@,
            Color::BrightYellow => "93"@,
            Color::BrightBlue => "94"@,
            Color::BrightPurple => "95"@,
            Color::BrightCyan => "96"@,
            Color::BrightWhite => "97"@,
            Color::Fixed(index) => "38;5;"@ + decimal(index as nat),
            Color::RGB(r, g, b) => "38;2;"@ + channels(r, g, b),
            Color::Hex(hex) => "38;2;"@ + channels(hex_red(hex), hex_green(hex), hex_blue(hex)),
            Color::Reset => "37"@,
        }
    }

    /// The SGR parameters that select this color for the background.
    ///
    /// As for the foreground, with the numbers of the background table and
    /// the prefixes `48;5;` and `48;2;`.
    pub open spec fn bg_code(self) -> Seq<char> {
        match self {
            Color::Black => "40"@,
            Color::Red => "41"@,
            Color::Green => "42"@,
            Color::Yellow => "43"@,
            Color::Blue => "44"@,
            Color::Purple => "45"@,
            Color::Cyan => "46"@,
            Color::White => "47"@,
            Color::BrightBlack => "100"@,
            Color::BrightRed => "101"@,
            Color::BrightGreen => "102"@,
            Color::BrightYellow => "103"@,
            Color::BrightBlue => "104"@,
            Color::BrightPurple => "105"@,
            Color::BrightCyan => "106"@,
            Color::BrightWhite => "107"@,
            Color::Fixed(index) => "48;5;"@ + decimal(index as nat),
            Color::RGB(r, g, b) => "48;2;"@ + channels(r, g, b),
            Color::Hex(hex) => "48;2;"@ + channels(hex_red(hex), hex_green(hex), hex_blue(hex)),
            Color::Reset => "47"@,
        }
    }

    /// The style whose one setting is this color as the foreground.
    pub fn to_style_fg(self) -> (style: Style)
        ensures
            style == Style::plain().fg(self),
    {
        Style::new().fg(self)
    }

    /// The style whose one setting is this color as the background.
    pub fn to_style_bg(self) -> (style: Style)
        ensures
            style == Style::plain().bg(self),
    {
        Style::new().bg(self)
    }

    /// The escape sequence that selects this color for the foreground and
    /// sets nothing else.
    pub open spec fn escape_sequence(self) -> Seq<char> {
        Style::plain().fg(self).escape_sequence()
    }

    /// The text that makes this color the foreground on a terminal.
    pub fn to_escape_string(&self) -> (sequence: String)
        ensures
            sequence@ == self.escape_sequence(),
    {
        self.to_style_fg().gen()
    }

    /// Unpacks a 24-bit value into its three channels. Bits above the 24th
    /// are ignored.
    pub fn hex_to_rgb(hex: u32) -> (c: Color)
        ensures
            c == Color::RGB(hex_red(hex), hex_green(hex), hex_blue(hex)),
    {
        let (r, g, b) = hex_channels(hex);
        Color::RGB(r, g, b)
    }

    /// The foreground parameters of this color, as text.
    pub fn as_fg(&self) -> (code: String)
        ensures
            code@ == self.fg_code(),
    {
        match *self {
            Color::Black => String::from_str("30"),
            Color::Red => String::from_str("31"),
            Color::Green => String::from_str("32"),
            Color::Yellow => String::from_str("33"),
            Color::Blue => String::from_str("34"),
            Color::Purple => String::from_str("35"),
            Color::Cyan => String::from_str("36"),
            Color::White => String::from_str("37"),
            Color::BrightBlack => String::from_str("90"),
            Color::BrightRed => String::from_str("91"),
            Color::BrightGreen => String::from_str("92"),
            Color::BrightYellow => String::from_str("93"),
            Color::BrightBlue => String::from_str("94"),
            Color::BrightPurple => String::from_str("95"),
            Color::BrightCyan => String::from_str("96"),
            Color::BrightWhite => String::from_str("97"),
            Color::Fixed(index) => {
                let mut code = String::from_str("38;5;");
                push_decimal(&mut code, index);
                code
            },
            Color::RGB(r, g, b) => true_color("38;2;", r, g, b),
            Color::Hex(hex) => {
                let (r, g, b) = hex_channels(hex);
                true_color("38;2;", r, g, b)
            },
            Color::Reset => String::from_str("37"),
        }
    }

    /// The background parameters of this color, as text.
    pub fn as_bg(&self) -> (code: String)
        ensures
            code@ == self.bg_code(),
    {
        match *self {
            Color::Black => String::from_str("40"),
            Color::Red => String::from_str("41"),
            Color::Green => String::from_str("42"),
            Color::Yellow => String::from_str("43"),
            Color::Blue => String::from_str("44"),
            Color::Purple => String::from_str("45"),
            Color::Cyan => String::from_str("46"),
            Color::White => String::from_str("47"),
            Color::BrightBlack => String::from_str("100"),
            Color::BrightRed => String::from_str("101"),
            Color::BrightGreen => String::from_str("102"),
            Color::BrightYellow => String::from_str("103"),
            Color::BrightBlue => String::from_str("104"),
            Color::BrightPurple => String::from_str("105"),
            Color::BrightCyan => String::from_str("106"),
            Color::BrightWhite => String::from_str("107"),
            Color::Fixed(index) => {
                let mut code = String::from_str("48;5;");
                push_decimal(&mut code, index);
                code
            },
            Color::RGB(r, g, b) => true_color("48;2;", r, g, b),
            Color::Hex(hex) => {
                let (r, g, b) = hex_channels(hex);
                true_color("48;2;", r, g, b)
            },
            Color::Reset => String::from_str("47"),
        }
    }
}

/// The three channels of a packed color, by shifting and masking.
fn hex_channels(hex: u32) -> (rgb: (u8, u8, u8))
    ensures
        rgb == (hex_red(hex), hex_green(hex), hex_blue(hex)),
{
    proof {
        lemma_hex_channels_are_bytes(hex);
    }
    let r: u32 = (hex >> 16u32) & 0xFF;
    let g: u32 = (hex >> 8u32) & 0xFF;
    let b: u32 = hex & 0xFF;
    (r as u8, g as u8, b as u8)
}

/// The parameters of a 24-bit color: the prefix, then the channels.
fn true_color(prefix: &str, r: u8, g: u8, b: u8) -> (code: String)
    ensures
        code@ == prefix@ + channels(r, g, b),
{
    let mut code = String::from_str(prefix);
    push_decimal(&mut code, r);
    push_char(&mut code, ';');
    push_decimal(&mut code, g);
    push_char(&mut code, ';');
    push_decimal(&mut code, b);
    code
}

/// A set of display attributes: an optional foreground and background
/// color, eight attributes that are on or off, and the request to reset
/// the terminal's attributes first.
///
/// A style is a plain value. Each setter returns a copy in which one field
/// differs.
#[derive(PartialEq, Eq, Clone, Copy, Debug, Structural)]
pub struct Style {
    pub fg: Option<Color>,
    pub bg: Option<Color>,
    pub overwrite: bool,
    pub bold: bool,
    pub dim: bool,
    pub italic: bool,
    pub underline: bool,
    pub blink: bool,
    pub invert: bool,
    pub hide: bool,
    pub strikethrough: bool,
}

/// One parameter if `on`, none otherwise.
pub open spec fn flag_part(on: bool, code: Seq<char>) -> Seq<Seq<char>> {
    if on {
        seq![code]
    } else {
        Seq::empty()
    }
}

/// The background parameters of a color that is set, none otherwise.
#[verifier::opaque]
pub open spec fn bg_part(color: Option<Color>) -> Seq<Seq<char>> {
    match color {
        Some(c) => seq![c.bg_code()],
        None => Seq::empty(),
    }
}

/// The foreground parameters of a color that is set, none otherwise.
#[verifier::opaque]
pub open spec fn fg_part(color: Option<Color>) -> Seq<Seq<char>> {
    match color {
        Some(c) => seq![c.fg_code()],
        None => Seq::empty(),
    }
}

impl Style {
    /// The style with no color and no attribute.
    pub open spec fn plain() -> Style {
        Style {
            fg: None,
            bg: None,
            overwrite: false,
            bold: false,
            dim: false,
            italic: false,
            underline: false,
            blink: false,
            invert: false,
            hide: false,
            strikethrough: false,
        }
    }

    /// The SGR parameters of this style, in the order in which they are
    /// written: the reset, the attributes by rising number, the background,
    /// the foreground.
    pub open spec fn codes(self) -> Seq<Seq<char>> {
        flag_part(self.overwrite, "0"@)
            + flag_part(self.bold, "1"@)
            + flag_part(self.dim, "2"@)
            + flag_part(self.italic, "3"@)
            + flag_part(self.underline, "4"@)
            + flag_part(self.blink, "5"@)
            + flag_part(self.invert, "7"@)
            + flag_part(self.hide, "8"@)
            + flag_part(self.strikethrough, "9"@)
            + bg_part(self.bg)
            + fg_part(self.fg)
    }

    /// The escape sequence of this style: `ESC [`, the parameters joined by
    /// semicolons, and `m`.
    pub open spec fn escape_sequence(self) -> Seq<char> {
        "\x1b["@ + join(self.codes(), ';') + "m"@
    }

    /// A style with nothing set.
    pub fn new() -> (style: Style)
        ensures
            style == Style::plain(),
    {
        Style::default()
    }

    /// This style with `c` as its foreground.
    pub open spec fn spec_fg(self, c: Color) -> Style {
        Style { fg: Some(c), ..self }
    }

    /// Sets the foreground color.
    #[verifier::when_used_as_spec(spec_fg)]
    pub fn fg(self, c: Color) -> (style: Style)
        ensures
            style == self.spec_fg(c),
    {
        Style { fg: Some(c), ..self }
    }

    /// This style without a foreground.
    pub open spec fn spec_clear_fg(self) -> Style {
        Style { fg: None, ..self }
    }

    /// Removes the foreground color.
    #[verifier::when_used_as_spec(spec_clear_fg)]
    pub fn clear_fg(self) -> (style: Style)
        ensures
            style == self.spec_clear_fg(),
    {
        Style { fg: None, ..self }
    }

    /// This style with `c` as its background.
    pub open spec fn spec_bg(self, c: Color) -> Style {
        Style { bg: Some(c), ..self }
    }

    /// Sets the background color.
    #[verifier::when_used_as_spec(spec_bg)]
    pub fn bg(self, c: Color) -> (style: Style)
        ensures
            style == self.spec_bg(c),
    {
        Style { bg: Some(c), ..self }
    }

    /// This style without a background.
    pub open spec fn spec_clear_bg(self) -> Style {
        Style { bg: None, ..self }
    }

    /// Removes the background color.
    #[verifier::when_used_as_spec(spec_clear_bg)]
    pub fn clear_bg(self) -> (style: Style)
        ensures
            style == self.spec_clear_bg(),
    {
        Style { bg: None, ..self }
    }

    /// This style with the reset asked for.
    pub open spec fn spec_overwrite(self) -> Style {
        Style { overwrite: true, ..self }
    }

    /// Asks for a reset of all attributes before this style's own are
    /// applied.
    #[verifier::when_used_as_spec(spec_overwrite)]
    pub fn overwrite(self) -> (style: Style)
        ensures
            style == self.spec_overwrite(),
    {
        Style { overwrite: true, ..self }
    }

    /// This style with bold on.
    pub open spec fn spec_bold(self) -> Style {
        Style { bold: true, ..self }
    }

    /// Turns bold on.
    #[verifier::when_used_as_spec(spec_bold)]
    pub fn bold(self) -> (style: Style)
        ensures
            style == self.spec_bold(),
    {
        Style { bold: true, ..self }
    }

    /// This style with dim on.
    pub open spec fn spec_dim(self) -> Style {
        Style { dim: true, ..self }
    }

    /// Turns dim on.
    #[verifier::when_used_as_spec(spec_dim)]
    pub fn dim(self) -> (style: Style)
        ensures
            style == self.spec_dim(),
    {
        Style { dim: true, ..self }
    }

    /// This style with italic on.
    pub open spec fn spec_italic(self) -> Style {
        Style { italic: true, ..self }
    }

    /// Turns italic on.
    #[verifier::when_used_as_spec(spec_italic)]
    pub fn italic(self) -> (style: Style)
        ensures
            style == self.spec_italic(),
    {
        Style { italic: true, ..self }
    }

    /// This style with underline on.
    pub open spec fn spec_underline(self) -> Style {
        Style { underline: true, ..self }
    }

    /// Turns underline on.
    #[verifier::when_used_as_spec(spec_underline)]
    pub fn underline(self) -> (style: Style)
        ensures
            style == self.spec_underline(),
    {
        Style { underline: true, ..self }
    }

    /// This style with blinking on.
    pub open spec fn spec_blink(self) -> Style {
        Style { blink: true, ..self }
    }

    /// Turns blinking on.
    #[verifier::when_used_as_spec(spec_blink)]
    pub fn blink(self) -> (style: Style)
        ensures
            style == self.spec_blink(),
    {
        Style { blink: true, ..self }
    }

    /// This style with the colors swapped.
    pub open spec fn spec_invert(self) -> Style {
        Style { invert: true, ..self }
    }

    /// Swaps foreground and background when the text is drawn; the stored
    /// colors stay.
    #[verifier::when_used_as_spec(spec_invert)]
    pub fn invert(self) -> (style: Style)
        ensures
            style == self.spec_invert(),
    {
        Style { invert: true, ..self }
    }

    /// This style with the text hidden.
    pub open spec fn spec_hidden(self) -> Style {
        Style { hide: true, ..self }
    }

    /// Hides the text: it is there, but not shown.
    #[verifier::when_used_as_spec(spec_hidden)]
    pub fn hidden(self) -> (style: Style)
        ensures
            style == self.spec_hidden(),
    {
        Style { hide: true, ..self }
    }

    /// This style with strike-through on.
    pub open spec fn spec_strikethrough(self) -> Style {
        Style { strikethrough: true, ..self }
    }

    /// Turns strike-through on.
    #[verifier::when_used_as_spec(spec_strikethrough)]
    pub fn strikethrough(self) -> (style: Style)
        ensures
            style == self.spec_strikethrough(),
    {
        Style { strikethrough: true, ..self }
    }

    /// Writes the style as one escape sequence.
    pub fn gen(&self) -> (sequence: String)
        ensures
            sequence@ == self.escape_sequence(),
    {
        let mut s = String::from_str("\x1b[");
        let mut has_written = false;
        write_first(&mut s, &mut has_written, self.overwrite, "0");
        let ghost mut parts = flag_part(self.overwrite, "0"@);
        write_code(&mut s, &mut has_written, self.bold, "1", Ghost(parts));
        proof {
            parts = parts + flag_part(self.bold, "1"@);
        }
        write_code(&mut s, &mut has_written, self.dim, "2", Ghost(parts));
        proof {
            parts = parts + flag_part(self.dim, "2"@);
        }
        write_code(&mut s, &mut has_written, self.italic, "3", Ghost(parts));
        proof {
            parts = parts + flag_part(self.italic, "3"@);
        }
        write_code(&mut s, &mut has_written, self.underline, "4", Ghost(parts));
        proof {
            parts = parts + flag_part(self.underline, "4"@);
        }
        write_code(&mut s, &mut has_written, self.blink, "5", Ghost(parts));
        proof {
            parts = parts + flag_part(self.blink, "5"@);
        }
        write_code(&mut s, &mut has_written, self.invert, "7", Ghost(parts));
        proof {
            parts = parts + flag_part(self.invert, "7"@);
        }
        write_code(&mut s, &mut has_written, self.hide, "8", Ghost(parts));
        proof {
            parts = parts + flag_part(self.hide, "8"@);
        }
        write_code(&mut s, &mut has_written, self.strikethrough, "9", Ghost(parts));
        proof {
            parts = parts + flag_part(self.strikethrough, "9"@);
        }

        write_bg(&mut s, &mut has_written, self.bg, Ghost(parts));
        proof {
            parts = parts + bg_part(self.bg);
        }
        write_fg(&mut s, &mut has_written, self.fg, Ghost(parts));
        proof {
            parts = parts + fg_part(self.fg);
        }

        proof {
            lemma_written_all(s@, has_written, parts);
        }
        s.append("m");
        s
    }

    /// The text that puts this style into effect on a terminal.
    pub fn to_escape_string(&self) -> (sequence: String)
        ensures
            sequence@ == self.escape_sequence(),
    {
        self.gen()
    }
}

impl Default for Style {
    /// A style with nothing set.
    fn default() -> (style: Style)
        ensures
            style == Style::plain(),
    {
        Style {
            fg: None,
            bg: None,
            overwrite: false,
            bold: false,
            dim: false,
            italic: false,
            underline: false,
            blink: false,
            invert: false,
            hide: false,
            strikethrough: false,
        }
    }
}

/// What holds while a sequence is written: `out` is the introducer and the
/// parameters `parts` joined, and `has_written` tells whether there are any.
#[verifier::opaque]
spec fn written(out: Seq<char>, has_written: bool, parts: Seq<Seq<char>>) -> bool {
    &&& out == "\x1b["@ + join(parts, ';')
    &&& has_written == (parts.len() > 0)
}

/// What was written is the introducer and the parameters joined.
proof fn lemma_written_all(out: Seq<char>, has_written: bool, parts: Seq<Seq<char>>)
    requires
        written(out, has_written, parts),
    ensures
        out == "\x1b["@ + join(parts, ';'),
{
    reveal(written);
}

/// Appends one parameter to a sequence under construction if it is `on`,
/// after a semicolon if a parameter was written before it.
fn write_code(
    out: &mut String,
    has_written: &mut bool,
    on: bool,
    code: &str,
    Ghost(parts): Ghost<Seq<Seq<char>>>,
)
    requires
        written(old(out)@, *old(has_written), parts),
    ensures
        written(final(out)@, *final(has_written), parts + flag_part(on, code@)),
{
    proof {
        reveal(written);
        lemma_join_push(parts, code@, ';');
    }
    if on {
        if *has_written {
            push_char(out, ';');
        } else {
            assert(parts =~= Seq::empty());
        }
        *has_written = true;
        out.append(code);
        assert(parts + flag_part(on, code@) =~= parts.push(code@));
        assert(out@ =~= "\x1b["@ + join(parts.push(code@), ';'));
    }
}

/// Appends the first parameter that a sequence may hold, after the
/// introducer alone.
fn write_first(out: &mut String, has_written: &mut bool, on: bool, code: &str)
    requires
        old(out)@ == "\x1b["@,
        !*old(has_written),
    ensures
        written(final(out)@, *final(has_written), flag_part(on, code@)),
{
    proof {
        reveal(written);
        lemma_join_push(Seq::empty(), code@, ';');
    }
    write_code(out, has_written, on, code, Ghost(Seq::empty()));
}

/// Appends the background parameters of a color that is set.
fn write_bg(
    out: &mut String,
    has_written: &mut bool,
    bg: Option<Color>,
    Ghost(parts): Ghost<Seq<Seq<char>>>,
)
    requires
        written(old(out)@, *old(has_written), parts),
    ensures
        written(final(out)@, *final(has_written), parts + bg_part(bg)),
{
    proof {
        reveal(bg_part);
    }
    if let Some(color) = bg {
        let code = color.as_bg();
        write_code(out, has_written, true, code.as_str(), Ghost(parts));
    }
}

/// Appends the foreground parameters of a color that is set.
fn write_fg(
    out: &mut String,
    has_written: &mut bool,
    fg: Option<Color>,
    Ghost(parts): Ghost<Seq<Seq<char>>>,
)
    requires
        written(old(out)@, *old(has_written), parts),
    ensures
        written(final(out)@, *final(has_written), parts + fg_part(fg)),
{
    proof {
        reveal(fg_part);
    }
    if let Some(color) = fg {
        let code = color.as_fg();
        write_code(out, has_written, true, code.as_str(), Ghost(parts));
    }
}

/// The place of a palette name in the table of sixteen: the eight normal
/// colors from black to white, then the eight bright ones in the same
/// order. `None` for a color that is no palette name.
pub open spec fn palette_index(c: Color) -> Option<nat> {
    match c {
        Color::Black => Some(0),
        Color::Red => Some(1),
        Color::Green => Some(2),
        Color::Yellow => Some(3),
        Color::Blue => Some(4),
        Color::Purple => Some(5),
        Color::Cyan => Some(6),
        Color::White => Some(7),
        Color::BrightBlack => Some(8),
        Color::BrightRed => Some(9),
        Color::BrightGreen => Some(10),
        Color::BrightYellow => Some(11),
        Color::BrightBlue => Some(12),
        Color::BrightPurple => Some(13),
        Color::BrightCyan => Some(14),
        Color::BrightWhite => Some(15),
        _ => None,
    }
}

/// The SGR number that selects entry `index` of the palette for the
/// foreground: 30 to 37 for the normal colors, 90 to 97 for the bright.
pub open spec fn foreground_number(index: nat) -> nat {
    if index < 8 {
        30 + index
    } else {
        (82 + index) as nat
    }
}

/// The packed value whose channels are `r`, `g` and `b`.
pub open spec fn pack_rgb(r: u8, g: u8, b: u8) -> u32 {
    (r * 0x1_0000 + g * 0x100 + b) as u32
}

/// The table of palette names follows the numbering of the SGR standard:
/// the foreground code of a name is the numeral of its foreground number,
/// and its background code is the numeral of the number ten above.
pub proof fn lemma_palette_codes(c: Color)
    requires
        palette_index(c) is Some,
    ensures
        c.fg_code() == decimal(foreground_number(palette_index(c).unwrap())),
        c.bg_code() == decimal(foreground_number(palette_index(c).unwrap()) + 10),
{
    reveal_with_fuel(decimal, 3);
    reveal_strlit("30");
    reveal_strlit("31");
    reveal_strlit("32");
    reveal_strlit("33");
    reveal_strlit("34");
    reveal_strlit("35");
    reveal_strlit("36");
    reveal_strlit("37");
    reveal_strlit("90");
    reveal_strlit("91");
    reveal_strlit("92");
    reveal_strlit("93");
    reveal_strlit("94");
    reveal_strlit("95");
    reveal_strlit("96");
    reveal_strlit("97");
    reveal_strlit("40");
    reveal_strlit("41");
    reveal_strlit("42");
    reveal_strlit("43");
    reveal_strlit("44");
    reveal_strlit("45");
    reveal_strlit("46");
    reveal_strlit("47");
    reveal_strlit("100");
    reveal_strlit("101");
    reveal_strlit("102");
    reveal_strlit("103");
    reveal_strlit("104");
    reveal_strlit("105");
    reveal_strlit("106");
    reveal_strlit("107");
}

/// `Reset` is written as white is, for the foreground and the background.
pub proof fn lemma_reset_is_white()
    ensures
        Color::Reset.fg_code() == Color::White.fg_code(),
        Color::Reset.bg_code() == Color::White.bg_code(),
{
}

/// A packed color is written as the color of its channels is.
pub proof fn lemma_hex_is_rgb(hex: u32)
    ensures
        Color::Hex(hex).fg_code() == Color::RGB(
            hex_red(hex),
            hex_green(hex),
            hex_blue(hex),
        ).fg_code(),
        Color::Hex(hex).bg_code() == Color::RGB(
            hex_red(hex),
            hex_green(hex),
            hex_blue(hex),
        ).bg_code(),
{
}

/// Packing three channels and unpacking the result gives them back.
pub proof fn lemma_pack_round_trip(r: u8, g: u8, b: u8)
    ensures
        hex_red(pack_rgb(r, g, b)) == r,
        hex_green(pack_rgb(r, g, b)) == g,
        hex_blue(pack_rgb(r, g, b)) == b,
{
    let wide_r = r as u32;
    let wide_g = g as u32;
    let wide_b = b as u32;
    let hex = pack_rgb(r, g, b);
    assert((hex / 0x1_0000) % 0x100 == wide_r && (hex / 0x100) % 0x100 == wide_g && hex % 0x100
        == wide_b) by (bit_vector)
        requires
            wide_r < 0x100,
            wide_g < 0x100,
            wide_b < 0x100,
            hex == wide_r * 0x1_0000 + wide_g * 0x100 + wide_b,
    ;
}

/// A color written by its channels and the same color written packed
/// have the same codes.
pub proof fn lemma_packed_is_written_as_rgb(r: u8, g: u8, b: u8)
    ensures
        Color::Hex(pack_rgb(r, g, b)).fg_code() == Color::RGB(r, g, b).fg_code(),
        Color::Hex(pack_rgb(r, g, b)).bg_code() == Color::RGB(r, g, b).bg_code(),
{
    lemma_pack_round_trip(r, g, b);
}

/// The channels of a packed color are its three low bytes.
pub proof fn lemma_hex_channels_are_bytes(hex: u32)
    ensures
        hex_red(hex) == (hex >> 16u32) & 0xFF,
        hex_green(hex) == (hex >> 8u32) & 0xFF,
        hex_blue(hex) == hex & 0xFF,
{
    assert((hex / 0x1_0000) % 0x100 == (hex >> 16u32) & 0xFF && (hex / 0x100) % 0x100 == (hex
        >> 8u32) & 0xFF && hex % 0x100 == hex & 0xFF) by (bit_vector);
}

/// Applying a setter a second time, with the same color where it takes
/// one, changes nothing.
pub proof fn lemma_setters_idempotent(s: Style, c: Color)
    ensures
        s.fg(c).fg(c) == s.fg(c),
        s.bg(c).bg(c) == s.bg(c),
        s.clear_fg().clear_fg() == s.clear_fg(),
        s.clear_bg().clear_bg() == s.clear_bg(),
        s.overwrite().overwrite() == s.overwrite(),
        s.bold().bold() == s.bold(),
        s.dim().dim() == s.dim(),
        s.italic().italic() == s.italic(),
        s.underline().underline() == s.underline(),
        s.blink().blink() == s.blink(),
        s.invert().invert() == s.invert(),
        s.hidden().hidden() == s.hidden(),
        s.strikethrough().strikethrough() == s.strikethrough(),
{
}

/// A style with nothing set is written as the introducer and `m`, with no
/// parameter between them.
pub proof fn lemma_plain_sequence()
    ensures
        Style::plain().escape_sequence() == "\x1b[m"@,
{
    reveal(bg_part);
    reveal(fg_part);
    reveal_strlit("\x1b[");
    reveal_strlit("m");
    reveal_strlit("\x1b[m");
    lemma_join_push(Seq::empty(), Seq::empty(), ';');
}

} // verus!
