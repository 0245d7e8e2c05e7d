use vstd::prelude::*;

verus! {

/// The sixteen named terminal foreground colors.
#[derive(Debug, Copy, Clone, PartialEq, Eq, Structural)]
pub enum Color {
    Black,
    Red,
    Green,
    Yellow,
    Blue,
    Magenta,
    Cyan,
    White,
    BrightBlack,
    BrightRed,
    BrightGreen,
    BrightYellow,
    BrightBlue,
    BrightMagenta,
    BrightCyan,
    BrightWhite,
}

/// The numeric code of a foreground color in the terminal's select-graphic
/// escape sequence.
pub open spec fn color_code(c: Color) -> Seq<char> {
    match c {
        Color::Black => seq!['3', '0'],
        Color::Red => seq!['3', '1'],
        Color::Green => seq!['3', '2'],
        Color::Yellow => seq!['3', '3'],
        Color::Blue => seq!['3', '4'],
        Color::Magenta => seq!['3', '5'],
        Color::Cyan => seq!['3', '6'],
        Color::White => seq!['3', '7'],
        Color::BrightBlack => seq!['9', '0'],
        Color::BrightRed => seq!['9', '1'],
        Color::BrightGreen => seq!['9', '2'],
        Color::BrightYellow => seq!['9', '3'],
        Color::BrightBlue => seq!['9', '4'],
        Color::BrightMagenta => seq!['9', '5'],
        Color::BrightCyan => seq!['9', '6'],
        Color::BrightWhite => seq!['9', '7'],
    }
}

fn color_code_str(c: Color) -> (r: &'static str)
    ensures
        r@ == color_code(c),
{
    proof {
        reveal_strlit("30");
        reveal_strlit("31");
        reveal_strlit("32");
        reveal_strlit("33");
        reveal_strlit("34");
        reveal_strlit("35");
        reveal_strlit("36");
        reveal_strlit("37");
        reveal_strlit("90");
        reveal_strlit("91");
        reveal_strlit("92");
        reveal_strlit("93");
        reveal_strlit("94");
        reveal_strlit("95");
        reveal_strlit("96");
        reveal_strlit("97");
    }
    let r = match c {
        Color::Black => "30",
        Color::Red => "31",
        Color::Green => "32",
        Color::Yellow => "33",
        Color::Blue => "34",
        Color::Magenta => "35",
        Color::Cyan => "36",
        Color::White => "37",
        Color::BrightBlack => "90",
        Color::BrightRed => "91",
        Color::BrightGreen => "92",
        Color::BrightYellow => "93",
        Color::BrightBlue => "94",
        Color::BrightMagenta => "95",
        Color::BrightCyan => "96",
        Color::BrightWhite => "97",
    };
    proof {
        assert(r@ =~= color_code(c));
    }
    r
}

/// The style flags a cell can carry; only the flags this system uses.
#[derive(Debug, Copy, Clone, PartialEq, Eq, Structural)]
pub struct TextStyle {
    pub bold: bool,
    pub underline: bool,
}

impl TextStyle {
    pub open spec fn spec_plain() -> TextStyle {
        TextStyle { bold: false, underline: false }
    }

    pub fn plain() -> (r: TextStyle)
        ensures
            r == TextStyle::spec_plain(),
    {
        TextStyle { bold: false, underline: false }
    }

    /// The union of two sets of flags.
    pub open spec fn spec_merge(self, other: TextStyle) -> TextStyle {
        TextStyle { bold: self.bold || other.bold, underline: self.underline || other.underline }
    }

    pub fn merge(self, other: TextStyle) -> (r: TextStyle)
        ensures
            r == self.spec_merge(other),
    {
        TextStyle { bold: self.bold || other.bold, underline: self.underline || other.underline }
    }
}

impl Default for TextStyle {
    fn default() -> (r: TextStyle)
        ensures
            r == TextStyle::spec_plain(),
    {
        TextStyle { bold: false, underline: false }
    }
}

/// A piece of text together with the color and style it explicitly carries;
/// absent attributes are left for the owning column to fill in.
#[derive(Debug)]
pub struct Styled {
    pub text: String,
    pub color: Option<Color>,
    pub style: TextStyle,
}

impl Styled {
    /// Text that carries no attributes of its own.
    pub fn plain(text: String) -> (r: Styled)
        ensures
            r.text@ == text@,
            r.color is None,
            r.style == TextStyle::spec_plain(),
    {
        Styled { text, color: None, style: TextStyle::plain() }
    }
}

/// The graphic codes a color and style select, in the order they are
/// emitted: bold, underline, then the color.
pub open spec fn style_codes(color: Option<Color>, st: TextStyle) -> Seq<Seq<char>> {
    let bold_part: Seq<Seq<char>> = if st.bold {
        seq![seq!['1']]
    } else {
        Seq::empty()
    };
    let ul_part: Seq<Seq<char>> = if st.underline {
        bold_part + seq![seq!['4']]
    } else {
        bold_part
    };
    match color {
        Some(c) => ul_part + seq![color_code(c)],
        None => ul_part,
    }
}

/// The code pieces joined with semicolons.
pub open spec fn join_codes(parts: Seq<Seq<char>>) -> Seq<char>
    decreases parts.len(),
{
    if parts.len() == 0 {
        Seq::empty()
    } else if parts.len() == 1 {
        parts[0]
    } else {
        parts[0] + seq![';'] + join_codes(parts.drop_first())
    }
}

/// Text wrapped in the escape sequences that select its color and style;
/// text without attributes, and empty text, is emitted bare.
pub open spec fn ansi_wrapped(text: Seq<char>, color: Option<Color>, st: TextStyle) -> Seq<char> {
    if text.len() == 0 || (color is None && !st.bold && !st.underline) {
        text
    } else {
        seq!['\x1b', '['] + join_codes(style_codes(color, st)) + seq!['m'] + text + seq![
            '\x1b',
            '[',
            '0',
            'm',
        ]
    }
}

/// Renders text with the given attributes as one terminal string.
pub fn ansi_paint(text: &str, color: Option<Color>, st: TextStyle) -> (r: String)
    ensures
        r@ == ansi_wrapped(text@, color, st),
{
    if text.is_empty() || (matches!(color, Option::None) && !st.bold && !st.underline) {
        return text.to_owned();
    }
    proof {
        reveal_strlit("\x1b[");
        reveal_strlit("1");
        reveal_strlit("4");
        reveal_strlit("1;");
        reveal_strlit("1;4");
        reveal_strlit("1;4;");
        reveal_strlit("4;");
        reveal_strlit("m");
        reveal_strlit("\x1b[0m");
        assert("\x1b["@ =~= seq!['\x1b', '[']);
        assert("\x1b[0m"@ =~= seq!['\x1b', '[', '0', 'm']);
    }
    let mut s = String::from_str("\x1b[");
    match color {
        Option::None => {
            if st.bold && st.underline {
                s.append("1;4");
                proof {
                    reveal_with_fuel(join_codes, 4);
                    let parts = style_codes(color, st);
                    assert(parts =~= seq![seq!['1'], seq!['4']]);
                    assert(parts.drop_first() =~= seq![seq!['4']]);
                    assert(join_codes(style_codes(color, st)) =~= "1;4"@);
                }
            } else if st.bold {
                s.append("1");
                proof {
                    assert(join_codes(style_codes(color, st)) =~= "1"@);
                }
            } else {
                s.append("4");
                proof {
                    assert(join_codes(style_codes(color, st)) =~= "4"@);
                }
            }
        },
        Option::Some(c) => {
            if st.bold && st.underline {
                s.append("1;4;");
            } else if st.bold {
                s.append("1;");
            } else if st.underline {
                s.append("4;");
            }
            s.append(color_code_str(c));
            proof {
                reveal_with_fuel(join_codes, 4);
                let parts = style_codes(color, st);
                if st.bold && st.underline {
                    assert(parts =~= seq![seq!['1'], seq!['4'], color_code(c)]);
                    assert(parts.drop_first() =~= seq![seq!['4'], color_code(c)]);
                    assert(parts.drop_first().drop_first() =~= seq![color_code(c)]);
                    assert(join_codes(parts) =~= "1;4;"@ + color_code(c));
                } else if st.bold {
                    assert(parts =~= seq![seq!['1'], color_code(c)]);
                    assert(parts.drop_first() =~= seq![color_code(c)]);
                    assert(join_codes(parts) =~= "1;"@ + color_code(c));
                } else if st.underline {
                    assert(parts =~= seq![seq!['4'], color_code(c)]);
                    assert(parts.drop_first() =~= seq![color_code(c)]);
                    assert(join_codes(parts) =~= "4;"@ + color_code(c));
                } else {
                    assert(parts =~= seq![color_code(c)]);
                    assert(join_codes(parts) =~= color_code(c));
                }
            }
        },
    }
    s.append("m");
    s.append(text);
    s.append("\x1b[0m");
    proof {
        assert(s@ =~= ansi_wrapped(text@, color, st));
    }
    s
}

} // verus!
