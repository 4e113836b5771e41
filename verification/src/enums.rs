//! Named colours, text styles and fonts.

use vstd::prelude::*;
use vstd::string::*;
use crate::consts::{decimal, decimal_string, digit, escape_prefix, escape_suffix};

verus! {

/// A colour of the terminal's palette, or one mixed from red, green and
/// blue.
#[derive(Clone, Copy)]
pub enum Colour {
    /// The colour that the terminal uses when none is set.
    Normal,
    Black,
    Red,
    Green,
    Yellow,
    Blue,
    Magenta,
    Cyan,
    White,
    BrightBlack,
    BrightRed,
    BrightGreen,
    BrightYellow,
    BrightBlue,
    BrightMagenta,
    BrightCyan,
    BrightWhite,
    Rgb(u8, u8, u8),
}

/// A way of drawing text.
#[derive(Clone, Copy, PartialEq, Eq, Hash)]
pub enum Style {
    Bold,
    Faint,
    Italic,
    Underline,
    Blink,
    FastBlink,
    Invert,
    Conceal,
    Strikethrough,
}

/// One of the fonts that a terminal can switch between.
#[derive(Clone, Copy)]
pub enum Font {
    Primary,
    Alternative1,
    Alternative2,
    Alternative3,
    Alternative4,
    Alternative5,
    Alternative6,
    Alternative7,
    Alternative8,
    Alternative9,
}

impl Colour {
    /// The last digit of the code of a palette colour.
    pub open spec fn index(self) -> nat {
        match self {
            Colour::Black | Colour::BrightBlack => 0,
            Colour::Red | Colour::BrightRed => 1,
            Colour::Green | Colour::BrightGreen => 2,
            Colour::Yellow | Colour::BrightYellow => 3,
            Colour::Blue | Colour::BrightBlue => 4,
            Colour::Magenta | Colour::BrightMagenta => 5,
            Colour::Cyan | Colour::BrightCyan => 6,
            Colour::White | Colour::BrightWhite => 7,
            Colour::Normal => 9,
            Colour::Rgb(_, _, _) => 8,
        }
    }

    /// Whether this is one of the bright colours of the palette.
    pub open spec fn is_bright(self) -> bool {
        match self {
            Colour::BrightBlack
            | Colour::BrightRed
            | Colour::BrightGreen
            | Colour::BrightYellow
            | Colour::BrightBlue
            | Colour::BrightMagenta
            | Colour::BrightCyan
            | Colour::BrightWhite => true,
            _ => false,
        }
    }

    /// The escape sequence that selects this colour, where `normal` is
    /// the leading text of the codes of the plain colours and `bright` that
    /// of the bright ones. A palette colour is its leading text and its
    /// digit. A mixed colour is `normal`, the digit eight, the number two and
    /// its three channels, with semicolons between the numbers.
    pub open spec fn escape(self, normal: Seq<char>, bright: Seq<char>) -> Seq<char> {
        match self {
            Colour::Rgb(r, g, b) => escape_prefix() + normal + seq!['8', ';', '2', ';']
                + decimal(r as nat) + seq![';'] + decimal(g as nat) + seq![';'] + decimal(
                b as nat,
            ) + escape_suffix(),
            _ => escape_prefix() + (if self.is_bright() {
                bright
            } else {
                normal
            }) + seq![digit(self.index())] + escape_suffix(),
        }
    }

    /// The escape sequence that makes this colour the colour of the text.
    pub open spec fn fg_escape(self) -> Seq<char> {
        self.escape(seq!['3'], seq!['9'])
    }

    /// Returns the escape sequence that makes this colour the colour of
    /// the text.
    pub fn code_fg(&self) -> (code: String)
        ensures
            code@ == self.fg_escape(),
    {
        proof {
            reveal_strlit("3");
            reveal_strlit("9");
            assert("3"@ =~= seq!['3']);
            assert("9"@ =~= seq!['9']);
        }
        self.code("3", "9")
    }

    /// Returns the escape sequence of this colour for the given leading
    /// texts of the codes of plain and of bright colours.
    fn code(&self, normal: &str, bright: &str) -> (code: String)
        ensures
            code@ == self.escape(normal@, bright@),
    {
        proof {
            reveal_strlit("\x1b[");
            reveal_strlit("m");
            reveal_strlit(";");
            reveal_strlit(";2;");
            reveal_strlit("0");
            reveal_strlit("1");
            reveal_strlit("2");
            reveal_strlit("3");
            reveal_strlit("4");
            reveal_strlit("5");
            reveal_strlit("6");
            reveal_strlit("7");
            reveal_strlit("8");
            reveal_strlit("9");
        }
        let mut code = String::from_str("\x1b[");
        if let Colour::Rgb(r, g, b) = self {
            code.append(normal);
            code.append("8");
            code.append(";2;");
            code.append(decimal_string(*r).as_str());
            code.append(";");
            code.append(decimal_string(*g).as_str());
            code.append(";");
            code.append(decimal_string(*b).as_str());
            code.append("m");
            assert(code@ =~= self.escape(normal@, bright@));
            return code;
        }
        let (lead, last): (&str, &str) = match self {
            Colour::Normal => (normal, "9"),
            Colour::Black => (normal, "0"),
            Colour::Red => (normal, "1"),
            Colour::Green => (normal, "2"),
            Colour::Yellow => (normal, "3"),
            Colour::Blue => (normal, "4"),
            Colour::Magenta => (normal, "5"),
            Colour::Cyan => (normal, "6"),
            Colour::White => (normal, "7"),
            Colour::BrightBlack => (bright, "0"),
            Colour::BrightRed => (bright, "1"),
            Colour::BrightGreen => (bright, "2"),
            Colour::BrightYellow => (bright, "3"),
            Colour::BrightBlue => (bright, "4"),
            Colour::BrightMagenta => (bright, "5"),
            Colour::BrightCyan => (bright, "6"),
            Colour::BrightWhite => (bright, "7"),
            Colour::Rgb(_, _, _) => (normal, "8"),
        };
        code.append(lead);
        code.append(last);
        code.append("m");
        assert(code@ =~= self.escape(normal@, bright@));
        code
    }
}

} // verus!
