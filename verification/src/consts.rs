//! Formatting directives and the escape codes they stand for.

use vstd::prelude::*;
use vstd::string::*;

verus! {

/// One directive that changes how a terminal draws the text that follows:
/// a text attribute, a colour, or the reset of one of them.
#[derive(Debug, Clone, Copy)]
pub enum Formatting {
    Normal,
    Bold,
    Faint,
    Italic,
    Underline,
    SlowBlink,
    FastBlink,
    Invert,
    Conceal,
    Strikethrough,
    Overline,
    FgBlack,
    FgRed,
    FgGreen,
    FgYellow,
    FgBlue,
    FgMagenta,
    FgCyan,
    FgWhite,
    FgBrightBlack,
    FgBrightRed,
    FgBrightGreen,
    FgBrightYellow,
    FgBrightBlue,
    FgBrightMagenta,
    FgBrightCyan,
    FgBrightWhite,
    Fg8Bit(u8),
    Fg24Bit(u8, u8, u8),
    BgBlack,
    BgRed,
    BgGreen,
    BgYellow,
    BgBlue,
    BgMagenta,
    BgCyan,
    BgWhite,
    BgBrightBlack,
    BgBrightRed,
    BgBrightGreen,
    BgBrightYellow,
    BgBrightBlue,
    BgBrightMagenta,
    BgBrightCyan,
    BgBrightWhite,
    Bg8Bit(u8),
    Bg24Bit(u8, u8, u8),
    ResetIntensity,
    ResetItalic,
    ResetUnderline,
    ResetSlowBlink,
    ResetFastBlink,
    ResetInvert,
    ResetConceal,
    ResetStrikethrough,
    ResetOverline,
    FgReset,
    BgReset,
}

/// The character that writes the digit `d`.
pub open spec fn digit(d: nat) -> char
    recommends
        d < 10,
{
    if d == 0 {
        '0'
    } else if d == 1 {
        '1'
    } else if d == 2 {
        '2'
    } else if d == 3 {
        '3'
    } else if d == 4 {
        '4'
    } else if d == 5 {
        '5'
    } else if d == 6 {
        '6'
    } else if d == 7 {
        '7'
    } else if d == 8 {
        '8'
    } else {
        '9'
    }
}

/// `n` written in base ten, without leading zeros.
pub open spec fn decimal(n: nat) -> Seq<char>
    decreases n,
{
    if n < 10 {
        seq![digit(n)]
    } else {
        decimal(n / 10).push(digit(n % 10))
    }
}

/// The numbers of `params`, each in base ten, with a semicolon between
/// neighbours.
pub open spec fn join_params(params: Seq<nat>) -> Seq<char>
    decreases params.len(),
{
    if params.len() == 0 {
        Seq::empty()
    } else if params.len() == 1 {
        decimal(params[0])
    } else {
        join_params(params.drop_last()) + seq![';'] + decimal(params.last())
    }
}

/// What opens every escape sequence: the escape character and a bracket.
pub open spec fn escape_prefix() -> Seq<char> {
    seq!['\x1b', '[']
}

/// What closes every escape sequence.
pub open spec fn escape_suffix() -> Seq<char> {
    seq!['m']
}

/// The sequence that switches all formatting off.
pub open spec fn escape_reset() -> Seq<char> {
    seq!['\x1b', '[', '0', 'm']
}

impl Formatting {
    /// The numeric parameters that select this directive.
    pub open spec fn params(self) -> Seq<nat> {
        match self {
            Formatting::Normal => seq![0nat],
            Formatting::Bold => seq![1nat],
            Formatting::Faint => seq![2nat],
            Formatting::Italic => seq![3nat],
            Formatting::Underline => seq![4nat],
            Formatting::SlowBlink => seq![5nat],
            Formatting::FastBlink => seq![6nat],
            Formatting::Invert => seq![7nat],
            Formatting::Conceal => seq![8nat],
            Formatting::Strikethrough => seq![9nat],
            Formatting::Overline => seq![53nat],
            Formatting::FgBlack => seq![30nat],
            Formatting::FgRed => seq![31nat],
            Formatting::FgGreen => seq![32nat],
            Formatting::FgYellow => seq![33nat],
            Formatting::FgBlue => seq![34nat],
            Formatting::FgMagenta => seq![35nat],
            Formatting::FgCyan => seq![36nat],
            Formatting::FgWhite => seq![37nat],
            Formatting::FgBrightBlack => seq![90nat],
            Formatting::FgBrightRed => seq![91nat],
            Formatting::FgBrightGreen => seq![92nat],
            Formatting::FgBrightYellow => seq![93nat],
            Formatting::FgBrightBlue => seq![94nat],
            Formatting::FgBrightMagenta => seq![95nat],
            Formatting::FgBrightCyan => seq![96nat],
            Formatting::FgBrightWhite => seq![97nat],
            Formatting::Fg8Bit(n) => seq![38nat, 5nat, n as nat],
            Formatting::Fg24Bit(r, g, b) => seq![38nat, 2nat, r as nat, g as nat, b as nat],
            Formatting::BgBlack => seq![40nat],
            Formatting::BgRed => seq![41nat],
            Formatting::BgGreen => seq![42nat],
            Formatting::BgYellow => seq![43nat],
            Formatting::BgBlue => seq![44nat],
            Formatting::BgMagenta => seq![45nat],
            Formatting::BgCyan => seq![46nat],
            Formatting::BgWhite => seq![47nat],
            Formatting::BgBrightBlack => seq![100nat],
            Formatting::BgBrightRed => seq![101nat],
            Formatting::BgBrightGreen => seq![102nat],
            Formatting::BgBrightYellow => seq![103nat],
            Formatting::BgBrightBlue => seq![104nat],
            Formatting::BgBrightMagenta => seq![105nat],
            Formatting::BgBrightCyan => seq![106nat],
            Formatting::BgBrightWhite => seq![107nat],
            Formatting::Bg8Bit(n) => seq![48nat, 5nat, n as nat],
            Formatting::Bg24Bit(r, g, b) => seq![48nat, 2nat, r as nat, g as nat, b as nat],
            Formatting::ResetIntensity => seq![21nat],
            Formatting::ResetItalic => seq![23nat],
            Formatting::ResetUnderline => seq![24nat],
            Formatting::ResetSlowBlink => seq![25nat],
            Formatting::ResetFastBlink => seq![26nat],
            Formatting::ResetInvert => seq![27nat],
            Formatting::ResetConceal => seq![28nat],
            Formatting::ResetStrikethrough => seq![29nat],
            Formatting::ResetOverline => seq![55nat],
            Formatting::FgReset => seq![39nat],
            Formatting::BgReset => seq![49nat],
        }
    }

    /// The parameter text of this directive, as it stands between the
    /// bracket and the closing letter of its escape sequence.
    pub open spec fn code(self) -> Seq<char> {
        join_params(self.params())
    }

    /// The whole escape sequence of this directive.
    pub open spec fn escape(self) -> Seq<char> {
        escape_prefix() + self.code() + escape_suffix()
    }
}

/// Three joined numbers are their digits with two semicolons between them.
pub proof fn lemma_join_three(a: nat, b: nat, c: nat)
    ensures
        join_params(seq![a, b, c]) == decimal(a) + seq![';'] + decimal(b) + seq![';'] + decimal(c),
{
    assert(seq![a, b, c].drop_last() =~= seq![a, b]);
    assert(seq![a, b].drop_last() =~= seq![a]);
    reveal_with_fuel(join_params, 3);
}

/// Five joined numbers are their digits with four semicolons between them.
pub proof fn lemma_join_five(a: nat, b: nat, c: nat, d: nat, e: nat)
    ensures
        join_params(seq![a, b, c, d, e]) == decimal(a) + seq![';'] + decimal(b) + seq![';']
            + decimal(c) + seq![';'] + decimal(d) + seq![';'] + decimal(e),
{
    assert(seq![a, b, c, d, e].drop_last() =~= seq![a, b, c, d]);
    assert(seq![a, b, c, d].drop_last() =~= seq![a, b, c]);
    lemma_join_three(a, b, c);
    reveal_with_fuel(join_params, 3);
}

/// The text of the digit `d`.
fn digit_str(d: u8) -> (s: &'static str)
    requires
        d < 10,
    ensures
        s@ == seq![digit(d as nat)],
{
    proof {
        reveal_strlit("0");
        reveal_strlit("1");
        reveal_strlit("2");
        reveal_strlit("3");
        reveal_strlit("4");
        reveal_strlit("5");
        reveal_strlit("6");
        reveal_strlit("7");
        reveal_strlit("8");
        reveal_strlit("9");
    }
    let s = match d {
        0 => "0",
        1 => "1",
        2 => "2",
        3 => "3",
        4 => "4",
        5 => "5",
        6 => "6",
        7 => "7",
        8 => "8",
        _ => "9",
    };
    assert(s@ =~= seq![digit(d as nat)]);
    s
}

/// Writes `n` in base ten.
pub(crate) fn decimal_string(n: u8) -> (s: String)
    ensures
        s@ == decimal(n as nat),
{
    let mut s = String::new();
    if n >= 100 {
        s.append(digit_str(n / 100));
    }
    if n >= 10 {
        s.append(digit_str((n / 10) % 10));
    }
    s.append(digit_str(n % 10));
    proof {
        reveal_with_fuel(decimal, 3);
        assert(s@ =~= decimal(n as nat));
    }
    s
}

/// Writes `lead` and the number `n` behind it.
fn palette_code(lead: &str, n: u8) -> (code: String)
    ensures
        code@ == lead@ + decimal(n as nat),
{
    let mut code = String::from_str(lead);
    code.append(decimal_string(n).as_str());
    code
}

/// Writes `lead` and behind it the numbers `r`, `g` and `b` with
/// semicolons between them.
fn truecolour_code(lead: &str, r: u8, g: u8, b: u8) -> (code: String)
    ensures
        code@ == lead@ + decimal(r as nat) + seq![';'] + decimal(g as nat) + seq![';'] + decimal(
            b as nat,
        ),
{
    proof {
        reveal_strlit(";");
    }
    let mut code = String::from_str(lead);
    code.append(decimal_string(r).as_str());
    code.append(";");
    code.append(decimal_string(g).as_str());
    code.append(";");
    code.append(decimal_string(b).as_str());
    assert(code@ =~= lead@ + decimal(r as nat) + seq![';'] + decimal(g as nat) + seq![';']
        + decimal(b as nat));
    code
}

impl Formatting {
    /// Returns the parameter text of this directive.
    pub fn get_code(&self) -> (code: String)
        ensures
            code@ == self.code(),
    {
        proof {
            reveal_with_fuel(decimal, 3);
            reveal_strlit("0");
            reveal_strlit("1");
            reveal_strlit("2");
            reveal_strlit("3");
            reveal_strlit("4");
            reveal_strlit("5");
            reveal_strlit("6");
            reveal_strlit("7");
            reveal_strlit("8");
            reveal_strlit("9");
            reveal_strlit("21");
            reveal_strlit("23");
            reveal_strlit("24");
            reveal_strlit("25");
            reveal_strlit("26");
            reveal_strlit("27");
            reveal_strlit("28");
            reveal_strlit("29");
            reveal_strlit("30");
            reveal_strlit("31");
            reveal_strlit("32");
            reveal_strlit("33");
            reveal_strlit("34");
            reveal_strlit("35");
            reveal_strlit("36");
            reveal_strlit("37");
            reveal_strlit("39");
            reveal_strlit("40");
            reveal_strlit("41");
            reveal_strlit("42");
            reveal_strlit("43");
            reveal_strlit("44");
            reveal_strlit("45");
            reveal_strlit("46");
            reveal_strlit("47");
            reveal_strlit("49");
            reveal_strlit("53");
            reveal_strlit("55");
            reveal_strlit("90");
            reveal_strlit("91");
            reveal_strlit("92");
            reveal_strlit("93");
            reveal_strlit("94");
            reveal_strlit("95");
            reveal_strlit("96");
            reveal_strlit("97");
            reveal_strlit("100");
            reveal_strlit("101");
            reveal_strlit("102");
            reveal_strlit("103");
            reveal_strlit("104");
            reveal_strlit("105");
            reveal_strlit("106");
            reveal_strlit("107");
            reveal_strlit("38;5;");
            reveal_strlit("38;2;");
            reveal_strlit("48;5;");
            reveal_strlit("48;2;");
        }
        let code = match self {
            Formatting::Normal => String::from_str("0"),
            Formatting::Bold => String::from_str("1"),
            Formatting::Faint => String::from_str("2"),
            Formatting::Italic => String::from_str("3"),
            Formatting::Underline => String::from_str("4"),
            Formatting::SlowBlink => String::from_str("5"),
            Formatting::FastBlink => String::from_str("6"),
            Formatting::Invert => String::from_str("7"),
            Formatting::Conceal => String::from_str("8"),
            Formatting::Strikethrough => String::from_str("9"),
            Formatting::Overline => String::from_str("53"),
            Formatting::FgBlack => String::from_str("30"),
            Formatting::FgRed => String::from_str("31"),
            Formatting::FgGreen => String::from_str("32"),
            Formatting::FgYellow => String::from_str("33"),
            Formatting::FgBlue => String::from_str("34"),
            Formatting::FgMagenta => String::from_str("35"),
            Formatting::FgCyan => String::from_str("36"),
            Formatting::FgWhite => String::from_str("37"),
            Formatting::FgBrightBlack => String::from_str("90"),
            Formatting::FgBrightRed => String::from_str("91"),
            Formatting::FgBrightGreen => String::from_str("92"),
            Formatting::FgBrightYellow => String::from_str("93"),
            Formatting::FgBrightBlue => String::from_str("94"),
            Formatting::FgBrightMagenta => String::from_str("95"),
            Formatting::FgBrightCyan => String::from_str("96"),
            Formatting::FgBrightWhite => String::from_str("97"),
            Formatting::Fg8Bit(n) => {
                proof {
                    lemma_join_three(38, 5, *n as nat);
                }
                palette_code("38;5;", *n)
            },
            Formatting::Fg24Bit(r, g, b) => {
                proof {
                    lemma_join_five(38, 2, *r as nat, *g as nat, *b as nat);
                }
                truecolour_code("38;2;", *r, *g, *b)
            },
            Formatting::BgBlack => String::from_str("40"),
            Formatting::BgRed => String::from_str("41"),
            Formatting::BgGreen => String::from_str("42"),
            Formatting::BgYellow => String::from_str("43"),
            Formatting::BgBlue => String::from_str("44"),
            Formatting::BgMagenta => String::from_str("45"),
            Formatting::BgCyan => String::from_str("46"),
            Formatting::BgWhite => String::from_str("47"),
            Formatting::BgBrightBlack => String::from_str("100"),
            Formatting::BgBrightRed => String::from_str("101"),
            Formatting::BgBrightGreen => String::from_str("102"),
            Formatting::BgBrightYellow => String::from_str("103"),
            Formatting::BgBrightBlue => String::from_str("104"),
            Formatting::BgBrightMagenta => String::from_str("105"),
            Formatting::BgBrightCyan => String::from_str("106"),
            Formatting::BgBrightWhite => String::from_str("107"),
            Formatting::Bg8Bit(n) => {
                proof {
                    lemma_join_three(48, 5, *n as nat);
                }
                palette_code("48;5;", *n)
            },
            Formatting::Bg24Bit(r, g, b) => {
                proof {
                    lemma_join_five(48, 2, *r as nat, *g as nat, *b as nat);
                }
                truecolour_code("48;2;", *r, *g, *b)
            },
            Formatting::ResetIntensity => String::from_str("21"),
            Formatting::ResetItalic => String::from_str("23"),
            Formatting::ResetUnderline => String::from_str("24"),
            Formatting::ResetSlowBlink => String::from_str("25"),
            Formatting::ResetFastBlink => String::from_str("26"),
            Formatting::ResetInvert => String::from_str("27"),
            Formatting::ResetConceal => String::from_str("28"),
            Formatting::ResetStrikethrough => String::from_str("29"),
            Formatting::ResetOverline => String::from_str("55"),
            Formatting::FgReset => String::from_str("39"),
            Formatting::BgReset => String::from_str("49"),
        };
        assert(code@ =~= self.code());
        code
    }

    /// Returns the whole escape sequence of this directive.
    pub fn to_string(&self) -> (text: String)
        ensures
            text@ == self.escape(),
    {
        proof {
            reveal_strlit("\x1b[");
            reveal_strlit("m");
        }
        let mut text = String::from_str("\x1b[");
        text.append(self.get_code().as_str());
        text.append("m");
        assert(text@ =~= self.escape());
        text
    }
}

} // verus!
