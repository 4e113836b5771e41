use vibrance::{Colour, Formatting};

#[test]
fn attribute_codes() {
    assert_eq!(Formatting::Normal.get_code(), "0");
    assert_eq!(Formatting::Bold.get_code(), "1");
    assert_eq!(Formatting::Faint.get_code(), "2");
    assert_eq!(Formatting::Italic.get_code(), "3");
    assert_eq!(Formatting::Underline.get_code(), "4");
    assert_eq!(Formatting::SlowBlink.get_code(), "5");
    assert_eq!(Formatting::FastBlink.get_code(), "6");
    assert_eq!(Formatting::Invert.get_code(), "7");
    assert_eq!(Formatting::Conceal.get_code(), "8");
    assert_eq!(Formatting::Strikethrough.get_code(), "9");
    assert_eq!(Formatting::Overline.get_code(), "53");
}

#[test]
fn reset_codes() {
    assert_eq!(Formatting::ResetIntensity.get_code(), "21");
    assert_eq!(Formatting::ResetItalic.get_code(), "23");
    assert_eq!(Formatting::ResetUnderline.get_code(), "24");
    assert_eq!(Formatting::ResetSlowBlink.get_code(), "25");
    assert_eq!(Formatting::ResetFastBlink.get_code(), "26");
    assert_eq!(Formatting::ResetInvert.get_code(), "27");
    assert_eq!(Formatting::ResetConceal.get_code(), "28");
    assert_eq!(Formatting::ResetStrikethrough.get_code(), "29");
    assert_eq!(Formatting::ResetOverline.get_code(), "55");
    assert_eq!(Formatting::FgReset.get_code(), "39");
    assert_eq!(Formatting::BgReset.get_code(), "49");
}

#[test]
fn foreground_codes() {
    let plain = [
        Formatting::FgBlack,
        Formatting::FgRed,
        Formatting::FgGreen,
        Formatting::FgYellow,
        Formatting::FgBlue,
        Formatting::FgMagenta,
        Formatting::FgCyan,
        Formatting::FgWhite,
    ];
    let bright = [
        Formatting::FgBrightBlack,
        Formatting::FgBrightRed,
        Formatting::FgBrightGreen,
        Formatting::FgBrightYellow,
        Formatting::FgBrightBlue,
        Formatting::FgBrightMagenta,
        Formatting::FgBrightCyan,
        Formatting::FgBrightWhite,
    ];
    for i in 0..8 {
        assert_eq!(plain[i].get_code(), format!("{}", 30 + i));
        assert_eq!(bright[i].get_code(), format!("{}", 90 + i));
    }
}

#[test]
fn background_codes() {
    let plain = [
        Formatting::BgBlack,
        Formatting::BgRed,
        Formatting::BgGreen,
        Formatting::BgYellow,
        Formatting::BgBlue,
        Formatting::BgMagenta,
        Formatting::BgCyan,
        Formatting::BgWhite,
    ];
    let bright = [
        Formatting::BgBrightBlack,
        Formatting::BgBrightRed,
        Formatting::BgBrightGreen,
        Formatting::BgBrightYellow,
        Formatting::BgBrightBlue,
        Formatting::BgBrightMagenta,
        Formatting::BgBrightCyan,
        Formatting::BgBrightWhite,
    ];
    for i in 0..8 {
        assert_eq!(plain[i].get_code(), format!("{}", 40 + i));
        assert_eq!(bright[i].get_code(), format!("{}", 100 + i));
    }
}

#[test]
fn palette_codes_for_every_number() {
    for n in 0..=255u8 {
        assert_eq!(Formatting::Fg8Bit(n).get_code(), format!("38;5;{}", n));
        assert_eq!(Formatting::Bg8Bit(n).get_code(), format!("48;5;{}", n));
    }
}

#[test]
fn truecolour_codes() {
    assert_eq!(Formatting::Fg24Bit(0, 0, 0).get_code(), "38;2;0;0;0");
    assert_eq!(Formatting::Fg24Bit(255, 128, 7).get_code(), "38;2;255;128;7");
    assert_eq!(Formatting::Bg24Bit(1, 20, 100).get_code(), "48;2;1;20;100");
    assert_eq!(Formatting::Bg24Bit(99, 10, 9).get_code(), "48;2;99;10;9");
}

#[test]
fn escape_sequences() {
    assert_eq!(Formatting::Bold.to_string(), "\x1b[1m");
    assert_eq!(Formatting::Normal.to_string(), "\x1b[0m");
    assert_eq!(Formatting::BgBrightWhite.to_string(), "\x1b[107m");
    assert_eq!(Formatting::Fg8Bit(200).to_string(), "\x1b[38;5;200m");
    assert_eq!(Formatting::Fg24Bit(1, 2, 3).to_string(), "\x1b[38;2;1;2;3m");
}

#[test]
fn directives_can_be_copied() {
    let a = Formatting::Fg8Bit(7);
    let b = a;
    let c = a.clone();
    assert_eq!(b.get_code(), c.get_code());
    assert_eq!(format!("{:?}", a), "Fg8Bit(7)");
}

#[test]
fn colour_escape_sequences() {
    assert_eq!(Colour::Normal.code_fg(), "\x1b[39m");
    assert_eq!(Colour::Black.code_fg(), "\x1b[30m");
    assert_eq!(Colour::Red.code_fg(), "\x1b[31m");
    assert_eq!(Colour::Green.code_fg(), "\x1b[32m");
    assert_eq!(Colour::Yellow.code_fg(), "\x1b[33m");
    assert_eq!(Colour::Blue.code_fg(), "\x1b[34m");
    assert_eq!(Colour::Magenta.code_fg(), "\x1b[35m");
    assert_eq!(Colour::Cyan.code_fg(), "\x1b[36m");
    assert_eq!(Colour::White.code_fg(), "\x1b[37m");
    assert_eq!(Colour::BrightBlack.code_fg(), "\x1b[90m");
    assert_eq!(Colour::BrightRed.code_fg(), "\x1b[91m");
    assert_eq!(Colour::BrightGreen.code_fg(), "\x1b[92m");
    assert_eq!(Colour::BrightYellow.code_fg(), "\x1b[93m");
    assert_eq!(Colour::BrightBlue.code_fg(), "\x1b[94m");
    assert_eq!(Colour::BrightMagenta.code_fg(), "\x1b[95m");
    assert_eq!(Colour::BrightCyan.code_fg(), "\x1b[96m");
    assert_eq!(Colour::BrightWhite.code_fg(), "\x1b[97m");
    assert_eq!(Colour::Rgb(1, 20, 255).code_fg(), "\x1b[38;2;1;20;255m");
    assert_eq!(Colour::Rgb(1, 2, 3).code_fg(), "\x1b[38;2;1;2;3m");
    assert_eq!(Colour::Rgb(0, 0, 0).code_fg(), "\x1b[38;2;0;0;0m");
}
