use vibrance::{bg, fg, style};

#[test]
fn style_functions() {
    assert_eq!(style::bold("x").format(), "\x1b[1mx\x1b[0m");
    assert_eq!(style::faint("x").format(), "\x1b[2mx\x1b[0m");
    assert_eq!(style::italic("x").format(), "\x1b[3mx\x1b[0m");
    assert_eq!(style::underline("x").format(), "\x1b[4mx\x1b[0m");
    assert_eq!(style::slow_blink("x").format(), "\x1b[5mx\x1b[0m");
    assert_eq!(style::fast_blink("x").format(), "\x1b[6mx\x1b[0m");
    assert_eq!(style::invert("x").format(), "\x1b[7mx\x1b[0m");
    assert_eq!(style::conceal("x").format(), "\x1b[8mx\x1b[0m");
    assert_eq!(style::strikethrough("x").format(), "\x1b[9mx\x1b[0m");
    assert_eq!(style::overline("x").format(), "\x1b[53mx\x1b[0m");
}

#[test]
fn style_reset_functions() {
    assert_eq!(style::reset::intensity("x").format(), "\x1b[21mx\x1b[0m");
    assert_eq!(style::reset::italic("x").format(), "\x1b[23mx\x1b[0m");
    assert_eq!(style::reset::underline("x").format(), "\x1b[24mx\x1b[0m");
    assert_eq!(style::reset::slow_blink("x").format(), "\x1b[25mx\x1b[0m");
    assert_eq!(style::reset::fast_blink("x").format(), "\x1b[26mx\x1b[0m");
    assert_eq!(style::reset::invert("x").format(), "\x1b[27mx\x1b[0m");
    assert_eq!(style::reset::conceal("x").format(), "\x1b[28mx\x1b[0m");
    assert_eq!(style::reset::strikethrough("x").format(), "\x1b[29mx\x1b[0m");
    assert_eq!(style::reset::overline("x").format(), "\x1b[55mx\x1b[0m");
}

#[test]
fn foreground_functions() {
    assert_eq!(fg::black("x").format(), "\x1b[30mx\x1b[0m");
    assert_eq!(fg::red("x").format(), "\x1b[31mx\x1b[0m");
    assert_eq!(fg::green("x").format(), "\x1b[32mx\x1b[0m");
    assert_eq!(fg::yellow("x").format(), "\x1b[33mx\x1b[0m");
    assert_eq!(fg::blue("x").format(), "\x1b[34mx\x1b[0m");
    assert_eq!(fg::magenta("x").format(), "\x1b[35mx\x1b[0m");
    assert_eq!(fg::cyan("x").format(), "\x1b[36mx\x1b[0m");
    assert_eq!(fg::white("x").format(), "\x1b[37mx\x1b[0m");
    assert_eq!(fg::bright_black("x").format(), "\x1b[90mx\x1b[0m");
    assert_eq!(fg::bright_red("x").format(), "\x1b[91mx\x1b[0m");
    assert_eq!(fg::bright_green("x").format(), "\x1b[92mx\x1b[0m");
    assert_eq!(fg::bright_yellow("x").format(), "\x1b[93mx\x1b[0m");
    assert_eq!(fg::bright_blue("x").format(), "\x1b[94mx\x1b[0m");
    assert_eq!(fg::bright_magenta("x").format(), "\x1b[95mx\x1b[0m");
    assert_eq!(fg::bright_cyan("x").format(), "\x1b[96mx\x1b[0m");
    assert_eq!(fg::bright_white("x").format(), "\x1b[97mx\x1b[0m");
    assert_eq!(fg::cbit_8("x", 17).format(), "\x1b[38;5;17mx\x1b[0m");
    assert_eq!(fg::cbit_24("x", 1, 22, 233).format(), "\x1b[38;2;1;22;233mx\x1b[0m");
    assert_eq!(fg::reset("x").format(), "\x1b[39mx\x1b[0m");
}

#[test]
fn background_functions() {
    assert_eq!(bg::black("x").format(), "\x1b[40mx\x1b[0m");
    assert_eq!(bg::red("x").format(), "\x1b[41mx\x1b[0m");
    assert_eq!(bg::green("x").format(), "\x1b[42mx\x1b[0m");
    assert_eq!(bg::yellow("x").format(), "\x1b[43mx\x1b[0m");
    assert_eq!(bg::blue("x").format(), "\x1b[44mx\x1b[0m");
    assert_eq!(bg::magenta("x").format(), "\x1b[45mx\x1b[0m");
    assert_eq!(bg::cyan("x").format(), "\x1b[46mx\x1b[0m");
    assert_eq!(bg::white("x").format(), "\x1b[47mx\x1b[0m");
    assert_eq!(bg::bright_black("x").format(), "\x1b[100mx\x1b[0m");
    assert_eq!(bg::bright_red("x").format(), "\x1b[101mx\x1b[0m");
    assert_eq!(bg::bright_green("x").format(), "\x1b[102mx\x1b[0m");
    assert_eq!(bg::bright_yellow("x").format(), "\x1b[103mx\x1b[0m");
    assert_eq!(bg::bright_blue("x").format(), "\x1b[104mx\x1b[0m");
    assert_eq!(bg::bright_magenta("x").format(), "\x1b[105mx\x1b[0m");
    assert_eq!(bg::bright_cyan("x").format(), "\x1b[106mx\x1b[0m");
    assert_eq!(bg::bright_white("x").format(), "\x1b[107mx\x1b[0m");
    assert_eq!(bg::cbit_8("x", 0).format(), "\x1b[48;5;0mx\x1b[0m");
    assert_eq!(bg::cbit_24("x", 255, 255, 255).format(), "\x1b[48;2;255;255;255mx\x1b[0m");
    assert_eq!(bg::reset("x").format(), "\x1b[49mx\x1b[0m");
}

#[test]
fn functions_nest() {
    let t = style::invert(fg::red(bg::blue(style::bold("@"))));
    assert_eq!(t.format(), "\x1b[7m\x1b[31m\x1b[44m\x1b[1m@\x1b[0m");
    assert_eq!(t.unformat(), "@");
    let t = fg::red(String::from("s"));
    assert_eq!(t.format(), "\x1b[31ms\x1b[0m");
}
