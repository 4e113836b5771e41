use vibrance::{bg, fg, ColouredString, Colourisable, Formatting};

struct MyString;

impl Colourisable for MyString {
    fn formatted(self, formatting: Vec<Formatting>) -> ColouredString {
        ColouredString::from_formatting("my_string", formatting)
    }
}

#[test]
fn a_type_of_the_caller_can_be_formatted() {
    let t = fg::red(MyString);
    assert_eq!(t.format(), "\x1b[31mmy_string\x1b[0m");
    assert_eq!(MyString.formatted(vec![]).unformat(), "my_string");
    assert_eq!(bg::green(fg::red(MyString)).format(), "\x1b[42m\x1b[31mmy_string\x1b[0m");
}
