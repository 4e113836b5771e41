use vibrance::{bg, fg, style, Bound, ColouredString, Colourisable, Formatting};

#[test]
fn length_is_the_byte_length_of_the_text() {
    let mut t = fg::red("héllo");
    t.append(style::bold("wörld"));
    t.insert(3, ColouredString::from("✓"));
    assert_eq!(t.len(), t.unformat().len());
    assert_eq!(t.len(), 6 + 6 + 3);
    assert_eq!(t.unformat(), "hé✓llowörld");
}

#[test]
fn plain_text_round_trip() {
    for s in ["", "a", "hello world", "héllo ✓ 🦀", "\x1b[1m"] {
        assert_eq!(ColouredString::from(s).unformat(), s);
        assert_eq!(ColouredString::from(s).len(), s.len());
    }
}

#[test]
fn split_gives_back_the_text_at_every_boundary() {
    let mut t = fg::red("héllo");
    t.append(style::bold("wörld"));
    t.push(ColouredString::from(""));
    t.push(bg::blue("🦀!"));
    let text = t.unformat();
    let mut cuts = 0;
    for k in 0..=t.len() {
        assert_eq!(t.is_boundary(k), text.is_char_boundary(k));
        if t.is_boundary(k) {
            let (left, right) = t.split_2(k);
            assert_eq!(left.len(), k);
            assert_eq!(left.unformat(), &text[..k]);
            assert_eq!(right.unformat(), &text[k..]);
            assert_eq!(left.unformat() + &right.unformat(), text);
            cuts += 1;
        }
    }
    assert_eq!(cuts, text.chars().count() + 1);
    assert!(!t.is_boundary(t.len() + 1));
}

#[test]
fn split_keeps_the_formatting_on_both_sides() {
    let t = style::bold("abcdef");
    let (left, right) = t.split_2(3);
    assert_eq!(left.format(), "\x1b[1mabc\x1b[0m");
    assert_eq!(right.format(), "\x1b[1mdef\x1b[0m");
}

#[test]
fn split_at_the_ends() {
    let t = style::bold("abc");
    let (left, right) = t.split_2(0);
    assert_eq!(left.unformat(), "");
    assert_eq!(left.format(), "");
    assert_eq!(right.format(), "\x1b[1mabc\x1b[0m");
    let (left, right) = t.split_2(3);
    assert_eq!(left.format(), "\x1b[1mabc\x1b[0m");
    assert_eq!(right.unformat(), "");
    assert_eq!(right.format(), "");
}

#[test]
fn split_between_two_parts_cuts_neither() {
    let mut t = fg::red("ab");
    t.append(fg::green("cd"));
    let (left, right) = t.split_2(2);
    assert_eq!(left.format(), "\x1b[31mab\x1b[0m");
    assert_eq!(right.format(), "\x1b[31m\x1b[32mcd\x1b[0m");
}

#[test]
fn split_of_the_empty_text() {
    let t = ColouredString::new();
    assert!(t.is_boundary(0));
    assert!(!t.is_boundary(1));
    let (left, right) = t.split_2(0);
    assert!(left.is_empty());
    assert!(right.is_empty());
}

#[test]
fn split_in_three() {
    let t = ColouredString::from("0123456789");
    let (a, b, c) = t.split_3(Bound::Included(2), Bound::Excluded(5));
    assert_eq!((a.unformat(), b.unformat(), c.unformat()), ("01".into(), "234".into(), "56789".into()));
    let (a, b, c) = t.split_3(Bound::Excluded(2), Bound::Included(5));
    assert_eq!((a.unformat(), b.unformat(), c.unformat()), ("012".into(), "345".into(), "6789".into()));
    let (a, b, c) = t.split_3(Bound::Unbounded, Bound::Unbounded);
    assert_eq!((a.unformat(), b.unformat(), c.unformat()), ("".into(), "0123456789".into(), "".into()));
    let (a, b, c) = t.split_3(Bound::Included(10), Bound::Excluded(10));
    assert_eq!((a.unformat(), b.unformat(), c.unformat()), ("0123456789".into(), "".into(), "".into()));
    let (a, b, c) = t.split_3(Bound::Included(4), Bound::Excluded(4));
    assert_eq!((a.unformat(), b.unformat(), c.unformat()), ("0123".into(), "".into(), "456789".into()));
}

#[test]
fn is_range_says_where_a_range_can_be_taken() {
    let t = fg::red("héllo");
    assert_eq!(t.len(), 6);
    assert!(t.is_range(Bound::Unbounded, Bound::Unbounded));
    assert!(t.is_range(Bound::Included(0), Bound::Excluded(0)));
    assert!(t.is_range(Bound::Included(1), Bound::Excluded(3)));
    assert!(t.is_range(Bound::Excluded(0), Bound::Included(2)));
    assert!(t.is_range(Bound::Included(6), Bound::Excluded(6)));
    assert!(t.is_range(Bound::Included(3), Bound::Included(5)));
    assert!(t.is_range(Bound::Excluded(5), Bound::Unbounded));
    // An end inside the two bytes of the second character.
    assert!(!t.is_range(Bound::Included(2), Bound::Excluded(3)));
    assert!(!t.is_range(Bound::Included(0), Bound::Excluded(2)));
    assert!(!t.is_range(Bound::Excluded(1), Bound::Unbounded));
    assert!(!t.is_range(Bound::Unbounded, Bound::Included(1)));
    // An end before the start.
    assert!(!t.is_range(Bound::Included(4), Bound::Excluded(3)));
    // Ends behind the text.
    assert!(!t.is_range(Bound::Included(0), Bound::Excluded(7)));
    assert!(!t.is_range(Bound::Included(0), Bound::Included(6)));
    assert!(!t.is_range(Bound::Included(7), Bound::Unbounded));
    assert!(!t.is_range(Bound::Excluded(6), Bound::Unbounded));
    assert!(!t.is_range(Bound::Excluded(usize::MAX), Bound::Unbounded));
    assert!(!t.is_range(Bound::Unbounded, Bound::Included(usize::MAX)));
    let empty = ColouredString::new();
    assert!(empty.is_range(Bound::Unbounded, Bound::Unbounded));
    assert!(!empty.is_range(Bound::Unbounded, Bound::Included(0)));
}

#[test]
fn insert_then_remove_gives_back_the_text() {
    let texts = ["", "abc", "héllo ✓"];
    let values = ["", "x", "ö🦀"];
    for text in texts {
        for value in values {
            for i in 0..=text.len() {
                if !text.is_char_boundary(i) {
                    continue;
                }
                let mut t = fg::red(text);
                t.insert(i, style::italic(value));
                assert_eq!(t.len(), text.len() + value.len());
                let removed = t.remove_range(Bound::Included(i), Bound::Excluded(i + value.len()));
                assert_eq!(removed.unformat(), value);
                assert_eq!(t.unformat(), text);
            }
        }
    }
}

#[test]
fn truncate_twice_is_truncate_once() {
    let mut base = fg::red("héllo");
    base.append(style::bold("wörld"));
    for n in 0..=base.len() {
        if !base.is_boundary(n) {
            continue;
        }
        let mut once = base.clone();
        once.truncate(n);
        let mut twice = once.clone();
        twice.truncate(n);
        assert_eq!(once.len(), n);
        assert_eq!(twice.unformat(), once.unformat());
        assert_eq!(twice.format(), once.format());
        assert_eq!(twice.len(), once.len());
    }
}

#[test]
fn truncate_drops_the_formatting_of_nothing_that_is_kept() {
    let mut t = fg::red("abc");
    t.append(fg::green("def"));
    t.truncate(4);
    assert_eq!(t.format(), "\x1b[31mabc\x1b[0m\x1b[31m\x1b[32md\x1b[0m");
    t.truncate(0);
    assert_eq!(t.format(), "");
    assert!(t.is_empty());
}

#[test]
fn remove_range_keeps_the_formatting_of_the_rest() {
    let mut t = style::bold("abcdef");
    let removed = t.remove_range(Bound::Included(2), Bound::Excluded(4));
    assert_eq!(removed.format(), "\x1b[1mcd\x1b[0m");
    assert_eq!(t.unformat(), "abef");
    assert_eq!(t.format(), "\x1b[1m\x1b[1mab\x1b[0m\x1b[1m\x1b[1mef\x1b[0m");
    assert_eq!(t.len(), 4);
}

#[test]
fn replace_range_puts_the_value_under_the_formatting_of_the_text() {
    let mut t = style::bold("abcdef");
    let replaced = t.replace_range(Bound::Included(1), Bound::Included(4), fg::red("X"));
    assert_eq!(replaced.unformat(), "bcde");
    assert_eq!(t.unformat(), "aXf");
    assert_eq!(
        t.format(),
        "\x1b[1m\x1b[1ma\x1b[0m\x1b[1m\x1b[31mX\x1b[0m\x1b[1m\x1b[1mf\x1b[0m"
    );
}

#[test]
fn get_range_changes_nothing() {
    let mut t = style::bold("abcdef");
    let before = t.format();
    let range = t.get_range(Bound::Excluded(0), Bound::Unbounded);
    assert_eq!(range.format(), "\x1b[1mbcdef\x1b[0m");
    assert_eq!(t.format(), before);
}

#[test]
fn insert_leaves_the_value_outside_the_formatting_of_the_text() {
    let mut t = style::bold("abcd");
    t.insert(2, ColouredString::from("-"));
    assert_eq!(t.format(), "\x1b[1mab\x1b[0m-\x1b[0m\x1b[1mcd\x1b[0m");
    t.insert(0, fg::red(">"));
    t.insert(t.len(), fg::red("<"));
    assert_eq!(t.unformat(), ">ab-cd<");
}

#[test]
fn concat_and_append_differ_in_what_the_new_part_inherits() {
    let joined = style::bold("a").concat(fg::red("b"));
    assert_eq!(joined.format(), "\x1b[1ma\x1b[0m\x1b[31mb\x1b[0m");
    let mut grown = style::bold("a");
    grown.append(fg::red("b"));
    assert_eq!(grown.format(), "\x1b[1ma\x1b[0m\x1b[1m\x1b[31mb\x1b[0m");
    let mut pushed = style::bold("a");
    pushed.push(fg::red("b"));
    assert_eq!(pushed.format(), joined.format());
}

#[test]
fn after_text_puts_raw_text_first() {
    let t = ColouredString::after_text("bar", style::bold("baz"));
    assert_eq!(t.unformat(), "barbaz");
    assert_eq!(t.format(), "bar\x1b[0m\x1b[1mbaz\x1b[0m");
    assert_eq!(t.len(), 6);
}

#[test]
fn pop_a_single_byte() {
    let mut t = ColouredString::from("a");
    let last = t.pop();
    assert_eq!(last.unformat(), "a");
    assert!(t.is_empty());
}

#[test]
fn clone_is_a_copy_of_its_own() {
    let source = fg::red("abc").concat(style::bold("def"));
    let mut copy = source.clone();
    assert_eq!(copy.format(), source.format());
    copy.truncate(1);
    assert_eq!(copy.unformat(), "a");
    assert_eq!(source.unformat(), "abcdef");
}

#[test]
fn formatted_puts_new_directives_first() {
    let t = fg::red("x").formatted(vec![Formatting::Bold, Formatting::Italic]);
    assert_eq!(t.format(), "\x1b[1m\x1b[3m\x1b[31mx\x1b[0m");
    let t = bg::cbit_8(fg::cbit_24("x", 1, 2, 3), 200);
    assert_eq!(t.format(), "\x1b[48;5;200m\x1b[38;2;1;2;3mx\x1b[0m");
    let t = String::from("y").formatted(vec![]);
    assert_eq!(t.format(), "y\x1b[0m");
    let t = "z".formatted(vec![Formatting::Underline]);
    assert_eq!(t.format(), "\x1b[4mz\x1b[0m");
    let t = fg::red("x").with_formatting(vec![Formatting::Bold]);
    assert_eq!(t.format(), "\x1b[1m\x1b[31mx\x1b[0m");
}

#[test]
fn every_leaf_is_followed_by_a_reset() {
    let mut t = ColouredString::new();
    t.append(ColouredString::from("a"));
    t.append(ColouredString::from(""));
    t.append(ColouredString::from("b"));
    assert_eq!(t.format(), "a\x1b[0m\x1b[0mb\x1b[0m");
    assert_eq!(t.unformat(), "ab");
}
