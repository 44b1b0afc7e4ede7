use spawning_drunagor::monster::fields;
use spawning_drunagor::text::{
    chars_of, eq_str, find, lines, parse_u64, split, string_of, trim_end,
};

fn chars(s: &str) -> Vec<char> {
    s.chars().collect()
}

fn strings(v: Vec<Vec<char>>) -> Vec<String> {
    v.iter().map(|piece| piece.iter().collect()).collect()
}

#[test]
fn strings_and_characters_convert_both_ways() {
    assert_eq!(chars_of("Weiß"), vec!['W', 'e', 'i', 'ß']);
    assert_eq!(chars_of(""), Vec::<char>::new());
    assert_eq!(string_of(&['K', 'ä', 's']), "Käs");
    assert!(eq_str(&chars("self"), "self"));
    assert!(!eq_str(&chars("self"), "sel"));
    assert!(!eq_str(&chars("sel"), "self"));
    assert!(!eq_str(&chars("selF"), "self"));
}

#[test]
fn a_text_is_cut_at_every_separator() {
    assert_eq!(strings(split(&chars("a,b,,c"), ',')), vec!["a", "b", "", "c"]);
    assert_eq!(strings(split(&chars(""), ',')), vec![""]);
    assert_eq!(strings(split(&chars(","), ',')), vec!["", ""]);
    assert_eq!(strings(split(&chars("abc"), ',')), vec!["abc"]);
    assert_eq!(find(&chars("a,b,c"), ',', 0), 1);
    assert_eq!(find(&chars("a,b,c"), ',', 2), 3);
    assert_eq!(find(&chars("a,b,c"), ',', 4), 5);
}

#[test]
fn lines_end_at_line_feeds() {
    assert_eq!(strings(lines(&chars("a\nb\r\n\nc"))), vec!["a", "b", "", "c"]);
    assert_eq!(strings(lines(&chars("a\n"))), vec!["a"]);
    assert_eq!(strings(lines(&chars("\n"))), vec![""]);
    assert_eq!(strings(lines(&chars(""))), Vec::<String>::new());
    assert_eq!(strings(lines(&chars("a\r"))), vec!["a\r"]);
    assert_eq!(strings(lines(&chars("a\rb\n"))), vec!["a\rb"]);
    for text in ["x\ny", "x\r\ny\r\n", "\n\nx", "x\n\n", "\r\n", "only"] {
        let expected: Vec<String> = text.lines().map(|l| l.to_string()).collect();
        assert_eq!(strings(lines(&chars(text))), expected);
    }
}

#[test]
fn commas_at_the_end_of_a_row_are_left_aside() {
    assert_eq!(string_of(&trim_end(&chars("a,b,,"), ',')), "a,b");
    assert_eq!(string_of(&trim_end(&chars(",,,"), ',')), "");
    assert_eq!(string_of(&trim_end(&chars("a"), ',')), "a");
    assert_eq!(strings(fields(&chars("Core,1,X,Y,,,"))), vec!["Core", "1", "X", "Y"]);
    assert_eq!(strings(fields(&chars(",,"))), vec![""]);
    assert_eq!(strings(fields(&chars("a,,b"))), vec!["a", "", "b"]);
}

#[test]
fn a_number_is_read_from_its_digits() {
    assert_eq!(parse_u64(&chars("0")), Some(0));
    assert_eq!(parse_u64(&chars("12")), Some(12));
    assert_eq!(parse_u64(&chars("007")), Some(7));
    assert_eq!(parse_u64(&chars("18446744073709551615")), Some(u64::MAX));
    assert_eq!(parse_u64(&chars("18446744073709551616")), None);
    assert_eq!(parse_u64(&chars("")), None);
    assert_eq!(parse_u64(&chars("+1")), None);
    assert_eq!(parse_u64(&chars("1a")), None);
    assert_eq!(parse_u64(&chars(" 1")), None);
}
