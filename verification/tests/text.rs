use drone_logbook::text::{
    chars_of, contains, ends_with, eq_ignore_ascii_case, find_char, same_text, split, starts_with,
    string_of, trim,
};
use drone_logbook::csv::{find_filled, is_blank_line, read_rows, split_header};
use drone_logbook::parser::normalize_serial;
use drone_logbook::sync::is_log_file_name;

fn chars(s: &str) -> Vec<char> {
    s.chars().collect()
}

#[test]
fn strings_and_characters() {
    assert_eq!(chars_of("héllo"), chars("héllo"));
    assert_eq!(string_of(&chars("héllo")), "héllo");
    assert_eq!(chars_of(""), Vec::<char>::new());
}

#[test]
fn trimming_takes_the_white_space_off_both_ends() {
    for text in ["", " ", "a", "  a b  ", "\t\r\na\u{a0}", "\u{3000}x\u{2003}", "a  ", "  a", " \u{1680} "] {
        assert_eq!(string_of(&trim(&chars(text))), text.trim(), "{:?}", text);
    }
}

#[test]
fn splitting_gives_one_field_more_than_separators() {
    for text in ["", ",", "a", "a,b", ",a,,b,", "a, b ,c", ",,,"] {
        let expected: Vec<String> = text.split(',').map(|s| s.to_string()).collect();
        assert_eq!(split(text, ','), expected, "{:?}", text);
    }
    assert_eq!(split("a_b_c", '_'), vec!["a", "b", "c"]);
}

#[test]
fn searching() {
    let text = chars("time_s,lat,lng");
    assert!(contains(&text, &chars("lat")));
    assert!(contains(&text, &chars("")));
    assert!(contains(&text, &chars("time_s,lat,lng")));
    assert!(!contains(&text, &chars("latitude")));
    assert!(!contains(&chars(""), &chars("a")));
    assert!(contains(&chars(""), &chars("")));
    assert!(starts_with(&text, &chars("time")));
    assert!(!starts_with(&text, &chars("lat")));
    assert!(ends_with(&text, &chars("lng")));
    assert!(!ends_with(&text, &chars("lat")));
    assert!(!ends_with(&chars("ng"), &chars("lng")));
    assert_eq!(find_char(&text, ','), 6);
    assert_eq!(find_char(&text, 'x'), 14);
    assert!(same_text(&chars("abc"), &chars("abc")));
    assert!(!same_text(&chars("abc"), &chars("abd")));
    assert!(!same_text(&chars("abc"), &chars("ab")));
}

#[test]
fn extensions_are_compared_whatever_the_case_of_their_letters() {
    for (a, b) in [("csv", "CSV"), ("Csv", "cSV"), ("txt", "TXT"), ("", ""), ("csv", "cs"), ("csv", "txt"), ("K", "\u{212a}")] {
        assert_eq!(eq_ignore_ascii_case(&chars(a), &chars(b)), a.eq_ignore_ascii_case(b), "{:?} {:?}", a, b);
    }
}

#[test]
fn lower_and_upper_case_are_those_of_unicode() {
    assert!(is_log_file_name("FLIGHT.TXT"));
    assert!(is_log_file_name("Flight.Csv"));
    assert!(is_log_file_name(".csv"));
    assert!(!is_log_file_name("flight.log"));
    assert!(!is_log_file_name("csv"));
    assert_eq!(normalize_serial("  1zabc9é  "), Some("1ZABC9É".to_string()));
    assert_eq!(normalize_serial(" \t "), None);
    assert_eq!(normalize_serial(""), None);
}

#[test]
fn header_lines_and_rows() {
    assert_eq!(split_header(" time_s , lat,lng "), vec!["time_s", "lat", "lng"]);
    assert!(is_blank_line("  \t"));
    assert!(is_blank_line(""));
    assert!(!is_blank_line(" x "));
    let lines: Vec<String> = ["", "  ", "a,b,c,d", "", "1,2", "3", " ", "4,5,6,7,8", "x, y "]
        .iter()
        .map(|s| s.to_string())
        .collect();
    assert_eq!(find_filled(&lines, 0), 2);
    assert_eq!(find_filled(&lines, 3), 4);
    assert_eq!(find_filled(&lines, 9), 9);
    assert_eq!(find_filled(&lines, 100), 9);
    // Four columns: a row needs two fields at least.
    let rows = read_rows(&lines, 3, 4);
    assert_eq!(rows, vec![vec!["1", "2"], vec!["4", "5", "6", "7", "8"], vec!["x", " y "]]);
    assert_eq!(read_rows(&lines, 9, 4), Vec::<Vec<String>>::new());
    assert_eq!(read_rows(&lines, 4, 1).len(), 4);
}

#[test]
fn white_space_is_what_unicode_says() {
    let table = |c: char| {
        matches!(c, '\u{9}'..='\u{d}' | ' ' | '\u{85}' | '\u{a0}' | '\u{1680}' | '\u{2000}'..='\u{200a}'
            | '\u{2028}' | '\u{2029}' | '\u{202f}' | '\u{205f}' | '\u{3000}')
    };
    for code in 0..=0x10_ffffu32 {
        if let Some(c) = char::from_u32(code) {
            let gone = drone_logbook::text::trim(&vec![c]).is_empty();
            assert_eq!(gone, table(c), "U+{:04X}", code);
        }
    }
}

#[test]
fn ascii_text_changes_case_letter_by_letter() {
    for code in 0..128u32 {
        let c = char::from_u32(code).unwrap();
        let map = drone_logbook::litchi_parser::ColumnMap::new(&vec![format!("a{}b", c)]);
        let expected = format!("a{}b", c.to_ascii_lowercase());
        if c != '(' {
            assert_eq!(map.names, vec![expected], "U+{:04X}", code);
        }
        let serial = drone_logbook::parser::normalize_serial(&format!("a{}b", c));
        assert_eq!(serial, Some(format!("A{}B", c.to_ascii_uppercase())), "U+{:04X}", code);
    }
}
