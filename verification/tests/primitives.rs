use doxx::cell::{float_literal, remove_char, same_chars, u32_literal};
use doxx::scan::{
    byte_len, byte_len_of, char_is_ascii_digit, char_is_ascii_letter, char_is_ascii_punctuation,
    contains, count_occurrences, count_words, ends_with, has_char, index_of, matches_at,
    starts_with, to_ascii_lower, to_ascii_lowercase, width_of,
};
use doxx::search::find_in;
use doxx::text::{
    append_chars, char_is_white_space, chars_of, copy_range, string_of, trim_range, trimmed,
    trimmed_start,
};

fn chars(s: &str) -> Vec<char> {
    s.chars().collect()
}

fn samples() -> Vec<&'static str> {
    vec![
        "",
        " ",
        "a",
        "  a  ",
        "\t\n a b \r\n",
        "\u{a0}x\u{2003}y\u{3000}",
        "\u{85}\u{1680}\u{2028}\u{2029}\u{202f}\u{205f}",
        "\u{200b}zero width\u{feff}",
        "one two  three\tfour\nfive",
        "héllo wörld",
        "🚀 rocket 🎉",
        "a. b. c. d",
        "....",
        "x . y .  z",
        "1.2.3",
        "and and and",
        " and ",
        "aaaa",
        "abababab",
    ]
}

#[test]
fn white_space_is_what_the_standard_library_says() {
    for code in 0..=0x10FFFFu32 {
        if let Some(c) = char::from_u32(code) {
            assert_eq!(char_is_white_space(c), c.is_whitespace(), "U+{code:04X}");
        }
    }
}

#[test]
fn widths_are_those_of_utf8() {
    for code in 0..=0x10FFFFu32 {
        if let Some(c) = char::from_u32(code) {
            assert_eq!(width_of(c) as usize, c.len_utf8(), "U+{code:04X}");
        }
    }
    for s in samples() {
        assert_eq!(byte_len(s), s.len());
        assert_eq!(byte_len_of(&chars(s)), s.len() as u128);
    }
}

#[test]
fn ascii_classes_are_those_of_the_standard_library() {
    for code in 0..=0x10FFFFu32 {
        if let Some(c) = char::from_u32(code) {
            assert_eq!(char_is_ascii_digit(c), c.is_ascii_digit());
            assert_eq!(char_is_ascii_letter(c), c.is_ascii_alphabetic());
            assert_eq!(char_is_ascii_punctuation(c), c.is_ascii_punctuation());
            assert_eq!(to_ascii_lower(c), c.to_ascii_lowercase());
        }
    }
    for s in samples() {
        assert_eq!(string_of(&to_ascii_lowercase(&chars(s))), s.to_ascii_lowercase());
    }
    assert_eq!(string_of(&to_ascii_lowercase(&chars("ÀBC Déf"))), "Àbc déf");
}

#[test]
fn conversions_keep_the_characters() {
    for s in samples() {
        assert_eq!(chars_of(s), chars(s));
        assert_eq!(string_of(&chars(s)), s);
    }
    assert_eq!(copy_range(&chars("abcdef"), 2, 4), chars("cd"));
    assert_eq!(copy_range(&chars("abcdef"), 3, 3), chars(""));
    let mut buf = chars("ab");
    append_chars(&mut buf, &chars("cd"));
    assert_eq!(buf, chars("abcd"));
}

#[test]
fn trimming_is_that_of_the_standard_library() {
    for s in samples() {
        assert_eq!(string_of(&trimmed(&chars(s))), s.trim(), "for {s:?}");
        assert_eq!(string_of(&trimmed_start(&chars(s))), s.trim_start(), "for {s:?}");
        let (a, b) = trim_range(&chars(s));
        assert_eq!(string_of(&chars(s)[a..b]), s.trim());
    }
}

#[test]
fn words_are_counted_as_by_splitting() {
    for s in samples() {
        assert_eq!(count_words(&chars(s)), s.split_whitespace().count(), "for {s:?}");
    }
}

#[test]
fn scanning_is_that_of_the_standard_library() {
    let patterns = ["", " ", "a", ". ", "and", " and ", "ab", "aa", "é", "🚀", "zzz"];
    for s in samples() {
        for p in patterns {
            let (sc, pc) = (chars(s), chars(p));
            assert_eq!(starts_with(&sc, &pc), s.starts_with(p), "{s:?} starts with {p:?}");
            assert_eq!(contains(&sc, &pc), s.contains(p), "{s:?} contains {p:?}");
            assert_eq!(matches_at(&sc, &pc, 0), s.starts_with(p));
            let found = find_in(&sc, &pc).map(|i| sc[..i].iter().collect::<String>().len());
            assert_eq!(found, s.find(p), "{p:?} in {s:?}");
            if !p.is_empty() {
                assert_eq!(
                    count_occurrences(&sc, &pc),
                    s.matches(p).count(),
                    "{p:?} in {s:?}"
                );
            }
        }
        for c in ['.', ' ', 'a', 'é', '🚀', 'z'] {
            let sc = chars(s);
            assert_eq!(has_char(&sc, c), s.contains(c));
            assert_eq!(ends_with(&sc, c), s.ends_with(c));
            let expected = s.chars().position(|x| x == c).unwrap_or(sc.len());
            assert_eq!(index_of(&sc, c), expected);
        }
    }
    assert!(matches_at(&chars("abc"), &chars("bc"), 1));
    assert!(!matches_at(&chars("abc"), &chars("bc"), 2));
    assert!(!matches_at(&chars("abc"), &chars("bc"), 9));
    assert_eq!(count_occurrences(&chars("aaa"), &chars("")), 0);
}

#[test]
fn number_literals_are_those_that_parse() {
    let texts = [
        "", "0", "1", "01", "+1", "-1", "++1", "+", "-", "1.5", ".5", "5.", ".", "1e5", "1E5",
        "1e+5", "1e-5", "1e", "e5", "1e5e5", "1.5.5", "inf", "+inf", "-inf", "Infinity", "infinit",
        "nan", "NaN", "+nan", "na", "4294967295", "4294967296", "99999999999999999999", "12a",
        " 1", "1 ", "0x1", "1_0", "１２", "١", "1.e3", "+.5e-3", "-.e3", "..1", "1e+", "infinityy",
    ];
    for t in texts {
        assert_eq!(float_literal(&chars(t)), t.parse::<f64>().is_ok(), "float {t:?}");
        assert_eq!(u32_literal(&chars(t)), t.parse::<u32>().is_ok(), "u32 {t:?}");
    }
}

#[test]
fn characters_are_removed_and_compared() {
    assert_eq!(remove_char(&chars("1,234,567"), ','), chars("1234567"));
    assert_eq!(remove_char(&chars(",,"), ','), chars(""));
    assert_eq!(remove_char(&chars("abc"), ','), chars("abc"));
    assert!(same_chars(&chars("abc"), &chars("abc")));
    assert!(!same_chars(&chars("abc"), &chars("abd")));
    assert!(!same_chars(&chars("abc"), &chars("ab")));
    assert!(same_chars(&chars(""), &chars("")));
}

#[test]
fn lower_case_reaches_ascii_from_two_characters_only() {
    let mut reaching = Vec::new();
    for code in 0x80..=0x10FFFFu32 {
        if let Some(c) = char::from_u32(code) {
            if c.to_lowercase().any(|l| l.is_ascii()) {
                reaching.push(code);
            }
        }
    }
    assert_eq!(reaching, vec![0x130, 0x212A]);
}

#[test]
fn keywords_are_found_as_by_lower_casing() {
    let keywords = ["name", "date", "amount", "type", "status", "id", "description", "count"];
    let cells = [
        "one two three four NAME",
        "one two three four İD",
        "one two three four ıd",
        "one two three four Id",
        "one two three four statİ",
        "one two three four DESCRİPTİON",
        "one two three four \u{212A}ount",
        "one two three four no keyword here",
        "one two three four Ｎａｍｅ",
        "one two three four TYPE-A",
    ];
    for cell in cells {
        let lower = cell.to_lowercase();
        let expected = keywords.iter().any(|k| lower.contains(k));
        let got = doxx::table::appears_to_be_header(&[cell.to_string()]);
        assert_eq!(got, expected, "for {cell:?}");
    }
    for word in ["TRUE", "Yes", "yeS", "N", "İ", "\u{212A}", "truE ", "FALSE", "nO"] {
        let lower = word.trim().to_lowercase();
        let expected = matches!(lower.as_str(), "true" | "false" | "yes" | "no" | "y" | "n");
        let got = doxx::cell::detect_cell_data_type(word) == doxx::model::CellDataType::Boolean;
        assert_eq!(got, expected, "for {word:?}");
    }
}
