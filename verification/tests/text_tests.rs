use riot_rust_api::text::{
    chain, chars_of, contains_str, eq_ignore_ascii_case, parse_u64, split_on, tag_list,
    to_decimal, to_signed_decimal, trim,
};

fn strings(items: &[&str]) -> Vec<String> {
    items.iter().map(|s| s.to_string()).collect()
}

#[test]
fn split_on_keeps_empty_pieces() {
    assert_eq!(split_on("a,b,,c", ','), strings(&["a", "b", "", "c"]));
    assert_eq!(split_on("", ','), strings(&[""]));
    assert_eq!(split_on(",", ','), strings(&["", ""]));
    assert_eq!(split_on("abc", ','), strings(&["abc"]));
    assert_eq!(split_on("a,b,", ','), strings(&["a", "b", ""]));
}

#[test]
fn tag_list_trims_uppercases_and_drops_repeats() {
    assert_eq!(tag_list(" top , Jungle ,top,,  "), strings(&["TOP", "JUNGLE"]));
    assert_eq!(tag_list(""), Vec::<String>::new());
    assert_eq!(tag_list("gold,GOLD, Gold "), strings(&["GOLD"]));
    assert_eq!(tag_list("straße"), strings(&["STRASSE"]));
}

#[test]
fn contains_str_compares_whole_strings() {
    let list = strings(&["TOP", "JUNGLE"]);
    assert!(contains_str(&list, "TOP"));
    assert!(!contains_str(&list, "top"));
    assert!(!contains_str(&list, "TO"));
    assert!(!contains_str(&Vec::new(), ""));
}

#[test]
fn to_decimal_writes_digits() {
    assert_eq!(to_decimal(0), "0");
    assert_eq!(to_decimal(7), "7");
    assert_eq!(to_decimal(100), "100");
    assert_eq!(to_decimal(u64::MAX), "18446744073709551615");
}

#[test]
fn to_signed_decimal_writes_the_sign() {
    assert_eq!(to_signed_decimal(0), "0");
    assert_eq!(to_signed_decimal(-1), "-1");
    assert_eq!(to_signed_decimal(42), "42");
    assert_eq!(to_signed_decimal(i64::MIN), "-9223372036854775808");
    assert_eq!(to_signed_decimal(i64::MAX), "9223372036854775807");
}

#[test]
fn parse_u64_reads_what_the_standard_parser_reads() {
    let cases = [
        "", "+", "-", "0", "+0", "-0", "5", "+5", "05", "120", " 5", "5 ", "1_0", "٣",
        "18446744073709551615", "18446744073709551616", "99999999999999999999999", "1e3", "0x10",
        "++1", "1+",
    ];
    for case in cases {
        assert_eq!(parse_u64(case), case.parse::<u64>().ok(), "on {:?}", case);
    }
    assert_eq!(parse_u64("120"), Some(120));
    assert_eq!(parse_u64("18446744073709551615"), Some(u64::MAX));
    assert_eq!(parse_u64("18446744073709551616"), None);
}

#[test]
fn eq_ignore_ascii_case_folds_ascii_letters_only() {
    let cases = [
        ("TOP", "top"), ("Top", "tOP"), ("TOP", "TOPS"), ("", ""), ("a", "b"), ("é", "É"),
        ("é", "é"), ("@", "`"), ("[", "{"), ("Z", "z"), ("straße", "STRASSE"),
    ];
    for (a, b) in cases {
        assert_eq!(eq_ignore_ascii_case(a, b), a.eq_ignore_ascii_case(b), "on {:?} {:?}", a, b);
    }
    assert!(eq_ignore_ascii_case("JUNGLE", "jungle"));
    assert!(!eq_ignore_ascii_case("JUNGLE", "jungl"));
}

#[test]
fn chars_and_concat_keep_every_character() {
    assert_eq!(chars_of("aé日"), vec!['a', 'é', '日']);
    assert_eq!(chars_of(""), Vec::<char>::new());
    assert_eq!(chain("ab", "cd"), "abcd");
    assert_eq!(chain("", ""), "");
}

#[test]
fn trim_cuts_white_space_at_both_ends_only() {
    let cases = [
        "", " ", "   ", "a", " a", "a ", "  a b  ", "\t\n a \r\n", "\u{a0}x\u{a0}",
        "\u{3000}x y\u{2003}", "\u{200b}x\u{200b}", "\u{85}x", " \u{feff}x ", "x\u{1680}",
    ];
    for case in cases {
        assert_eq!(trim(case), case.trim(), "on {:?}", case);
    }
    assert_eq!(trim("  a b  "), "a b");
    assert_eq!(trim(" \t "), "");
}

#[test]
fn trim_agrees_with_the_standard_library_on_every_character() {
    let mut white = 0;
    for code in 0..=0x10FFFFu32 {
        let Some(c) = char::from_u32(code) else {
            continue;
        };
        let mut text = String::with_capacity(6);
        text.push(c);
        text.push('x');
        let cut = trim(&text);
        assert_eq!(cut, text.trim(), "on U+{:04X}", code);
        if cut.len() == 1 {
            white += 1;
        }
    }
    assert_eq!(white, 25);
}
