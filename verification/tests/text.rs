use rust_server::text::{
    contains_chars, decimal_string, ends_with_chars, find_char, from_chars, matches_at, normalize,
    replace_non_alphanumeric, slice_chars, split_lines, starts_with_chars, str_contains, to_chars,
    trim_chars, trim_str,
};

fn chars(s: &str) -> Vec<char> {
    s.chars().collect()
}

fn text(v: &Vec<char>) -> String {
    v.iter().collect()
}

#[test]
fn characters_round_trip() {
    assert_eq!(to_chars("aé😀"), vec!['a', 'é', '😀']);
    assert_eq!(from_chars(&vec!['a', 'é', '😀']), "aé😀");
    assert_eq!(to_chars(""), Vec::<char>::new());
    assert_eq!(from_chars(&Vec::new()), "");
}

#[test]
fn slices_are_half_open() {
    let v = chars("abcdef");
    assert_eq!(text(&slice_chars(&v, 1, 4)), "bcd");
    assert_eq!(text(&slice_chars(&v, 0, 0)), "");
    assert_eq!(text(&slice_chars(&v, 0, 6)), "abcdef");
}

#[test]
fn first_occurrence_of_a_character_is_found() {
    let v = chars("a,b,c");
    assert_eq!(find_char(&v, ',', 0), 1);
    assert_eq!(find_char(&v, ',', 1), 1);
    assert_eq!(find_char(&v, ',', 2), 3);
    assert_eq!(find_char(&v, ',', 4), 5);
    assert_eq!(find_char(&v, 'x', 0), 5);
    assert_eq!(find_char(&v, ',', 5), 5);
}

#[test]
fn substring_search_agrees_with_the_standard_library() {
    let hays = ["", "a", "abc", "aaa", "abcabc", "std::fs::read", "x std :: fs", "ação"];
    let needles = ["", "a", "b", "abc", "bc", "ca", "aaaa", "std::fs", "ç", "ão"];
    for h in hays {
        for n in needles {
            assert_eq!(str_contains(h, n), h.contains(n), "{:?} in {:?}", n, h);
            assert_eq!(contains_chars(&chars(h), &chars(n)), h.contains(n));
            assert_eq!(starts_with_chars(&chars(h), &chars(n)), h.starts_with(n));
            assert_eq!(ends_with_chars(&chars(h), &chars(n)), h.ends_with(n));
        }
    }
}

#[test]
fn match_at_an_offset() {
    let h = chars("abcabc");
    assert!(matches_at(&h, &chars("abc"), 0));
    assert!(matches_at(&h, &chars("abc"), 3));
    assert!(!matches_at(&h, &chars("abc"), 1));
    assert!(!matches_at(&h, &chars("abc"), 4));
    assert!(matches_at(&h, &chars(""), 6));
    assert!(!matches_at(&h, &chars(""), 7));
}

#[test]
fn trimming_agrees_with_the_standard_library() {
    let samples =
        ["", " ", "a", "  a  ", "\t\na b\r\n", "\u{a0}x\u{2003}", "no space", "   ", " é "];
    for s in samples {
        assert_eq!(trim_str(s), s.trim());
        assert_eq!(text(&trim_chars(&chars(s))), s.trim());
    }
}

#[test]
fn normal_form_is_trimmed_lowercase() {
    assert_eq!(normalize("  E@X.Com "), "e@x.com");
    assert_eq!(normalize("ÀÉ"), "àé");
    assert_eq!(normalize(""), "");
}

#[test]
fn lines_agree_with_the_standard_library() {
    let samples = [
        "",
        "a",
        "a\n",
        "a\nb",
        "a\r\nb\r\n",
        "\n",
        "\n\n",
        "a\rb",
        "a\r",
        "\r\n",
        "a\n\nb\n",
        "a\r\r\nb",
    ];
    for s in samples {
        let got: Vec<String> = split_lines(&chars(s)).iter().map(text).collect();
        let expected: Vec<String> = s.lines().map(|l| l.to_string()).collect();
        assert_eq!(got, expected, "lines of {:?}", s);
    }
}

#[test]
fn other_characters_are_replaced() {
    assert_eq!(text(&replace_non_alphanumeric(&chars("a.b-c_1"), '_')), "a_b_c_1");
    assert_eq!(text(&replace_non_alphanumeric(&chars("ñ 9"), '#')), "ñ#9");
}

#[test]
fn numbers_are_written_in_decimal() {
    for n in [0u64, 1, 9, 10, 11, 99, 100, 101, 1234567890, u64::MAX] {
        assert_eq!(decimal_string(n), n.to_string());
    }
}

#[test]
fn white_space_is_what_the_standard_library_calls_so() {
    let mut count = 0;
    for n in 0..=0x10ffffu32 {
        if let Some(c) = char::from_u32(n) {
            let one = c.to_string();
            let trimmed = trim_str(&one);
            assert_eq!(trimmed.is_empty(), c.is_whitespace(), "U+{:04X}", n);
            if trimmed.is_empty() {
                count += 1;
            }
        }
    }
    assert_eq!(count, 25);
}
