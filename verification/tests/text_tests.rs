use ssh_gateway::number::{parse_u32, parse_u64, push_decimal};
use ssh_gateway::scan::{
    find, join_from, split_fields, split_lines, split_tokens, starts_with, strip_end, trim, Span,
};
use ssh_gateway::text::{char_is_ws, chars_eq, chars_to_string, slice_to_string, to_chars};

fn texts_of(v: &Vec<char>, spans: &Vec<Span>) -> Vec<String> {
    spans.iter().map(|s| v[s.start..s.end].iter().collect::<String>()).collect()
}

fn samples() -> Vec<&'static str> {
    vec![
        "",
        " ",
        "a",
        "a b",
        "  a  b  ",
        "\ta\tb\n",
        "one\ntwo\nthree",
        "one\ntwo\n",
        "one\r\ntwo\r\n",
        "one\rtwo",
        "tail\r",
        "\n",
        "\n\n",
        "\r\n",
        "a\n\nb",
        "x,y,,z",
        ",",
        "a|b|c|d|e|f",
        "h\u{e9}llo w\u{f6}rld",
        "nbsp\u{a0}sep\u{2003}em\u{3000}ideo",
        "zero\u{200b}width",
        "  leading and trailing \u{2028}",
        "USER PID %CPU %MEM VSZ RSS TTY STAT START TIME COMMAND\nroot 1 0.0 0.1 1 2 ? Ss 10:00 0:01 /sbin/init splash\n",
    ]
}

#[test]
fn white_space_is_what_std_says() {
    for n in 0u32..0x3100 {
        if let Some(c) = char::from_u32(n) {
            assert_eq!(char_is_ws(c), c.is_whitespace(), "code point {:#x}", n);
        }
    }
    assert!(!char_is_ws('\u{feff}'));
    assert!(!char_is_ws('\u{10ffff}'));
}

#[test]
fn chars_round_trip() {
    for s in samples() {
        let v = to_chars(s);
        assert_eq!(v, s.chars().collect::<Vec<char>>());
        assert_eq!(chars_to_string(&v), s);
        assert_eq!(slice_to_string(&v, 0, v.len()), s);
        assert!(chars_eq(&v, &to_chars(s)));
    }
    let v = to_chars("hello");
    assert_eq!(slice_to_string(&v, 1, 3), "el");
    assert_eq!(slice_to_string(&v, 2, 2), "");
    assert!(!chars_eq(&to_chars("ab"), &to_chars("ac")));
    assert!(!chars_eq(&to_chars("ab"), &to_chars("abc")));
}

#[test]
fn tokens_are_what_split_whitespace_gives() {
    for s in samples() {
        let v = to_chars(s);
        let got = texts_of(&v, &split_tokens(&v));
        let want: Vec<String> = s.split_whitespace().map(|t| t.to_string()).collect();
        assert_eq!(got, want, "input {:?}", s);
    }
}

#[test]
fn lines_are_what_std_lines_gives() {
    for s in samples() {
        let v = to_chars(s);
        let got = texts_of(&v, &split_lines(&v));
        let want: Vec<String> = s.lines().map(|t| t.to_string()).collect();
        assert_eq!(got, want, "input {:?}", s);
    }
}

#[test]
fn fields_are_what_split_gives() {
    for s in samples() {
        for sep in [',', '|', ' '] {
            let v = to_chars(s);
            let whole = Span { start: 0, end: v.len() };
            let got = texts_of(&v, &split_fields(&v, whole, sep));
            let want: Vec<String> = s.split(sep).map(|t| t.to_string()).collect();
            assert_eq!(got, want, "input {:?} sep {:?}", s, sep);
        }
    }
}

#[test]
fn fields_within_a_part() {
    let v = to_chars("ab,cd,ef");
    let got = split_fields(&v, Span { start: 1, end: 7 }, ',');
    assert_eq!(texts_of(&v, &got), vec!["b", "cd", "e"]);
    let empty = split_fields(&v, Span { start: 3, end: 3 }, ',');
    assert_eq!(empty, vec![Span { start: 3, end: 3 }]);
}

#[test]
fn trim_is_what_std_trim_gives() {
    for s in samples() {
        let v = to_chars(s);
        let t = trim(&v, Span { start: 0, end: v.len() });
        assert_eq!(slice_to_string(&v, t.start, t.end), s.trim(), "input {:?}", s);
    }
    let v = to_chars("ab  cd  ef");
    let t = trim(&v, Span { start: 2, end: 8 });
    assert_eq!(t, Span { start: 4, end: 6 });
}

#[test]
fn strip_end_is_what_trim_end_matches_gives() {
    for s in ["", "%", "%%", "45%", "45", "4%5%%", "%45"] {
        let v = to_chars(s);
        let t = strip_end(&v, Span { start: 0, end: v.len() }, '%');
        assert_eq!(slice_to_string(&v, t.start, t.end), s.trim_end_matches('%'), "input {:?}", s);
    }
}

#[test]
fn find_is_what_std_find_gives() {
    let cases = [
        ("", "a"),
        ("a", ""),
        ("abcabc", "bc"),
        ("abcabc", "cab"),
        ("abcabc", "abcabc"),
        ("abcabc", "abcabcd"),
        ("aaa---bbb---ccc", "---"),
        ("h\u{e9}llo", "llo"),
    ];
    for (s, p) in cases {
        let v = to_chars(s);
        let pat = to_chars(p);
        let want = s.find(p).map(|b| s[..b].chars().count());
        assert_eq!(find(&v, 0, &pat), want, "{:?} in {:?}", p, s);
    }
    let v = to_chars("aaa---bbb---ccc");
    let pat = to_chars("---");
    assert_eq!(find(&v, 4, &pat), Some(9));
    assert_eq!(find(&v, 10, &pat), None);
    assert_eq!(find(&v, 100, &pat), None);
}

#[test]
fn starts_with_is_what_std_gives() {
    for s in samples() {
        for p in ["", "a", "one", "  ", "USER", "h\u{e9}"] {
            let v = to_chars(s);
            let got = starts_with(&v, Span { start: 0, end: v.len() }, p);
            assert_eq!(got, s.starts_with(p), "{:?} starts with {:?}", s, p);
        }
    }
}

#[test]
fn numbers_are_what_std_parse_gives() {
    let cases = [
        "", "0", "7", "007", "+7", "+", "-7", "++7", "7+", " 7", "7 ", "12a", "a12",
        "4294967295", "4294967296", "18446744073709551615", "18446744073709551616",
        "99999999999999999999999999", "+18446744073709551615", "1_000", "1.5", "\u{661}",
    ];
    for s in cases {
        let v = to_chars(s);
        let whole = Span { start: 0, end: v.len() };
        assert_eq!(parse_u64(&v, whole), s.parse::<u64>().ok(), "u64 of {:?}", s);
        assert_eq!(parse_u32(&v, whole), s.parse::<u32>().ok(), "u32 of {:?}", s);
    }
    let v = to_chars("ab123cd");
    assert_eq!(parse_u64(&v, Span { start: 2, end: 5 }), Some(123));
    assert_eq!(parse_u64(&v, Span { start: 2, end: 2 }), None);
}

#[test]
fn decimal_is_what_std_formats() {
    for n in [0u64, 1, 9, 10, 11, 99, 100, 1000, 65535, 4294967295, u64::MAX] {
        let mut out = to_chars("n=");
        push_decimal(&mut out, n);
        assert_eq!(chars_to_string(&out), format!("n={}", n));
    }
}

#[test]
fn join_puts_single_spaces() {
    let v = to_chars("  a   bb \t ccc  ");
    let t = split_tokens(&v);
    assert_eq!(join_from(&v, &t, 0), "a bb ccc");
    assert_eq!(join_from(&v, &t, 1), "bb ccc");
    assert_eq!(join_from(&v, &t, 2), "ccc");
    assert_eq!(join_from(&v, &t, 3), "");
}

fn generated(seed: u64, len: usize) -> String {
    let alphabet = [
        'a', 'b', ' ', ' ', '\t', '\n', '\n', '\r', ',', '|', '%', '-', '0', '7', '+',
        '\u{a0}', '\u{e9}', '\u{2003}',
    ];
    let mut state = seed.wrapping_mul(6364136223846793005).wrapping_add(1442695040888963407);
    let mut out = String::new();
    for _ in 0..len {
        state = state.wrapping_mul(6364136223846793005).wrapping_add(1442695040888963407);
        out.push(alphabet[(state >> 33) as usize % alphabet.len()]);
    }
    out
}

#[test]
fn generated_texts_are_split_as_std_splits_them() {
    for seed in 0..400u64 {
        let s = generated(seed, (seed % 23) as usize);
        let v = to_chars(&s);
        let whole = Span { start: 0, end: v.len() };
        assert_eq!(
            texts_of(&v, &split_tokens(&v)),
            s.split_whitespace().map(|t| t.to_string()).collect::<Vec<String>>(),
            "tokens of {:?}",
            s
        );
        assert_eq!(
            texts_of(&v, &split_lines(&v)),
            s.lines().map(|t| t.to_string()).collect::<Vec<String>>(),
            "lines of {:?}",
            s
        );
        assert_eq!(
            texts_of(&v, &split_fields(&v, whole, ',')),
            s.split(',').map(|t| t.to_string()).collect::<Vec<String>>(),
            "fields of {:?}",
            s
        );
        let t = trim(&v, whole);
        assert_eq!(slice_to_string(&v, t.start, t.end), s.trim(), "trim of {:?}", s);
        let e = strip_end(&v, whole, '%');
        assert_eq!(slice_to_string(&v, e.start, e.end), s.trim_end_matches('%'));
        assert_eq!(parse_u64(&v, whole), s.parse::<u64>().ok(), "number {:?}", s);
        let pat = to_chars("--");
        assert_eq!(find(&v, 0, &pat), s.find("--").map(|b| s[..b].chars().count()));
    }
}
