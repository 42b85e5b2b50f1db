use portus::decimal;
use portus::sort::{self, InOrder};
use portus::text;

fn chars(s: &str) -> Vec<char> {
    s.chars().collect()
}

fn strings(parts: Vec<Vec<char>>) -> Vec<String> {
    parts.into_iter().map(|p| p.into_iter().collect()).collect()
}

#[test]
fn whitespace_is_that_of_unicode() {
    for c in '\0'..=char::MAX {
        assert_eq!(text::char_is_space(c), c.is_whitespace(), "{:?}", c);
        assert_eq!(text::char_is_digit(c), c.is_ascii_digit());
        assert_eq!(text::char_ascii_lower(c), c.to_ascii_lowercase());
    }
}

#[test]
fn splitting_is_that_of_std() {
    for sample in [
        "",
        " ",
        "a",
        " a  b\tc\n",
        "x\u{3000}y",
        "one\ntwo\r\nthree",
        "one\n\n\ntwo\n",
        "\r\n",
        "a\rb\r",
        "tail\r\n\r",
    ] {
        let cs = chars(sample);
        let words: Vec<String> = sample.split_whitespace().map(String::from).collect();
        assert_eq!(strings(text::split_whitespace(&cs)), words);
        let lines: Vec<String> = sample.lines().map(String::from).collect();
        assert_eq!(strings(text::split_lines(&cs)), lines, "{:?}", sample);
        let trimmed: String = text::trim(&cs).into_iter().collect();
        assert_eq!(trimmed, sample.trim());
    }
}

#[test]
fn searching_is_that_of_std() {
    for haystack in ["", "a", "port 80", "support port", "aab", "->->", "ab->c"] {
        for needle in ["", "a", "port ", "ab", "->", "zzz"] {
            assert_eq!(text::contains(haystack, needle), haystack.contains(needle));
            assert_eq!(text::starts_with(haystack, needle), haystack.starts_with(needle));
            assert_eq!(text::find(&chars(haystack), &chars(needle)), haystack.find(needle));
            let before: String =
                text::take_before(&chars(haystack), &chars(needle)).into_iter().collect();
            if !needle.is_empty() {
                assert_eq!(before, haystack.split(needle).next().unwrap());
            }
        }
    }
}

#[test]
fn trimming_a_character_is_that_of_std() {
    for sample in ["", "\"", "\"\"\"", "\"a\"", "a))", "))a", "b"] {
        let end: String = text::trim_end_matches(&chars(sample), ')').into_iter().collect();
        assert_eq!(end, sample.trim_end_matches(')'));
        let start: String = text::trim_start_matches(&chars(sample), '"').into_iter().collect();
        assert_eq!(start, sample.trim_start_matches('"'));
    }
}

#[test]
fn text_order_is_that_of_std() {
    let samples = ["", "a", "ab", "b", "B", "é", "z", "\u{ffff}", "\u{10000}", "日本"];
    for a in samples {
        for b in samples {
            assert_eq!(text::text_at_most(a, b), a <= b);
            assert_eq!(text::same_text(a, b), a == b);
        }
    }
}

#[test]
fn padding_counts_characters() {
    assert_eq!(text::pad("ab", 4), format!("{:<4}", "ab"));
    assert_eq!(text::pad("日本", 4), format!("{:<4}", "日本"));
    assert_eq!(text::pad("abcdef", 4), "abcdef");
    assert_eq!(text::repeat_char('-', 3), "---");
}

#[test]
fn shortening_keeps_the_end() {
    assert_eq!(text::shorten("short", 8), "short");
    assert_eq!(text::shorten("exactly8", 8), "exactly8");
    assert_eq!(text::shorten("a-longer-text", 8), "...-text");
    assert_eq!(text::shorten("a-longer-text", 8).len(), 8);
    assert!(text::is_shortenable("日本日本日本", 9));
    assert_eq!(text::shorten("日本日本日本", 9), "...日本");
    assert!(!text::is_shortenable("日本日本日本", 10));
    assert!(text::is_shortenable("日本日本日本", 18));
    assert!(!text::is_shortenable("abc", 2));
}

#[test]
fn numbers_are_written_and_read_as_std_does() {
    for n in [0, 1, 9, 10, 99, 100, 12_345, u64::MAX] {
        assert_eq!(decimal::decimal_text(n), n.to_string());
    }
    for n in [0, -1, 7, i32::MIN, i32::MAX] {
        assert_eq!(decimal::signed_decimal_text(n), n.to_string());
    }
    for sample in [
        "", "0", "00", "7", "+7", "-7", "++7", "+", " 7", "7 ", "65535", "65536", "4294967295",
        "4294967296", "99999999999999999999", "1a", "１",
    ] {
        assert_eq!(decimal::parse_u16(&chars(sample)), sample.parse::<u16>().ok(), "{}", sample);
        assert_eq!(decimal::parse_u32(&chars(sample)), sample.parse::<u32>().ok(), "{}", sample);
    }
}

#[test]
fn sorting_is_stable() {
    let processes: Vec<portus::scan::PortProcess> = [(3, 1, "a"), (1, 2, "b"), (3, 1, "c"), (2, 9, "d"), (1, 1, "e")]
        .into_iter()
        .map(|(port, pid, command)| portus::scan::PortProcess {
            port,
            pid,
            command: command.into(),
            protocol: portus::Protocol::Tcp,
        })
        .collect();
    let order: String = sort::sort(processes).iter().map(|p| p.command.clone()).collect();
    assert_eq!(order, "ebdac");
}

#[test]
fn tcp_comes_before_udp() {
    let process = |protocol| portus::scan::PortProcess {
        port: 1,
        pid: 1,
        command: "x".into(),
        protocol,
    };
    assert!(process(portus::Protocol::Tcp).not_after(&process(portus::Protocol::Udp)));
    assert!(!process(portus::Protocol::Udp).not_after(&process(portus::Protocol::Tcp)));
    assert!(process(portus::Protocol::Udp).not_after(&process(portus::Protocol::Udp)));
}
