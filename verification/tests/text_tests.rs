use vhost_enumerator::text::{decimal_string, parse_usize, split_lines};

fn lines(text: &str) -> Vec<String> {
    split_lines(text)
}

#[test]
fn decimal_of_small_and_large_numbers() {
    assert_eq!(decimal_string(0), "0");
    assert_eq!(decimal_string(7), "7");
    assert_eq!(decimal_string(10), "10");
    assert_eq!(decimal_string(1234567890), "1234567890");
    assert_eq!(decimal_string(u64::MAX), "18446744073709551615");
}

#[test]
fn decimal_agrees_with_to_string() {
    for n in [0u64, 1, 9, 10, 99, 100, 101, 65535, 4294967296, 999999999999] {
        assert_eq!(decimal_string(n), n.to_string());
    }
}

#[test]
fn parse_accepts_digits_and_plus() {
    assert_eq!(parse_usize("42"), Some(42));
    assert_eq!(parse_usize("+7"), Some(7));
    assert_eq!(parse_usize("007"), Some(7));
    assert_eq!(parse_usize("0"), Some(0));
}

#[test]
fn parse_rejects_non_numbers() {
    assert_eq!(parse_usize(""), None);
    assert_eq!(parse_usize("+"), None);
    assert_eq!(parse_usize("-1"), None);
    assert_eq!(parse_usize("-0"), None);
    assert_eq!(parse_usize(" 1"), None);
    assert_eq!(parse_usize("1 "), None);
    assert_eq!(parse_usize("1a"), None);
    assert_eq!(parse_usize("++1"), None);
    assert_eq!(parse_usize("١"), None);
}

#[test]
fn parse_rejects_overflow() {
    let max = usize::MAX.to_string();
    assert_eq!(parse_usize(&max), Some(usize::MAX));
    let over = format!("{}0", max);
    assert_eq!(parse_usize(&over), None);
    assert_eq!(parse_usize("99999999999999999999999999"), None);
}

#[test]
fn parse_agrees_with_std() {
    for s in ["", "0", "+", "+0", "-", "-5", "12", "012", "1_0", "3.0", "18446744073709551615",
        "18446744073709551616", " 4", "4\n", "+12345"] {
        assert_eq!(parse_usize(s), s.parse::<usize>().ok(), "input {:?}", s);
    }
}

#[test]
fn parse_reads_back_decimal() {
    for n in [0u64, 5, 10, 4096, 123456789] {
        assert_eq!(parse_usize(&decimal_string(n)), Some(n as usize));
    }
}

#[test]
fn lines_of_documented_example() {
    assert_eq!(lines("foo\nbar\n\r\nbaz"), vec!["foo", "bar", "", "baz"]);
    assert_eq!(lines("foo\r\nbar\n\nbaz\r"), vec!["foo", "bar", "", "baz\r"]);
}

#[test]
fn lines_edge_cases() {
    assert_eq!(lines(""), Vec::<String>::new());
    assert_eq!(lines("\n"), vec![""]);
    assert_eq!(lines("\n\n"), vec!["", ""]);
    assert_eq!(lines("a"), vec!["a"]);
    assert_eq!(lines("a\n"), vec!["a"]);
    assert_eq!(lines("a\r"), vec!["a\r"]);
    assert_eq!(lines("a\r\r\n"), vec!["a\r"]);
    assert_eq!(lines("\r"), vec!["\r"]);
    assert_eq!(lines("\r\n"), vec![""]);
    assert_eq!(lines("dev\nwww\nmail"), vec!["dev", "www", "mail"]);
}

#[test]
fn lines_agree_with_std() {
    for t in ["", "x", "x\n", "x\r\n", "\r\r\n\n", "a\nb\r\nc\rd\n\r", "é\nü\r\n日本", "\n\r\n\n", "a\r\rb"] {
        let expected: Vec<String> = t.lines().map(|l| l.to_string()).collect();
        assert_eq!(lines(t), expected, "text {:?}", t);
    }
}

#[test]
fn lines_read_back_terminated_lines() {
    let words = vec!["dev", "", "www", "mail"];
    let mut text = String::new();
    for w in &words {
        text.push_str(w);
        text.push('\n');
    }
    assert_eq!(lines(&text), words);
}

#[test]
fn final_line_ending_is_optional() {
    for t in ["a", "a\nb", "a\n\nb", "x\r\ny"] {
        assert_eq!(lines(&format!("{}\n", t)), lines(t));
        assert_eq!(lines(&format!("{}\r\n", t)), lines(t));
    }
}

#[test]
fn lines_of_large_text() {
    let mut text = String::new();
    for i in 0..100000 {
        text.push_str(&format!("host{}\n", i));
    }
    let ws = lines(&text);
    assert_eq!(ws.len(), 100000);
    assert_eq!(ws[99999], "host99999");
}
