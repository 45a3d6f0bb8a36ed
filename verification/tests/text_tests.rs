use memnav::text::{is_whitespace, leading_token, split_lines};

#[test]
fn whitespace_is_what_char_says() {
    let mut code: u32 = 0;
    while code <= 0x10FFFF {
        if let Some(c) = char::from_u32(code) {
            assert_eq!(is_whitespace(c), c.is_whitespace(), "U+{:04X}", code);
        }
        code += 1;
    }
}

#[test]
fn split_lines_agrees_with_lines() {
    let samples = [
        "",
        "\n",
        "\n\n",
        "a",
        "a\n",
        "a\nb",
        "a\r\nb\r\n",
        "a\rb\n",
        "a\r",
        "a\r\r\n",
        "\r\n",
        "\r",
        "\r\r",
        "one\n\ntwo\n",
        " .text 0x1 0x2\n  0x1 main\r\n\n",
        "x\ny\r",
        "\u{e9}t\u{e9}\n\u{4e16}\u{754c}\r\n",
    ];
    for sample in samples {
        let expected: Vec<String> = sample.lines().map(|l| l.to_string()).collect();
        assert_eq!(split_lines(sample), expected, "{:?}", sample);
    }
}

#[test]
fn split_lines_of_empty_text_is_empty() {
    assert!(split_lines("").is_empty());
}

#[test]
fn split_lines_keeps_a_lone_carriage_return() {
    assert_eq!(split_lines("a\rb\nc\r"), vec!["a\rb".to_string(), "c\r".to_string()]);
}

#[test]
fn split_lines_drops_one_carriage_return_before_a_line_feed() {
    assert_eq!(split_lines("a\r\r\nb"), vec!["a\r".to_string(), "b".to_string()]);
}

#[test]
fn leading_token_agrees_with_split_whitespace() {
    let samples = [
        "",
        " ",
        "\t \u{3000}",
        ".text",
        "  .text  0x1000",
        "0x1000 main",
        "\t\tmain\t",
        "\u{a0}x\u{2003}y",
        "a",
        " a",
        "a ",
    ];
    for sample in samples {
        let expected = sample.split_whitespace().next().map(|t| t.to_string());
        assert_eq!(leading_token(sample), expected, "{:?}", sample);
    }
}

#[test]
fn leading_token_of_blank_line_is_none() {
    assert_eq!(leading_token("   \t"), None);
    assert_eq!(leading_token(""), None);
}

#[test]
fn leading_token_stops_at_white_space() {
    assert_eq!(leading_token("  .rodata   0x60000280"), Some(".rodata".to_string()));
}
