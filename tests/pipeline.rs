use ansi_convert::output_fmt::OutputFormat;
use ansi_convert::parse_text;

#[test]
fn app_parse_text() {
    let test_cases = [
        (
            ("\x1b[93m\x1b[1mTest\x1b[0m", OutputFormat::Text),
            "Test",
        ),
        (
            ("\x1b[01;32mTest\x1b[0m", OutputFormat::Html),
            "<b><span style=\"color=#0800\">Test</b></span>",
        ),
        (("Test", OutputFormat::Text), "Test"),
    ];
    for test_case in test_cases {
        let ((text, format), expected_result) = test_case;
        let res = parse_text(&format, text.to_string());
        match res {
            Ok(r) => {
                assert_eq!(r, expected_result.to_string())
            }
            Err(e) => {
                println!("{}", e);
                panic!("{}", e);
            }
        }
    }
}

#[test]
fn plain_text_round_trips() {
    for text in ["", "a", "no escapes here; [1m is only text", "ünïcödé ✓"] {
        assert_eq!(
            parse_text(&OutputFormat::Text, text.to_string()),
            Ok(text.to_string())
        );
        assert_eq!(
            parse_text(&OutputFormat::Html, text.to_string()),
            Ok(text.to_string())
        );
    }
}

#[test]
fn controls_vanish_from_plain_text() {
    assert_eq!(
        parse_text(
            &OutputFormat::Text,
            "\x1b[2J\x1b[1;1Hhello\x1b[?25l \x1b[38;2;1;2;3mworld\x1b[m".to_string()
        ),
        Ok("hello world".to_string())
    );
}

#[test]
fn html_reset_closes_open_tags() {
    assert_eq!(
        parse_text(&OutputFormat::Html, "\x1b[3;4mab\x1b[0mc".to_string()),
        Ok("<i><u>ab</i></u>c".to_string())
    );
    assert_eq!(
        parse_text(&OutputFormat::Html, "\x1b[95mx\x1b[39my".to_string()),
        Ok("<span style=\"color=#ff0ff\">x</span>y".to_string())
    );
}
