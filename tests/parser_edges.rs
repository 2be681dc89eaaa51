use ansi_convert::input_fmt::ansi;
use ansi_convert::input_fmt::ansi::{
    Color, ControlSequence, FeEscapeSequence, SelectGraphicRendition, TextElement,
};

fn sgr(text: &str) -> Option<FeEscapeSequence> {
    let mut chars = text.chars();
    FeEscapeSequence::from(&mut chars)
}

#[test]
fn sgr_empty_list_resets() {
    let mut args: Vec<u8> = Vec::new();
    assert_eq!(
        SelectGraphicRendition::from(&mut args),
        vec![SelectGraphicRendition::Normal]
    );
}

#[test]
fn sgr_keeps_parameter_order() {
    let mut args: Vec<u8> = vec![1, 38, 5, 196, 4, 99, 48, 2, 1, 2, 3, 22];
    let result = SelectGraphicRendition::from(&mut args);
    assert_eq!(
        result,
        vec![
            SelectGraphicRendition::Bold,
            SelectGraphicRendition::ForgroundColor(Some(Color { red: 192, green: 32, blue: 0 })),
            SelectGraphicRendition::Underline,
            SelectGraphicRendition::BackgroundColor(Some(Color { red: 1, green: 2, blue: 3 })),
            SelectGraphicRendition::NormalIntensity,
        ]
    );
    assert!(args.is_empty());
}

#[test]
fn sgr_truecolor_with_missing_channels() {
    let mut args: Vec<u8> = vec![38, 2, 9];
    assert_eq!(
        SelectGraphicRendition::from(&mut args),
        vec![SelectGraphicRendition::ForgroundColor(Some(Color { red: 9, green: 0, blue: 0 }))]
    );
}

#[test]
fn sgr_underline_color_and_unknown_mode() {
    let mut args: Vec<u8> = vec![58, 5, 3, 48, 7, 1];
    assert_eq!(
        SelectGraphicRendition::from(&mut args),
        vec![
            SelectGraphicRendition::SetUnderlineColor(Some(Color { red: 0, green: 0, blue: 96 })),
            SelectGraphicRendition::BackgroundColor(None),
            SelectGraphicRendition::Bold,
        ]
    );
}

#[test]
fn color_from_args_takes_only_what_it_needs() {
    let mut args: Vec<u8> = vec![4, 3, 2, 1, 9];
    assert_eq!(Color::from_args(&mut args), None);
    assert_eq!(args, vec![4, 3, 2, 1]);
    let mut args: Vec<u8> = vec![7, 5];
    assert_eq!(Color::from_args(&mut args), Some(Color { red: 0, green: 32, blue: 96 }));
    assert!(args.is_empty());
    let mut args: Vec<u8> = vec![5];
    assert_eq!(Color::from_args(&mut args), Some(Color::Black()));
    let mut args: Vec<u8> = vec![6, 6, 6, 6, 2];
    assert_eq!(Color::from_args(&mut args), Some(Color { red: 6, green: 6, blue: 6 }));
    assert_eq!(args, vec![6]);
    let mut args: Vec<u8> = Vec::new();
    assert_eq!(Color::from_args(&mut args), None);
}

#[test]
fn palette_cube_values() {
    let mut args: Vec<u8> = vec![255, 5];
    assert_eq!(Color::from_args(&mut args), Some(Color { red: 224, green: 224, blue: 96 }));
    let mut args: Vec<u8> = vec![28, 5];
    assert_eq!(Color::from_args(&mut args), Some(Color { red: 0, green: 224, blue: 0 }));
}

#[test]
fn get_args_reads_fields_as_bytes() {
    let mut text = "+5;256;a;7;".to_string();
    assert_eq!(ControlSequence::get_args(&mut text), vec![5, 0, 0, 7]);
    assert_eq!(text, "+5;256;a;7");
    let mut text = "".to_string();
    assert_eq!(ControlSequence::get_args(&mut text), vec![0]);
    let mut text = "007;+;-1".to_string();
    assert_eq!(ControlSequence::get_args(&mut text), vec![7, 0, 0]);
}

#[test]
fn csi_positions_default_to_one() {
    let mut chars = "3;4Hrest".chars();
    assert_eq!(ControlSequence::from(&mut chars), Some(ControlSequence::CursorPosition(3, 4)));
    assert_eq!(chars.as_str(), "rest");
    let mut chars = "5f".chars();
    assert_eq!(
        ControlSequence::from(&mut chars),
        Some(ControlSequence::HorizonalVerticalPosition(5, 1))
    );
}

#[test]
fn csi_unknown_or_truncated() {
    let mut chars = "7ix".chars();
    assert_eq!(ControlSequence::from(&mut chars), None);
    assert_eq!(chars.as_str(), "x");
    let mut chars = "?7hx".chars();
    assert_eq!(ControlSequence::from(&mut chars), None);
    assert_eq!(chars.as_str(), "x");
    let mut chars = "12;3".chars();
    assert_eq!(ControlSequence::from(&mut chars), None);
    assert_eq!(chars.as_str(), "");
}

#[test]
fn fe_lower_case_and_unknown() {
    assert_eq!(sgr("n"), Some(FeEscapeSequence::SingleShiftTwo));
    assert_eq!(sgr("o"), Some(FeEscapeSequence::SingleShiftThree));
    assert_eq!(sgr("p"), Some(FeEscapeSequence::DeviceControlString));
    assert_eq!(sgr("x"), Some(FeEscapeSequence::StartOfString));
    assert_eq!(sgr("Z"), None);
    assert_eq!(sgr(""), None);
}

#[test]
fn extract_from_keeps_text_after_unknown_escape() {
    assert_eq!(
        FeEscapeSequence::extract_from("Ztest"),
        ("Ztest".to_string(), None)
    );
    assert_eq!(FeEscapeSequence::extract_from("[12"), (String::new(), None));
    assert_eq!(FeEscapeSequence::extract_from("[?7hab"), ("ab".to_string(), None));
    assert_eq!(
        FeEscapeSequence::extract_from("[1mé"),
        (
            "é".to_string(),
            Some(FeEscapeSequence::ControlSequence(
                ControlSequence::SelectGraphicalRendition(vec![SelectGraphicRendition::Bold])
            ))
        )
    );
}

#[test]
fn text_without_escapes_is_one_run() {
    assert_eq!(
        ansi::Text::from("plain text".to_string()),
        ansi::Text { text: vec![TextElement::Text("plain text".to_string())] }
    );
    assert_eq!(ansi::Text::from(String::new()), ansi::Text { text: vec![] });
}

#[test]
fn text_unknown_escape_keeps_segment() {
    assert_eq!(
        ansi::Text::from("a\u{1b}Zb\u{1b}\u{1b}[1mc\u{1b}".to_string()),
        ansi::Text {
            text: vec![
                TextElement::Text("a".to_string()),
                TextElement::Text("Zb".to_string()),
                TextElement::Marker(FeEscapeSequence::ControlSequence(
                    ControlSequence::SelectGraphicalRendition(vec![SelectGraphicRendition::Bold])
                )),
                TextElement::Text("c".to_string()),
            ]
        }
    );
}

#[test]
fn text_literals_never_outnumber_markers() {
    let text = ansi::Text::from("x\u{1b}[2Jy\u{1b}N\u{1b}]z\u{1b}[0m".to_string());
    let lits = text.text.iter().filter(|e| matches!(e, TextElement::Text(_))).count();
    let marks = text.text.len() - lits;
    assert_eq!(marks, 4);
    assert!(lits <= marks + 1);
    for e in text.text.iter() {
        if let TextElement::Text(t) = e {
            assert!(!t.is_empty());
        }
    }
}

#[test]
fn read_appends_and_flush_clears() {
    let mut text = ansi::Text::new();
    text.read("a".to_string());
    text.read("\u{1b}[sb".to_string());
    assert_eq!(
        text,
        ansi::Text {
            text: vec![
                TextElement::Text("a".to_string()),
                TextElement::Marker(FeEscapeSequence::ControlSequence(
                    ControlSequence::SaveCursorPosistion
                )),
                TextElement::Text("b".to_string()),
            ]
        }
    );
    text.flush();
    assert!(text.text.is_empty());
}

#[test]
fn csi_left_out_counts_are_one() {
    let mut chars = "A".chars();
    assert_eq!(ControlSequence::from(&mut chars), Some(ControlSequence::CursorUp(1)));
    let mut chars = "H".chars();
    assert_eq!(ControlSequence::from(&mut chars), Some(ControlSequence::CursorPosition(1, 1)));
    let mut chars = "f".chars();
    assert_eq!(
        ControlSequence::from(&mut chars),
        Some(ControlSequence::HorizonalVerticalPosition(1, 1))
    );
    let mut chars = "J".chars();
    assert_eq!(ControlSequence::from(&mut chars), Some(ControlSequence::EraseInDisplay(1)));
    let mut chars = "i".chars();
    assert_eq!(ControlSequence::from(&mut chars), None);
    let mut chars = ";T".chars();
    assert_eq!(ControlSequence::from(&mut chars), Some(ControlSequence::ScrollDown(0)));
}

#[test]
fn text_drops_cut_short_and_unknown_control_sequences() {
    assert_eq!(
        ansi::Text::from("ab\u{1b}[31".to_string()),
        ansi::Text { text: vec![TextElement::Text("ab".to_string())] }
    );
    assert_eq!(
        ansi::Text::from("\u{1b}[?7hx\u{1b}[3iy".to_string()),
        ansi::Text {
            text: vec![
                TextElement::Text("x".to_string()),
                TextElement::Text("y".to_string()),
            ]
        }
    );
}
