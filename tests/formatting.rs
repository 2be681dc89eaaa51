use ansi_convert::common::{Color, Toggle};
use ansi_convert::input_fmt::ansi;
use ansi_convert::internal_format;
use ansi_convert::internal_format::Fromatting;

#[test]
fn formatting_from_ansi() {
    let test_cases = vec![
        (ansi::FeEscapeSequence::SingleShiftTwo, None),
        (ansi::FeEscapeSequence::SingleShiftThree, None),
        (ansi::FeEscapeSequence::DeviceControlString, None),
        (ansi::FeEscapeSequence::OperatingSystemCommand, None),
        (ansi::FeEscapeSequence::StringTerminator, None),
        (ansi::FeEscapeSequence::StartOfString, None),
        (ansi::FeEscapeSequence::PrivacyMessage, None),
        (ansi::FeEscapeSequence::ApplicationProgramCommand, None),
        (
            ansi::FeEscapeSequence::ControlSequence(
                ansi::ControlSequence::SelectGraphicalRendition(vec![
                    ansi::SelectGraphicRendition::Italic,
                ]),
            ),
            Some(vec![Toggle::Apply(internal_format::Fromatting::Italic)]),
        ),
        (
            ansi::FeEscapeSequence::ControlSequence(ansi::ControlSequence::CursorDown(3)),
            None,
        ),
        (
            ansi::FeEscapeSequence::ControlSequence(ansi::ControlSequence::CursorForward(3)),
            None,
        ),
        (
            ansi::FeEscapeSequence::ControlSequence(ansi::ControlSequence::CursorBack(3)),
            None,
        ),
        (
            ansi::FeEscapeSequence::ControlSequence(ansi::ControlSequence::CursorNextLine(3)),
            None,
        ),
        (
            ansi::FeEscapeSequence::ControlSequence(ansi::ControlSequence::CursorPreviousLine(
                3,
            )),
            None,
        ),
        (
            ansi::FeEscapeSequence::ControlSequence(
                ansi::ControlSequence::CursorHorizontalAbsolute(3),
            ),
            None,
        ),
        (
            ansi::FeEscapeSequence::ControlSequence(ansi::ControlSequence::CursorPosition(
                3, 4,
            )),
            None,
        ),
        (
            ansi::FeEscapeSequence::ControlSequence(ansi::ControlSequence::EraseInDisplay(3)),
            None,
        ),
        (
            ansi::FeEscapeSequence::ControlSequence(ansi::ControlSequence::EraseInLine(4)),
            None,
        ),
        (
            ansi::FeEscapeSequence::ControlSequence(ansi::ControlSequence::ScrollUp(4)),
            None,
        ),
        (
            ansi::FeEscapeSequence::ControlSequence(ansi::ControlSequence::ScrollDown(4)),
            None,
        ),
        (
            ansi::FeEscapeSequence::ControlSequence(
                ansi::ControlSequence::HorizonalVerticalPosition(4, 4),
            ),
            None,
        ),
        (
            ansi::FeEscapeSequence::ControlSequence(ansi::ControlSequence::AUXPortOn),
            None,
        ),
        (
            ansi::FeEscapeSequence::ControlSequence(ansi::ControlSequence::AUXPortOff),
            None,
        ),
        (
            ansi::FeEscapeSequence::ControlSequence(ansi::ControlSequence::DeviceStatusReport),
            None,
        ),
        (
            ansi::FeEscapeSequence::ControlSequence(ansi::ControlSequence::SaveCursorPosistion),
            None,
        ),
        (
            ansi::FeEscapeSequence::ControlSequence(
                ansi::ControlSequence::RestoreCursorPosistion,
            ),
            None,
        ),
        (
            ansi::FeEscapeSequence::ControlSequence(ansi::ControlSequence::VT220Cursor),
            None,
        ),
        (
            ansi::FeEscapeSequence::ControlSequence(ansi::ControlSequence::HideCursor),
            None,
        ),
        (
            ansi::FeEscapeSequence::ControlSequence(
                ansi::ControlSequence::EnableReportingFocus,
            ),
            None,
        ),
        (
            ansi::FeEscapeSequence::ControlSequence(
                ansi::ControlSequence::DisableReportingFocus,
            ),
            None,
        ),
        (
            ansi::FeEscapeSequence::ControlSequence(ansi::ControlSequence::EnableAltScreenBuf),
            None,
        ),
        (
            ansi::FeEscapeSequence::ControlSequence(ansi::ControlSequence::DisableAltScreenBuf),
            None,
        ),
        (
            ansi::FeEscapeSequence::ControlSequence(ansi::ControlSequence::BracketPasteMode),
            None,
        ),
        (
            ansi::FeEscapeSequence::ControlSequence(ansi::ControlSequence::NoBracketPasteMode),
            None,
        ),
    ];
    for test_case in test_cases {
        let (input, expected_output) = test_case;
        assert_eq!(internal_format::Fromatting::from_ansi(&input), expected_output)
    }
}

#[test]
fn text_from_ansi() {
    let test_cases = vec![(
        ansi::Text {
            text: vec![
                ansi::TextElement::Text("This".to_string()),
                ansi::TextElement::Marker(ansi::FeEscapeSequence::SingleShiftTwo),
                ansi::TextElement::Marker(ansi::FeEscapeSequence::ControlSequence(
                    ansi::ControlSequence::SelectGraphicalRendition(vec![
                        ansi::SelectGraphicRendition::ForgroundColor(Some(Color::Red())),
                    ]),
                )),
                ansi::TextElement::Text("is a".to_string()),
                ansi::TextElement::Marker(ansi::FeEscapeSequence::ControlSequence(
                    ansi::ControlSequence::SelectGraphicalRendition(vec![
                        ansi::SelectGraphicRendition::Bold,
                    ]),
                )),
                ansi::TextElement::Text("Test".to_string()),
                ansi::TextElement::Marker(ansi::FeEscapeSequence::ControlSequence(
                    ansi::ControlSequence::SelectGraphicalRendition(vec![
                        ansi::SelectGraphicRendition::Normal,
                    ]),
                )),
            ],
        },
        internal_format::Text {
            text: vec![
                internal_format::TextElement::Text("This".to_string()),
                internal_format::TextElement::Marker(Toggle::Apply(
                    internal_format::Fromatting::ForgroundColor(Some(Color::Red())),
                )),
                internal_format::TextElement::Text("is a".to_string()),
                internal_format::TextElement::Marker(Toggle::Apply(internal_format::Fromatting::Bold)),
                internal_format::TextElement::Text("Test".to_string()),
                internal_format::TextElement::Marker(Toggle::UnSet(
                    internal_format::Fromatting::Bold,
                )),
                internal_format::TextElement::Marker(Toggle::UnSet(
                    internal_format::Fromatting::Faint,
                )),
                internal_format::TextElement::Marker(Toggle::UnSet(
                    internal_format::Fromatting::Italic,
                )),
                internal_format::TextElement::Marker(Toggle::UnSet(
                    internal_format::Fromatting::Underline(None),
                )),
                internal_format::TextElement::Marker(Toggle::UnSet(
                    internal_format::Fromatting::CrossedOut,
                )),
                internal_format::TextElement::Marker(Toggle::UnSet(
                    internal_format::Fromatting::ForgroundColor(None),
                )),
                internal_format::TextElement::Marker(Toggle::UnSet(
                    internal_format::Fromatting::BackgroundColor(None),
                )),
            ],
        },
    )];
    for test_case in test_cases {
        let (input, expected_output) = test_case;
        assert_eq!(internal_format::Text::from_ansi(input), expected_output)
    }
}

#[test]
fn reset_fans_out_to_seven_unsets() {
    let fe = ansi::FeEscapeSequence::ControlSequence(
        ansi::ControlSequence::SelectGraphicalRendition(vec![ansi::SelectGraphicRendition::Normal]),
    );
    assert_eq!(
        Fromatting::from_ansi(&fe),
        Some(vec![
            Toggle::UnSet(Fromatting::Bold),
            Toggle::UnSet(Fromatting::Faint),
            Toggle::UnSet(Fromatting::Italic),
            Toggle::UnSet(Fromatting::Underline(None)),
            Toggle::UnSet(Fromatting::CrossedOut),
            Toggle::UnSet(Fromatting::ForgroundColor(None)),
            Toggle::UnSet(Fromatting::BackgroundColor(None)),
        ])
    );
}

#[test]
fn mapper_maps_each_directive_in_order() {
    let green = Color::Green();
    let fe = ansi::FeEscapeSequence::ControlSequence(
        ansi::ControlSequence::SelectGraphicalRendition(vec![
            ansi::SelectGraphicRendition::Underline,
            ansi::SelectGraphicRendition::SlowBlink,
            ansi::SelectGraphicRendition::BackgroundColor(Some(green)),
            ansi::SelectGraphicRendition::NormalIntensity,
            ansi::SelectGraphicRendition::Font(3),
            ansi::SelectGraphicRendition::SetUnderlineColor(Some(green)),
            ansi::SelectGraphicRendition::SetUnderlineColor(None),
            ansi::SelectGraphicRendition::NotUnderlined,
            ansi::SelectGraphicRendition::NotItalic,
            ansi::SelectGraphicRendition::NotCrossedOut,
            ansi::SelectGraphicRendition::ForgroundColor(None),
            ansi::SelectGraphicRendition::BackgroundColor(None),
            ansi::SelectGraphicRendition::CrossedOut,
            ansi::SelectGraphicRendition::Faint,
        ]),
    );
    assert_eq!(
        Fromatting::from_ansi(&fe),
        Some(vec![
            Toggle::Apply(Fromatting::Underline(None)),
            Toggle::Apply(Fromatting::BackgroundColor(Some(Color::Green()))),
            Toggle::UnSet(Fromatting::Bold),
            Toggle::UnSet(Fromatting::Faint),
            Toggle::UnSet(Fromatting::Underline(None)),
            Toggle::UnSet(Fromatting::Underline(None)),
            Toggle::UnSet(Fromatting::Italic),
            Toggle::UnSet(Fromatting::CrossedOut),
            Toggle::UnSet(Fromatting::ForgroundColor(None)),
            Toggle::UnSet(Fromatting::BackgroundColor(None)),
            Toggle::Apply(Fromatting::CrossedOut),
            Toggle::Apply(Fromatting::Faint),
        ])
    );
}
