use ansi_convert::common::Color;

#[test]
fn ansi_color_back() {
    let color = Color::Black();
    assert_eq!(color.red(), 0);
    assert_eq!(color.green(), 0);
    assert_eq!(color.blue(), 0);
}

#[test]
fn ansi_color_red() {
    let color = Color::Red();
    assert_eq!(color.red(), 128);
    assert_eq!(color.green(), 0);
    assert_eq!(color.blue(), 0);
}

#[test]
fn ansi_color_green() {
    let color = Color::Green();
    assert_eq!(color.red(), 0);
    assert_eq!(color.green(), 128);
    assert_eq!(color.blue(), 0);
}

#[test]
fn ansi_color_blue() {
    let color = Color::Blue();
    assert_eq!(color.red(), 0);
    assert_eq!(color.green(), 0);
    assert_eq!(color.blue(), 128);
}

#[test]
fn ansi_color_yellow() {
    let color = Color::Yellow();
    assert_eq!(color.red(), 128);
    assert_eq!(color.green(), 128);
    assert_eq!(color.blue(), 0);
}

#[test]
fn ansi_color_magenta() {
    let color = Color::Magenta();
    assert_eq!(color.red(), 128);
    assert_eq!(color.green(), 0);
    assert_eq!(color.blue(), 128);
}

#[test]
fn ansi_color_cyan() {
    let color = Color::Cyan();
    assert_eq!(color.red(), 0);
    assert_eq!(color.green(), 128);
    assert_eq!(color.blue(), 128);
}

#[test]
fn ansi_color_white() {
    let color = Color::White();
    assert_eq!(color.red(), 192);
    assert_eq!(color.green(), 192);
    assert_eq!(color.blue(), 192);
}

#[test]
fn ansi_color_make_bright() {
    let tests = [
        (Color::Black(), Color { red: 128, green: 128, blue: 128 }),
        (Color::Blue(), Color { red: 0, green: 0, blue: 255 }),
        (Color::Green(), Color { red: 0, green: 255, blue: 0 }),
        (Color::Red(), Color { red: 255, green: 0, blue: 0 }),
        (Color::Yellow(), Color { red: 255, green: 255, blue: 0 }),
        (Color::Cyan(), Color { red: 0, green: 255, blue: 255 }),
        (Color::Magenta(), Color { red: 255, green: 0, blue: 255 }),
        (Color::White(), Color { red: 255, green: 255, blue: 255 }),
    ];
    for test in tests {
        let (mut color, expected_result) = test;
        color = Color::make_bright(color);
        assert_eq!(color.red(), expected_result.red());
        assert_eq!(color.green(), expected_result.green());
        assert_eq!(color.blue(), expected_result.blue());
    }
}

#[test]
fn common_color_back() {
    let color = Color::Black();
    assert_eq!(color.red(), 0);
    assert_eq!(color.green(), 0);
    assert_eq!(color.blue(), 0);
}

#[test]
fn common_color_red() {
    let color = Color::Red();
    assert_eq!(color.red(), 128);
    assert_eq!(color.green(), 0);
    assert_eq!(color.blue(), 0);
}

#[test]
fn common_color_green() {
    let color = Color::Green();
    assert_eq!(color.red(), 0);
    assert_eq!(color.green(), 128);
    assert_eq!(color.blue(), 0);
}

#[test]
fn common_color_blue() {
    let color = Color::Blue();
    assert_eq!(color.red(), 0);
    assert_eq!(color.green(), 0);
    assert_eq!(color.blue(), 128);
}

#[test]
fn common_color_yellow() {
    let color = Color::Yellow();
    assert_eq!(color.red(), 128);
    assert_eq!(color.green(), 128);
    assert_eq!(color.blue(), 0);
}

#[test]
fn common_color_magenta() {
    let color = Color::Magenta();
    assert_eq!(color.red(), 128);
    assert_eq!(color.green(), 0);
    assert_eq!(color.blue(), 128);
}

#[test]
fn common_color_cyan() {
    let color = Color::Cyan();
    assert_eq!(color.red(), 0);
    assert_eq!(color.green(), 128);
    assert_eq!(color.blue(), 128);
}

#[test]
fn common_color_white() {
    let color = Color::White();
    assert_eq!(color.red(), 192);
    assert_eq!(color.green(), 192);
    assert_eq!(color.blue(), 192);
}

#[test]
fn common_color_make_bright() {
    let tests = [
        (Color::Black(), Color { red: 128, green: 128, blue: 128 }),
        (Color::Blue(), Color { red: 0, green: 0, blue: 255 }),
        (Color::Green(), Color { red: 0, green: 255, blue: 0 }),
        (Color::Red(), Color { red: 255, green: 0, blue: 0 }),
        (Color::Yellow(), Color { red: 255, green: 255, blue: 0 }),
        (Color::Cyan(), Color { red: 0, green: 255, blue: 255 }),
        (Color::Magenta(), Color { red: 255, green: 0, blue: 255 }),
        (Color::White(), Color { red: 255, green: 255, blue: 255 }),
    ];
    for test in tests {
        let (mut color, expected_result) = test;
        color = Color::make_bright(color);
        assert_eq!(color.red(), expected_result.red());
        assert_eq!(color.green(), expected_result.green());
        assert_eq!(color.blue(), expected_result.blue());
    }
}

#[test]
fn make_bright_keeps_zero_channels_off() {
    let c = Color::make_bright(Color { red: 0, green: 1, blue: 0 });
    assert_eq!(c, Color { red: 0, green: 255, blue: 0 });
    let c = Color::make_bright(Color { red: 7, green: 0, blue: 200 });
    assert_eq!(c, Color { red: 255, green: 0, blue: 255 });
}
