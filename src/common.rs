//! Value types shared by the readers, the style mapper and the writers.
use vstd::prelude::*;

verus! {

/// A 24 bit color: one byte for each of red, green and blue.
#[derive(PartialEq, Eq, Structural, PartialOrd, Ord, Debug, Clone, Copy)]
pub struct Color {
    pub red: u8,
    pub green: u8,
    pub blue: u8,
}

/// The gray that terminals show for "bright black".
pub open spec fn bright_black() -> Color {
    Color { red: 128, green: 128, blue: 128 }
}

/// A channel of a bright color: full where the base color has any of it.
pub open spec fn bright_channel(v: u8) -> u8 {
    if v == 0 { 0 } else { 255 }
}

/// The bright variant of a color, as terminals render bold colors.
pub open spec fn bright_of(c: Color) -> Color {
    if c == (Color { red: 0, green: 0, blue: 0 }) {
        bright_black()
    } else {
        Color {
            red: bright_channel(c.red),
            green: bright_channel(c.green),
            blue: bright_channel(c.blue),
        }
    }
}

impl Color {
    pub fn red(&self) -> (r: u8)
        ensures
            r == self.red,
    {
        self.red
    }

    pub fn green(&self) -> (r: u8)
        ensures
            r == self.green,
    {
        self.green
    }

    pub fn blue(&self) -> (r: u8)
        ensures
            r == self.blue,
    {
        self.blue
    }

    /// Black: all three channels off.
    pub fn Black() -> (r: Color)
        ensures
            r == (Color { red: 0, green: 0, blue: 0 }),
    {
        Color { red: 0, green: 0, blue: 0 }
    }

    /// Red at half intensity.
    pub fn Red() -> (r: Color)
        ensures
            r == (Color { red: 128, green: 0, blue: 0 }),
    {
        Color { red: 128, green: 0, blue: 0 }
    }

    /// Green at half intensity.
    pub fn Green() -> (r: Color)
        ensures
            r == (Color { red: 0, green: 128, blue: 0 }),
    {
        Color { red: 0, green: 128, blue: 0 }
    }

    /// Yellow at half intensity.
    pub fn Yellow() -> (r: Color)
        ensures
            r == (Color { red: 128, green: 128, blue: 0 }),
    {
        Color { red: 128, green: 128, blue: 0 }
    }

    /// Blue at half intensity.
    pub fn Blue() -> (r: Color)
        ensures
            r == (Color { red: 0, green: 0, blue: 128 }),
    {
        Color { red: 0, green: 0, blue: 128 }
    }

    /// Magenta at half intensity.
    pub fn Magenta() -> (r: Color)
        ensures
            r == (Color { red: 128, green: 0, blue: 128 }),
    {
        Color { red: 128, green: 0, blue: 128 }
    }

    /// Cyan at half intensity.
    pub fn Cyan() -> (r: Color)
        ensures
            r == (Color { red: 0, green: 128, blue: 128 }),
    {
        Color { red: 0, green: 128, blue: 128 }
    }

    /// White as the terminal's light gray.
    pub fn White() -> (r: Color)
        ensures
            r == (Color { red: 192, green: 192, blue: 192 }),
    {
        Color { red: 192, green: 192, blue: 192 }
    }

    /// The bright variant of `color`: black becomes mid gray, otherwise
    /// every channel that is on goes to full and every channel that is off
    /// stays off.
    pub fn make_bright(color: Color) -> (r: Color)
        ensures
            r == bright_of(color),
            color == (Color { red: 0, green: 0, blue: 0 }) ==> r == bright_black(),
            color != (Color { red: 0, green: 0, blue: 0 }) ==> {
                &&& r.red == (if color.red == 0 { 0u8 } else { 255u8 })
                &&& r.green == (if color.green == 0 { 0u8 } else { 255u8 })
                &&& r.blue == (if color.blue == 0 { 0u8 } else { 255u8 })
            },
    {
        let mut color = color;
        if color.green == 0 && color.blue == 0 && color.red == 0 {
            color.green = 128;
            color.blue = 128;
            color.red = 128;
            return color;
        }
        if color.blue != 0 {
            color.blue = 255;
        }
        if color.green != 0 {
            color.green = 255;
        }
        if color.red != 0 {
            color.red = 255;
        }
        color
    }
}

/// An element of a text read from a terminal stream: a run of characters,
/// or a marker that stands between two runs.
#[derive(PartialEq, Eq, PartialOrd, Ord, Debug)]
pub enum TextElement<T> {
    Text(String),
    Marker(T),
}

/// Begins (`Apply`) or ends (`UnSet`) an attribute from this point of the
/// stream onward.
#[derive(PartialEq, Eq, Structural, PartialOrd, Ord, Debug, Clone, Copy)]
pub enum Toggle<T> {
    Apply(T),
    UnSet(T),
}

/// A text as an ordered list of elements; the order is document order.
#[derive(PartialEq, Eq, PartialOrd, Ord, Debug)]
pub struct Text<T> {
    pub text: Vec<TextElement<T>>,
}

/// What an element stands for: the characters of a run, or a marker.
pub enum Piece<T> {
    Lit(Seq<char>),
    Mark(T),
}

impl<T> View for TextElement<T> {
    type V = Piece<T>;

    open spec fn view(&self) -> Piece<T> {
        match self {
            TextElement::Text(s) => Piece::Lit(s@),
            TextElement::Marker(m) => Piece::Mark(*m),
        }
    }
}

impl<T> View for Text<T> {
    type V = Seq<Piece<T>>;

    open spec fn view(&self) -> Seq<Piece<T>> {
        self.text@.map_values(|e: TextElement<T>| e@)
    }
}

/// Appends a character to a string.
pub assume_specification[ String::push ](s: &mut String, ch: char)
    ensures
        final(s)@ == old(s)@.push(ch),
;

} // verus!
