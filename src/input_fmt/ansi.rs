//! The ANSI escape grammar: Fe escape sequences, CSI control sequences,
//! Select Graphic Rendition parameter lists and their color encodings.
use crate::common;
use crate::common::Piece;
use std::str::Chars;
use vstd::prelude::*;
use vstd::std_specs::iter::IteratorSpec;

verus! {

broadcast use vstd::string::group_string_axioms;

pub type Color = common::Color;

/// The ASCII escape character that introduces every escape sequence.
pub const ESC: char = '\u{1b}';

/// The eight standard colors, by their index in SGR codes 30 to 37.
pub open spec fn index_color(index: u8) -> Option<Color> {
    if index == 0 {
        Some(Color { red: 0, green: 0, blue: 0 })
    } else if index == 1 {
        Some(Color { red: 128, green: 0, blue: 0 })
    } else if index == 2 {
        Some(Color { red: 0, green: 128, blue: 0 })
    } else if index == 3 {
        Some(Color { red: 128, green: 128, blue: 0 })
    } else if index == 4 {
        Some(Color { red: 0, green: 0, blue: 128 })
    } else if index == 5 {
        Some(Color { red: 128, green: 0, blue: 128 })
    } else if index == 6 {
        Some(Color { red: 0, green: 128, blue: 128 })
    } else if index == 7 {
        Some(Color { red: 192, green: 192, blue: 192 })
    } else {
        None
    }
}

/// The color of an entry of the 256 color palette, read as a 3-3-2 bit cube.
pub open spec fn cube_color(c: u8) -> Color {
    Color {
        red: ((c >> 5u8) as int * 32) as u8,
        green: (((c & 28u8) >> 2u8) as int * 32) as u8,
        blue: ((c & 3u8) as int * 32) as u8,
    }
}

/// The parameter at `i`, or 0 where the list has ended.
pub open spec fn arg_or_zero(params: Seq<u8>, i: int) -> u8 {
    if 0 <= i < params.len() {
        params[i]
    } else {
        0
    }
}

/// The color that the parameters after a 38, 48 or 58 select, and how many
/// of them the selection takes.
pub open spec fn color_decode(params: Seq<u8>) -> (Option<Color>, nat) {
    if params.len() == 0 {
        (None, 0)
    } else if params[0] == 2 {
        (
            Some(
                Color {
                    red: arg_or_zero(params, 1),
                    green: arg_or_zero(params, 2),
                    blue: arg_or_zero(params, 3),
                },
            ),
            if params.len() < 4 {
                params.len()
            } else {
                4
            },
        )
    } else if params[0] == 5 {
        if params.len() >= 2 {
            (Some(cube_color(params[1])), 2)
        } else {
            (Some(Color { red: 0, green: 0, blue: 0 }), 1)
        }
    } else {
        (None, 1)
    }
}

/// A list held as a stack: its last item comes first.
pub open spec fn stack_order(s: Seq<u8>) -> Seq<u8> {
    Seq::new(s.len(), |i: int| s[s.len() - 1 - i])
}

pub proof fn lemma_stack_order_pop(s: Seq<u8>, n: int)
    requires
        0 <= n <= s.len(),
    ensures
        stack_order(s.subrange(0, s.len() - n)) == stack_order(s).skip(n),
{
    assert(stack_order(s.subrange(0, s.len() - n)) =~= stack_order(s).skip(n));
}

impl Color {
    /// One of the eight standard colors; `None` for an index above 7.
    pub fn from_index(index: u8) -> (r: Option<Color>)
        ensures
            r == index_color(index),
    {
        match index {
            0 => Some(Color::Black()),
            1 => Some(Color::Red()),
            2 => Some(Color::Green()),
            3 => Some(Color::Yellow()),
            4 => Some(Color::Blue()),
            5 => Some(Color::Magenta()),
            6 => Some(Color::Cyan()),
            7 => Some(Color::White()),
            _ => None,
        }
    }

    /// Decodes a color selection from `args`, a stack whose last item is the
    /// next parameter. Mode 2 takes red, green and blue (0 where missing);
    /// mode 5 takes a palette entry (black where missing); any other mode,
    /// or none, selects no color. The parameters taken are popped.
    pub fn from_args(args: &mut Vec<u8>) -> (r: Option<Color>)
        ensures
            r == color_decode(stack_order(old(args)@)).0,
            final(args)@ == old(args)@.subrange(
                0,
                old(args)@.len() - color_decode(stack_order(old(args)@)).1,
            ),
    {
        proof {
            lemma_stack_order_pop(args@, 0);
        }
        match args.pop() {
            Some(mode) => {
                if mode == 2 {
                    let red = match args.pop() {
                        Some(v) => v,
                        None => 0,
                    };
                    let green = match args.pop() {
                        Some(v) => v,
                        None => 0,
                    };
                    let blue = match args.pop() {
                        Some(v) => v,
                        None => 0,
                    };
                    Some(Color { red, green, blue })
                } else if mode == 5 {
                    match args.pop() {
                        Some(c) => {
                            assert((c >> 5u8) <= 7u8) by (bit_vector);
                            assert(((c & 28u8) >> 2u8) <= 7u8) by (bit_vector);
                            assert((c & 3u8) <= 3u8) by (bit_vector);
                            Some(
                                Color {
                                    red: (c >> 5u8) * 32,
                                    green: ((c & 28u8) >> 2u8) * 32,
                                    blue: (c & 3u8) * 32,
                                },
                            )
                        },
                        None => Some(Color::Black()),
                    }
                } else {
                    None
                }
            },
            None => None,
        }
    }
}

/// The Select Graphic Rendition directives that terminals commonly know.
#[derive(PartialEq, Eq, Structural, PartialOrd, Ord, Debug, Clone, Copy)]
pub enum SelectGraphicRendition {
    Normal,
    Bold,
    Faint,
    Italic,
    Underline,
    SlowBlink,
    RapidBlink,
    Invert,
    Conceal,
    CrossedOut,
    Font(u8),
    DoublyUnderlined,
    NormalIntensity,
    NotItalic,
    NotUnderlined,
    NotBlinking,
    ProportionalSpacing,
    NotReveresed,
    Reveal,
    NotCrossedOut,
    ForgroundColor(Option<Color>),
    BackgroundColor(Option<Color>),
    DisableProportionalSpacing,
    Framed,
    Encircled,
    Overlined,
    NeitherFramedNorEncircled,
    NotOverlined,
    SetUnderlineColor(Option<Color>),
    IdeogramUnderline,
    IdeogramDoubleUnderline,
    IdeogramOverline,
    IdeogramDoubleOverline,
    IdeogramStressMarking,
    NoIdeogram,
    Superscript,
    Subscript,
    NethirSuperOrSubScript,
}

/// The bright variant of a standard color, as codes 90 to 97 and 100 to 107
/// select it.
pub open spec fn bright_index_color(index: u8) -> Option<Color> {
    match index_color(index) {
        Some(c) => Some(common::bright_of(c)),
        None => None,
    }
}

/// The directive of an SGR code that takes no further parameters; `None`
/// for a code that is not known. Codes 38, 48 and 58 are decoded with the
/// parameters that follow them (see `sgr_scan`).
pub open spec fn sgr_code(code: u8) -> Option<SelectGraphicRendition> {
    if code == 0 {
        Some(SelectGraphicRendition::Normal)
    } else if code == 1 {
        Some(SelectGraphicRendition::Bold)
    } else if code == 2 {
        Some(SelectGraphicRendition::Faint)
    } else if code == 3 {
        Some(SelectGraphicRendition::Italic)
    } else if code == 4 {
        Some(SelectGraphicRendition::Underline)
    } else if code == 5 {
        Some(SelectGraphicRendition::SlowBlink)
    } else if code == 6 {
        Some(SelectGraphicRendition::RapidBlink)
    } else if code == 7 {
        Some(SelectGraphicRendition::Invert)
    } else if code == 8 {
        Some(SelectGraphicRendition::Conceal)
    } else if code == 9 {
        Some(SelectGraphicRendition::CrossedOut)
    } else if 10 <= code <= 20 {
        Some(SelectGraphicRendition::Font((code - 10) as u8))
    } else if code == 21 {
        Some(SelectGraphicRendition::DoublyUnderlined)
    } else if code == 22 {
        Some(SelectGraphicRendition::NormalIntensity)
    } else if code == 23 {
        Some(SelectGraphicRendition::NotItalic)
    } else if code == 24 {
        Some(SelectGraphicRendition::NotUnderlined)
    } else if code == 25 {
        Some(SelectGraphicRendition::NotBlinking)
    } else if code == 26 {
        Some(SelectGraphicRendition::ProportionalSpacing)
    } else if code == 27 {
        Some(SelectGraphicRendition::NotReveresed)
    } else if code == 28 {
        Some(SelectGraphicRendition::Reveal)
    } else if code == 29 {
        Some(SelectGraphicRendition::NotCrossedOut)
    } else if 30 <= code <= 37 {
        Some(SelectGraphicRendition::ForgroundColor(index_color((code - 30) as u8)))
    } else if code == 39 {
        Some(SelectGraphicRendition::ForgroundColor(None))
    } else if 40 <= code <= 47 {
        Some(SelectGraphicRendition::BackgroundColor(index_color((code - 40) as u8)))
    } else if code == 49 {
        Some(SelectGraphicRendition::BackgroundColor(None))
    } else if code == 50 {
        Some(SelectGraphicRendition::DisableProportionalSpacing)
    } else if code == 51 {
        Some(SelectGraphicRendition::Framed)
    } else if code == 52 {
        Some(SelectGraphicRendition::Encircled)
    } else if code == 53 {
        Some(SelectGraphicRendition::Overlined)
    } else if code == 54 {
        Some(SelectGraphicRendition::NeitherFramedNorEncircled)
    } else if code == 55 {
        Some(SelectGraphicRendition::NotOverlined)
    } else if code == 59 {
        Some(SelectGraphicRendition::SetUnderlineColor(None))
    } else if code == 60 {
        Some(SelectGraphicRendition::IdeogramUnderline)
    } else if code == 61 {
        Some(SelectGraphicRendition::IdeogramDoubleUnderline)
    } else if code == 62 {
        Some(SelectGraphicRendition::IdeogramOverline)
    } else if code == 63 {
        Some(SelectGraphicRendition::IdeogramDoubleOverline)
    } else if code == 64 {
        Some(SelectGraphicRendition::IdeogramStressMarking)
    } else if code == 65 {
        Some(SelectGraphicRendition::NoIdeogram)
    } else if code == 73 {
        Some(SelectGraphicRendition::Superscript)
    } else if code == 74 {
        Some(SelectGraphicRendition::Subscript)
    } else if code == 75 {
        Some(SelectGraphicRendition::NethirSuperOrSubScript)
    } else if 90 <= code <= 97 {
        Some(SelectGraphicRendition::ForgroundColor(bright_index_color((code - 90) as u8)))
    } else if 100 <= code <= 107 {
        Some(SelectGraphicRendition::BackgroundColor(bright_index_color((code - 100) as u8)))
    } else {
        None
    }
}

/// Whether a code takes a color selection from the parameters after it.
pub open spec fn is_color_code(code: u8) -> bool {
    code == 38 || code == 48 || code == 58
}

/// The directive of a code that takes a color selection.
pub open spec fn color_directive(code: u8, c: Option<Color>) -> SelectGraphicRendition {
    if code == 38 {
        SelectGraphicRendition::ForgroundColor(c)
    } else if code == 48 {
        SelectGraphicRendition::BackgroundColor(c)
    } else {
        SelectGraphicRendition::SetUnderlineColor(c)
    }
}

/// The directives of a parameter list, read left to right; unknown codes
/// are skipped.
pub open spec fn sgr_scan(params: Seq<u8>) -> Seq<SelectGraphicRendition>
    decreases params.len(),
{
    if params.len() == 0 {
        seq![]
    } else {
        let code = params[0];
        let rest = params.skip(1);
        if is_color_code(code) {
            let sel = color_decode(rest);
            seq![color_directive(code, sel.0)] + sgr_scan(rest.skip(sel.1 as int))
        } else {
            match sgr_code(code) {
                Some(g) => seq![g] + sgr_scan(rest),
                None => sgr_scan(rest),
            }
        }
    }
}

/// The directives of an SGR parameter list: an empty list resets all.
pub open spec fn sgr_decode(params: Seq<u8>) -> Seq<SelectGraphicRendition> {
    if params.len() == 0 {
        seq![SelectGraphicRendition::Normal]
    } else {
        sgr_scan(params)
    }
}

/// The directive of a single code that takes no further parameters.
fn code_directive(code: u8) -> (r: Option<SelectGraphicRendition>)
    requires
        !is_color_code(code),
    ensures
        r == sgr_code(code),
{
    match code {
        0 => Some(SelectGraphicRendition::Normal),
        1 => Some(SelectGraphicRendition::Bold),
        2 => Some(SelectGraphicRendition::Faint),
        3 => Some(SelectGraphicRendition::Italic),
        4 => Some(SelectGraphicRendition::Underline),
        5 => Some(SelectGraphicRendition::SlowBlink),
        6 => Some(SelectGraphicRendition::RapidBlink),
        7 => Some(SelectGraphicRendition::Invert),
        8 => Some(SelectGraphicRendition::Conceal),
        9 => Some(SelectGraphicRendition::CrossedOut),
        10..=20 => Some(SelectGraphicRendition::Font(code - 10)),
        21 => Some(SelectGraphicRendition::DoublyUnderlined),
        22 => Some(SelectGraphicRendition::NormalIntensity),
        23 => Some(SelectGraphicRendition::NotItalic),
        24 => Some(SelectGraphicRendition::NotUnderlined),
        25 => Some(SelectGraphicRendition::NotBlinking),
        26 => Some(SelectGraphicRendition::ProportionalSpacing),
        27 => Some(SelectGraphicRendition::NotReveresed),
        28 => Some(SelectGraphicRendition::Reveal),
        29 => Some(SelectGraphicRendition::NotCrossedOut),
        30..=37 => Some(SelectGraphicRendition::ForgroundColor(Color::from_index(code - 30))),
        39 => Some(SelectGraphicRendition::ForgroundColor(None)),
        40..=47 => Some(SelectGraphicRendition::BackgroundColor(Color::from_index(code - 40))),
        49 => Some(SelectGraphicRendition::BackgroundColor(None)),
        50 => Some(SelectGraphicRendition::DisableProportionalSpacing),
        51 => Some(SelectGraphicRendition::Framed),
        52 => Some(SelectGraphicRendition::Encircled),
        53 => Some(SelectGraphicRendition::Overlined),
        54 => Some(SelectGraphicRendition::NeitherFramedNorEncircled),
        55 => Some(SelectGraphicRendition::NotOverlined),
        59 => Some(SelectGraphicRendition::SetUnderlineColor(None)),
        60 => Some(SelectGraphicRendition::IdeogramUnderline),
        61 => Some(SelectGraphicRendition::IdeogramDoubleUnderline),
        62 => Some(SelectGraphicRendition::IdeogramOverline),
        63 => Some(SelectGraphicRendition::IdeogramDoubleOverline),
        64 => Some(SelectGraphicRendition::IdeogramStressMarking),
        65 => Some(SelectGraphicRendition::NoIdeogram),
        73 => Some(SelectGraphicRendition::Superscript),
        74 => Some(SelectGraphicRendition::Subscript),
        75 => Some(SelectGraphicRendition::NethirSuperOrSubScript),
        90..=97 => match Color::from_index(code - 90) {
            Some(c) => Some(SelectGraphicRendition::ForgroundColor(Some(Color::make_bright(c)))),
            None => Some(SelectGraphicRendition::ForgroundColor(None)),
        },
        100..=107 => match Color::from_index(code - 100) {
            Some(c) => Some(SelectGraphicRendition::BackgroundColor(Some(Color::make_bright(c)))),
            None => Some(SelectGraphicRendition::BackgroundColor(None)),
        },
        _ => None,
    }
}

impl SelectGraphicRendition {
    /// Decodes an SGR parameter list, left to right, into its directives.
    /// Codes 38, 48 and 58 take the color selection that follows them;
    /// unknown codes are skipped; an empty list resets all. Every parameter
    /// is taken from `args`.
    pub fn from(args: &mut Vec<u8>) -> (r: Vec<SelectGraphicRendition>)
        ensures
            r@ == sgr_decode(old(args)@),
            final(args)@.len() == 0,
    {
        if args.len() == 0 {
            return vec![SelectGraphicRendition::Normal];
        }
        let ghost params = args@;
        let mut pending: Vec<u8> = Vec::new();
        while args.len() > 0
            invariant
                args@ + stack_order(pending@) == params,
            decreases args.len(),
        {
            let ghost before = pending@;
            let code = args.pop().unwrap();
            pending.push(code);
            assert(stack_order(pending@) =~= seq![code] + stack_order(before));
            assert(args@ + stack_order(pending@) =~= params);
        }
        assert(stack_order(pending@) =~= params);
        let mut graphics: Vec<SelectGraphicRendition> = Vec::new();
        while pending.len() > 0
            invariant
                sgr_scan(params) == graphics@ + sgr_scan(stack_order(pending@)),
            decreases pending.len(),
        {
            let ghost rest = stack_order(pending@);
            let ghost before_pop = pending@;
            let code = pending.pop().unwrap();
            proof {
                lemma_stack_order_pop(before_pop, 1);
                assert(before_pop.subrange(0, before_pop.len() - 1) =~= pending@);
            }
            assert(rest[0] == code);
            let ghost g0 = graphics@;
            if code == 38 || code == 48 || code == 58 {
                let ghost before = pending@;
                let c = Color::from_args(&mut pending);
                proof {
                    lemma_stack_order_pop(before, color_decode(stack_order(before)).1 as int);
                }
                let g = if code == 38 {
                    SelectGraphicRendition::ForgroundColor(c)
                } else if code == 48 {
                    SelectGraphicRendition::BackgroundColor(c)
                } else {
                    SelectGraphicRendition::SetUnderlineColor(c)
                };
                graphics.push(g);
                assert(graphics@ + sgr_scan(stack_order(pending@)) =~= g0 + sgr_scan(rest));
            } else {
                match code_directive(code) {
                    Some(g) => {
                        graphics.push(g);
                        assert(graphics@ + sgr_scan(stack_order(pending@)) =~= g0 + sgr_scan(rest));
                    },
                    None => {},
                }
            }
        }
        graphics
    }
}

/// `s` cut at every `sep`; the pieces keep their order, and an empty input
/// gives one empty piece.
pub open spec fn split_on(s: Seq<char>, sep: char) -> Seq<Seq<char>>
    decreases s.len(),
{
    if s.len() == 0 {
        seq![Seq::empty()]
    } else {
        let front = split_on(s.drop_last(), sep);
        if s.last() == sep {
            front.push(Seq::empty())
        } else {
            front.update(front.len() - 1, front.last().push(s.last()))
        }
    }
}

/// One step of `split_on`: the pieces of a longer prefix.
pub proof fn lemma_split_on_step(s: Seq<char>, sep: char, done: Seq<Seq<char>>, start: int, i: int)
    requires
        0 <= start <= i < s.len(),
        split_on(s.take(i), sep) == done.push(s.subrange(start, i)),
    ensures
        s[i] == sep ==> split_on(s.take(i + 1), sep) == done.push(s.subrange(start, i)).push(
            s.subrange(i + 1, i + 1),
        ),
        s[i] != sep ==> split_on(s.take(i + 1), sep) == done.push(s.subrange(start, i + 1)),
{
    assert(s.take(i + 1).drop_last() =~= s.take(i));
    assert(s.subrange(start, i).push(s[i]) =~= s.subrange(start, i + 1));
    assert(s.subrange(i + 1, i + 1) =~= Seq::<char>::empty());
    if s[i] != sep {
        assert(done.push(s.subrange(start, i)).update(done.len() as int, s.subrange(start, i + 1))
            =~= done.push(s.subrange(start, i + 1)));
    }
}

/// The value of a decimal digit; `None` for any other character.
pub open spec fn digit_value(c: char) -> Option<u32> {
    if c == '0' {
        Some(0)
    } else if c == '1' {
        Some(1)
    } else if c == '2' {
        Some(2)
    } else if c == '3' {
        Some(3)
    } else if c == '4' {
        Some(4)
    } else if c == '5' {
        Some(5)
    } else if c == '6' {
        Some(6)
    } else if c == '7' {
        Some(7)
    } else if c == '8' {
        Some(8)
    } else if c == '9' {
        Some(9)
    } else {
        None
    }
}

pub open spec fn is_digit(c: char) -> bool {
    digit_value(c) is Some
}

fn digit_of(c: char) -> (r: Option<u32>)
    ensures
        r == digit_value(c),
{
    match c {
        '0' => Some(0),
        '1' => Some(1),
        '2' => Some(2),
        '3' => Some(3),
        '4' => Some(4),
        '5' => Some(5),
        '6' => Some(6),
        '7' => Some(7),
        '8' => Some(8),
        '9' => Some(9),
        _ => None,
    }
}

/// The number that a run of decimal digits writes.
pub open spec fn digits_value(d: Seq<char>) -> int
    decreases d.len(),
{
    if d.len() == 0 {
        0
    } else {
        digits_value(d.drop_last()) * 10 + digit_value(d.last()).unwrap_or(0)
    }
}

/// A field without the one leading `+` that a number may carry.
pub open spec fn unsigned_digits(f: Seq<char>) -> Seq<char> {
    if f.len() > 0 && f[0] == '+' {
        f.skip(1)
    } else {
        f
    }
}

/// Whether `f` writes a byte as std's `u8` parser reads it: an optional
/// `+`, then one or more decimal digits, of value at most 255.
pub open spec fn is_byte_text(f: Seq<char>) -> bool {
    let d = unsigned_digits(f);
    &&& d.len() > 0
    &&& forall|i: int| 0 <= i < d.len() ==> is_digit(#[trigger] d[i])
    &&& digits_value(d) <= 255
}

/// The value of an argument field: the byte it writes, or 0 for a field
/// that is empty or is not a byte.
pub open spec fn field_value(f: Seq<char>) -> u8 {
    if is_byte_text(f) {
        digits_value(unsigned_digits(f)) as u8
    } else {
        0
    }
}

/// An argument text without the one trailing `;` it may end with.
pub open spec fn trim_separator(s: Seq<char>) -> Seq<char> {
    if s.len() > 0 && s.last() == ';' {
        s.drop_last()
    } else {
        s
    }
}

/// The numeric arguments of a control sequence: the `;` separated fields
/// of its text, each read as a byte.
pub open spec fn parse_args(s: Seq<char>) -> Seq<u8> {
    split_on(trim_separator(s), ';').map_values(|f: Seq<char>| field_value(f))
}

/// The characters of `s`, in order.
pub fn chars_of(s: &str) -> (r: Vec<char>)
    ensures
        r@ == s@,
{
    let mut it = s.chars();
    let mut out: Vec<char> = Vec::new();
    loop
        invariant
            out@ + it.remaining() == s@,
            it.decrease() is Some,
        ensures
            out@ == s@,
        decreases it.decrease()->0,
    {
        match it.next() {
            Some(c) => {
                out.push(c);
            },
            None => {
                assert(out@ =~= s@);
                break;
            },
        }
    }
    out
}

/// A string of the characters `cs[lo..hi]`.
pub fn string_of(cs: &Vec<char>, lo: usize, hi: usize) -> (r: String)
    requires
        lo <= hi <= cs@.len(),
    ensures
        r@ == cs@.subrange(lo as int, hi as int),
{
    let mut out = String::new();
    let mut i = lo;
    while i < hi
        invariant
            lo <= i <= hi <= cs@.len(),
            out@ == cs@.subrange(lo as int, i as int),
        decreases hi - i,
    {
        out.push(cs[i]);
        assert(out@ =~= cs@.subrange(lo as int, i + 1));
        i += 1;
    }
    out
}

/// The value of the argument field `cs[lo..hi]`.
fn field_of(cs: &Vec<char>, lo: usize, hi: usize) -> (r: u8)
    requires
        lo <= hi <= cs@.len(),
    ensures
        r == field_value(cs@.subrange(lo as int, hi as int)),
{
    let ghost f = cs@.subrange(lo as int, hi as int);
    let mut i = lo;
    if i < hi && cs[i] == '+' {
        i += 1;
    }
    let start = i;
    assert(unsigned_digits(f) =~= cs@.subrange(start as int, hi as int));
    if start == hi {
        return 0;
    }
    let mut value: u32 = 0;
    let mut too_large = false;
    while i < hi
        invariant
            start <= i <= hi <= cs@.len(),
            f == cs@.subrange(lo as int, hi as int),
            unsigned_digits(f) == cs@.subrange(start as int, hi as int),
            forall|j: int| start <= j < i ==> is_digit(#[trigger] cs@[j]),
            !too_large ==> value <= 255 && value as int == digits_value(
                cs@.subrange(start as int, i as int),
            ),
            too_large ==> digits_value(cs@.subrange(start as int, i as int)) > 255,
            digits_value(cs@.subrange(start as int, i as int)) >= 0,
        decreases hi - i,
    {
        let c = cs[i];
        let ghost d = cs@.subrange(start as int, i + 1);
        assert(d.drop_last() =~= cs@.subrange(start as int, i as int));
        let digit = match digit_of(c) {
            Some(v) => v,
            None => {
                assert(!is_digit(unsigned_digits(f)[i - start]));
                return 0;
            },
        };
        if !too_large {
            let next = value * 10 + digit;
            if next > 255 {
                too_large = true;
            } else {
                value = next;
            }
        }
        i += 1;
    }
    assert(cs@.subrange(start as int, i as int) =~= unsigned_digits(f));
    if too_large {
        0
    } else {
        value as u8
    }
}

/// The control sequences (`ESC [` ... command letter) that are known.
#[derive(PartialEq, Eq, PartialOrd, Ord, Debug)]
pub enum ControlSequence {
    CursorUp(u8),
    CursorDown(u8),
    CursorForward(u8),
    CursorBack(u8),
    CursorNextLine(u8),
    CursorPreviousLine(u8),
    CursorHorizontalAbsolute(u8),
    CursorPosition(u8, u8),
    EraseInDisplay(u8),
    EraseInLine(u8),
    ScrollUp(u8),
    ScrollDown(u8),
    HorizonalVerticalPosition(u8, u8),
    SelectGraphicalRendition(Vec<SelectGraphicRendition>),
    AUXPortOn,
    AUXPortOff,
    DeviceStatusReport,
    SaveCursorPosistion,
    RestoreCursorPosistion,
    VT220Cursor,
    HideCursor,
    EnableReportingFocus,
    DisableReportingFocus,
    EnableAltScreenBuf,
    DisableAltScreenBuf,
    BracketPasteMode,
    NoBracketPasteMode,
}

impl ControlSequence {
    /// Reads the `;` separated numeric arguments of a control sequence.
    /// A trailing `;` is first removed from `text`; a field that is empty
    /// or not a byte counts as 0.
    pub fn get_args(text: &mut String) -> (r: Vec<u8>)
        ensures
            final(text)@ == trim_separator(old(text)@),
            r@ == parse_args(old(text)@),
    {
        let cs = chars_of(text.as_str());
        let mut n = cs.len();
        if n > 0 && cs[n - 1] == ';' {
            n = n - 1;
            *text = string_of(&cs, 0, n);
            assert(cs@.take(n as int) =~= cs@.subrange(0, n as int));
        }
        let ghost t = trim_separator(cs@);
        assert(t =~= cs@.take(n as int));
        let mut args: Vec<u8> = Vec::new();
        let ghost mut done: Seq<Seq<char>> = seq![];
        let mut start: usize = 0;
        let mut i: usize = 0;
        assert(t.take(0) =~= Seq::<char>::empty());
        assert(t.subrange(0, 0) =~= Seq::<char>::empty());
        while i < n
            invariant
                n <= cs@.len(),
                t == cs@.take(n as int),
                start <= i <= n,
                split_on(t.take(i as int), ';') == done.push(t.subrange(start as int, i as int)),
                args@ == done.map_values(|f: Seq<char>| field_value(f)),
            decreases n - i,
        {
            proof {
                lemma_split_on_step(t, ';', done, start as int, i as int);
            }
            if cs[i] == ';' {
                let v = field_of(&cs, start, i);
                assert(cs@.subrange(start as int, i as int) =~= t.subrange(start as int, i as int));
                proof {
                    done = done.push(t.subrange(start as int, i as int));
                }
                args.push(v);
                assert(args@ =~= done.map_values(|f: Seq<char>| field_value(f)));
                start = i + 1;
            }
            i += 1;
        }
        let v = field_of(&cs, start, n);
        assert(cs@.subrange(start as int, n as int) =~= t.subrange(start as int, n as int));
        assert(t.take(n as int) =~= t);
        proof {
            done = done.push(t.subrange(start as int, n as int));
        }
        args.push(v);
        assert(args@ =~= done.map_values(|f: Seq<char>| field_value(f)));
        args
    }
}

/// The command letters that end a control sequence.
pub open spec fn is_terminator(c: char) -> bool {
    c == 'm' || c == 'A' || c == 'B' || c == 'C' || c == 'D' || c == 'E' || c == 'F' || c == 'G'
        || c == 'H' || c == 'J' || c == 'K' || c == 'S' || c == 'T' || c == 'f' || c == 'i'
        || c == 'h' || c == 'l' || c == 'n' || c == 's' || c == 'u'
}

fn is_command(c: char) -> (r: bool)
    ensures
        r == is_terminator(c),
{
    matches!(
        c,
        'm' | 'A' | 'B' | 'C' | 'D' | 'E' | 'F' | 'G' | 'H' | 'J' | 'K' | 'S' | 'T' | 'f' | 'i'
            | 'h' | 'l' | 'n' | 's' | 'u'
    )
}

/// The position of the first command letter in `s`, or its length where
/// there is none.
pub open spec fn term_index(s: Seq<char>) -> nat
    decreases s.len(),
{
    if s.len() == 0 {
        0
    } else if is_terminator(s[0]) {
        0
    } else {
        1 + term_index(s.skip(1))
    }
}

/// The argument at `i`, or 1 where it is left out.
pub open spec fn arg_or_one(args: Seq<u8>, i: int) -> u8 {
    if 0 <= i < args.len() {
        args[i]
    } else {
        1
    }
}

/// The numeric arguments of a control sequence other than SGR: none where
/// the text before the command letter is empty, so that every count and
/// position is left out and takes its default.
pub open spec fn csi_args(body: Seq<char>) -> Seq<u8> {
    if body.len() == 0 {
        seq![]
    } else {
        parse_args(body)
    }
}

/// The control sequence that a command letter other than `m` makes of the
/// text before it; `None` where the pair is not known. A count or position
/// that is left out is 1.
pub open spec fn csi_op(body: Seq<char>, term: char) -> Option<ControlSequence> {
    let args = csi_args(body);
    let a = arg_or_one(args, 0);
    let b = arg_or_one(args, 1);
    if term == 'A' {
        Some(ControlSequence::CursorUp(a))
    } else if term == 'B' {
        Some(ControlSequence::CursorDown(a))
    } else if term == 'C' {
        Some(ControlSequence::CursorForward(a))
    } else if term == 'D' {
        Some(ControlSequence::CursorBack(a))
    } else if term == 'E' {
        Some(ControlSequence::CursorNextLine(a))
    } else if term == 'F' {
        Some(ControlSequence::CursorPreviousLine(a))
    } else if term == 'G' {
        Some(ControlSequence::CursorHorizontalAbsolute(a))
    } else if term == 'H' {
        Some(ControlSequence::CursorPosition(a, b))
    } else if term == 'J' {
        Some(ControlSequence::EraseInDisplay(a))
    } else if term == 'K' {
        Some(ControlSequence::EraseInLine(a))
    } else if term == 'S' {
        Some(ControlSequence::ScrollUp(a))
    } else if term == 'T' {
        Some(ControlSequence::ScrollDown(a))
    } else if term == 'f' {
        Some(ControlSequence::HorizonalVerticalPosition(a, b))
    } else if term == 'i' {
        if args.len() > 0 && args[0] == 5 {
            Some(ControlSequence::AUXPortOn)
        } else if args.len() > 0 && args[0] == 4 {
            Some(ControlSequence::AUXPortOff)
        } else {
            None
        }
    } else if term == 'h' {
        if body == "?25"@ {
            Some(ControlSequence::VT220Cursor)
        } else if body == "?1004"@ {
            Some(ControlSequence::EnableReportingFocus)
        } else if body == "?1049"@ {
            Some(ControlSequence::EnableAltScreenBuf)
        } else if body == "?2004"@ {
            Some(ControlSequence::BracketPasteMode)
        } else {
            None
        }
    } else if term == 'l' {
        if body == "?25"@ {
            Some(ControlSequence::HideCursor)
        } else if body == "?1004"@ {
            Some(ControlSequence::DisableReportingFocus)
        } else if body == "?1049"@ {
            Some(ControlSequence::DisableAltScreenBuf)
        } else if body == "?2004"@ {
            Some(ControlSequence::NoBracketPasteMode)
        } else {
            None
        }
    } else if term == 'n' {
        Some(ControlSequence::DeviceStatusReport)
    } else if term == 's' {
        Some(ControlSequence::SaveCursorPosistion)
    } else if term == 'u' {
        Some(ControlSequence::RestoreCursorPosistion)
    } else {
        None
    }
}

/// Whether the characters after `ESC [` hold a known control sequence.
pub open spec fn csi_recognized(s: Seq<char>) -> bool {
    let k = term_index(s) as int;
    &&& k < s.len()
    &&& (s[k] == 'm' || csi_op(s.take(k), s[k]) is Some)
}

/// How many characters after `ESC [` the control sequence parser takes:
/// up to and with the command letter, or all where none comes.
pub open spec fn csi_consumed(s: Seq<char>) -> nat {
    if term_index(s) < s.len() {
        term_index(s) + 1
    } else {
        s.len()
    }
}

/// Whether `cs` is the control sequence that `s`, the characters after
/// `ESC [`, begins with: SGR directives for `m`, `csi_op` for the others.
pub open spec fn csi_denotes(cs: ControlSequence, s: Seq<char>) -> bool {
    let k = term_index(s) as int;
    if s[k] == 'm' {
        match cs {
            ControlSequence::SelectGraphicalRendition(v) => v@ == sgr_decode(parse_args(s.take(k))),
            _ => false,
        }
    } else {
        Some(cs) == csi_op(s.take(k), s[k])
    }
}

/// The argument at `i`, or 1 where it is left out.
fn arg_or_one_at(args: &Vec<u8>, i: usize) -> (r: u8)
    ensures
        r == arg_or_one(args@, i as int),
{
    if i < args.len() {
        args[i]
    } else {
        1
    }
}

/// The control sequence of a command letter other than `m` and the text
/// before it.
fn control_op(body: &mut String, term: char) -> (r: Option<ControlSequence>)
    requires
        is_terminator(term),
        term != 'm',
    ensures
        r == csi_op(old(body)@, term),
{
    if term == 'h' {
        return if *body == String::from_str("?25") {
            Some(ControlSequence::VT220Cursor)
        } else if *body == String::from_str("?1004") {
            Some(ControlSequence::EnableReportingFocus)
        } else if *body == String::from_str("?1049") {
            Some(ControlSequence::EnableAltScreenBuf)
        } else if *body == String::from_str("?2004") {
            Some(ControlSequence::BracketPasteMode)
        } else {
            None
        };
    }
    if term == 'l' {
        return if *body == String::from_str("?25") {
            Some(ControlSequence::HideCursor)
        } else if *body == String::from_str("?1004") {
            Some(ControlSequence::DisableReportingFocus)
        } else if *body == String::from_str("?1049") {
            Some(ControlSequence::DisableAltScreenBuf)
        } else if *body == String::from_str("?2004") {
            Some(ControlSequence::NoBracketPasteMode)
        } else {
            None
        };
    }
    if term == 'n' {
        return Some(ControlSequence::DeviceStatusReport);
    }
    if term == 's' {
        return Some(ControlSequence::SaveCursorPosistion);
    }
    if term == 'u' {
        return Some(ControlSequence::RestoreCursorPosistion);
    }
    let args = if body.as_str().is_empty() {
        Vec::new()
    } else {
        ControlSequence::get_args(body)
    };
    let a = arg_or_one_at(&args, 0);
    match term {
        'A' => Some(ControlSequence::CursorUp(a)),
        'B' => Some(ControlSequence::CursorDown(a)),
        'C' => Some(ControlSequence::CursorForward(a)),
        'D' => Some(ControlSequence::CursorBack(a)),
        'E' => Some(ControlSequence::CursorNextLine(a)),
        'F' => Some(ControlSequence::CursorPreviousLine(a)),
        'G' => Some(ControlSequence::CursorHorizontalAbsolute(a)),
        'H' => Some(ControlSequence::CursorPosition(a, arg_or_one_at(&args, 1))),
        'J' => Some(ControlSequence::EraseInDisplay(a)),
        'K' => Some(ControlSequence::EraseInLine(a)),
        'S' => Some(ControlSequence::ScrollUp(a)),
        'T' => Some(ControlSequence::ScrollDown(a)),
        'f' => Some(ControlSequence::HorizonalVerticalPosition(a, arg_or_one_at(&args, 1))),
        _ => {
            if args.len() > 0 && args[0] == 5 {
                Some(ControlSequence::AUXPortOn)
            } else if args.len() > 0 && args[0] == 4 {
                Some(ControlSequence::AUXPortOff)
            } else {
                None
            }
        },
    }
}

impl ControlSequence {
    /// Parses a control sequence from the characters after `ESC [`: it
    /// takes characters up to and with the first command letter and
    /// dispatches on that letter. Where no command letter comes, every
    /// character is taken and `None` comes back. `chars` is an iterator
    /// made by `str::chars`, which is what the `decrease` condition says.
    pub fn from(chars: &mut Chars) -> (r: Option<ControlSequence>)
        requires
            (*old(chars)).decrease() is Some,
        ensures
            (*final(chars)).remaining() == (*old(chars)).remaining().skip(
                csi_consumed((*old(chars)).remaining()) as int,
            ),
            (*final(chars)).decrease() is Some,
            csi_recognized((*old(chars)).remaining()) ==> r is Some && csi_denotes(
                r->0,
                (*old(chars)).remaining(),
            ),
            !csi_recognized((*old(chars)).remaining()) ==> r is None,
    {
        let ghost s = (*chars).remaining();
        let mut text_buffer = String::new();
        loop
            invariant
                s == (*old(chars)).remaining(),
                text_buffer@ + (*chars).remaining() == s,
                term_index(s) == text_buffer@.len() + term_index((*chars).remaining()),
                (*chars).decrease() is Some,
            decreases (*chars).decrease()->0,
        {
            let ghost rem = (*chars).remaining();
            match chars.next() {
                None => {
                    assert(term_index(rem) == 0);
                    assert(text_buffer@ =~= s);
                    assert(s.skip(s.len() as int) =~= (*chars).remaining());
                    return None;
                },
                Some(c) => {
                    let ghost k = text_buffer@.len() as int;
                    assert(s.take(k) =~= text_buffer@);
                    assert(s[k] == c);
                    assert(s.skip(k + 1) =~= (*chars).remaining());
                    assert(rem[0] == c);
                    proof {
                        if is_terminator(c) {
                            assert(term_index(rem) == 0);
                            assert(term_index(s) == k);
                        }
                    }
                    if c == 'm' {
                        let mut args = ControlSequence::get_args(&mut text_buffer);
                        return Some(
                            ControlSequence::SelectGraphicalRendition(
                                SelectGraphicRendition::from(&mut args),
                            ),
                        );
                    }
                    if is_command(c) {
                        return control_op(&mut text_buffer, c);
                    }
                    assert(rem.skip(1) =~= (*chars).remaining());
                    text_buffer.push(c);
                    assert(text_buffer@ + (*chars).remaining() =~= s);
                },
            }
        }
    }
}

/// The Fe escape sequences: what the character after `ESC` introduces.
#[derive(PartialEq, Eq, PartialOrd, Ord, Debug)]
pub enum FeEscapeSequence {
    SingleShiftTwo,
    SingleShiftThree,
    DeviceControlString,
    ControlSequence(ControlSequence),
    OperatingSystemCommand,
    StringTerminator,
    StartOfString,
    PrivacyMessage,
    ApplicationProgramCommand,
}

/// The escape sequence that a character other than `[` introduces.
pub open spec fn fe_simple(c: char) -> Option<FeEscapeSequence> {
    if c == 'N' || c == 'n' {
        Some(FeEscapeSequence::SingleShiftTwo)
    } else if c == 'O' || c == 'o' {
        Some(FeEscapeSequence::SingleShiftThree)
    } else if c == 'P' || c == 'p' {
        Some(FeEscapeSequence::DeviceControlString)
    } else if c == ']' {
        Some(FeEscapeSequence::OperatingSystemCommand)
    } else if c == 'X' || c == 'x' {
        Some(FeEscapeSequence::StartOfString)
    } else if c == '^' {
        Some(FeEscapeSequence::PrivacyMessage)
    } else if c == '_' {
        Some(FeEscapeSequence::ApplicationProgramCommand)
    } else if c == '\\' {
        Some(FeEscapeSequence::StringTerminator)
    } else {
        None
    }
}

/// Whether the characters after `ESC` begin a known escape sequence.
pub open spec fn fe_recognized(s: Seq<char>) -> bool {
    &&& s.len() > 0
    &&& if s[0] == '[' {
        csi_recognized(s.skip(1))
    } else {
        fe_simple(s[0]) is Some
    }
}

/// How many characters after `ESC` the escape sequence parser takes.
pub open spec fn fe_consumed(s: Seq<char>) -> nat {
    if s.len() == 0 {
        0
    } else if s[0] == '[' {
        1 + csi_consumed(s.skip(1))
    } else {
        1
    }
}

/// The text after the escape sequence that `s`, the characters after `ESC`,
/// begins with. The characters that a control sequence takes are dropped
/// even where it is cut short or not known; where the first character
/// introduces nothing known, `s` stays whole.
pub open spec fn fe_rest(s: Seq<char>) -> Seq<char> {
    if fe_recognized(s) || (s.len() > 0 && s[0] == '[') {
        s.skip(fe_consumed(s) as int)
    } else {
        s
    }
}

/// Whether `fe` is the escape sequence that `s`, the characters after
/// `ESC`, begins with.
pub open spec fn fe_denotes(fe: FeEscapeSequence, s: Seq<char>) -> bool {
    if s[0] == '[' {
        match fe {
            FeEscapeSequence::ControlSequence(cs) => csi_denotes(cs, s.skip(1)),
            _ => false,
        }
    } else {
        Some(fe) == fe_simple(s[0])
    }
}

impl FeEscapeSequence {
    /// Parses the escape sequence that the characters after `ESC` begin
    /// with. It takes one character, and for `[` the control sequence after
    /// it; `None` where no known sequence begins. `chars` is an iterator
    /// made by `str::chars`.
    pub fn from(chars: &mut Chars) -> (r: Option<FeEscapeSequence>)
        requires
            (*old(chars)).decrease() is Some,
        ensures
            (*final(chars)).remaining() == (*old(chars)).remaining().skip(
                fe_consumed((*old(chars)).remaining()) as int,
            ),
            (*final(chars)).decrease() is Some,
            fe_recognized((*old(chars)).remaining()) ==> r is Some && fe_denotes(
                r->0,
                (*old(chars)).remaining(),
            ),
            !fe_recognized((*old(chars)).remaining()) ==> r is None,
    {
        let ghost s = (*chars).remaining();
        match chars.next() {
            Some(c) => {
                assert((*chars).remaining() =~= s.skip(1));
                match c {
                    'N' | 'n' => Some(FeEscapeSequence::SingleShiftTwo),
                    'O' | 'o' => Some(FeEscapeSequence::SingleShiftThree),
                    'P' | 'p' => Some(FeEscapeSequence::DeviceControlString),
                    '[' => {
                        let r = match ControlSequence::from(chars) {
                            Some(cs) => Some(FeEscapeSequence::ControlSequence(cs)),
                            None => None,
                        };
                        assert(s.skip(1).skip(csi_consumed(s.skip(1)) as int) =~= s.skip(
                            fe_consumed(s) as int,
                        ));
                        r
                    },
                    ']' => Some(FeEscapeSequence::OperatingSystemCommand),
                    'X' | 'x' => Some(FeEscapeSequence::StartOfString),
                    '^' => Some(FeEscapeSequence::PrivacyMessage),
                    '_' => Some(FeEscapeSequence::ApplicationProgramCommand),
                    '\\' => Some(FeEscapeSequence::StringTerminator),
                    _ => None,
                }
            },
            None => {
                assert(s.skip(0) =~= s);
                None
            },
        }
    }

    /// Parses the escape sequence at the start of `string` and returns it
    /// with the text after it (see `fe_rest`): a control sequence that is
    /// cut short or not known is dropped, and where the first character
    /// introduces nothing known the text comes back whole. `None` where no
    /// known sequence begins.
    pub fn extract_from(string: &str) -> (r: (String, Option<FeEscapeSequence>))
        ensures
            fe_recognized(string@) ==> r.1 is Some && fe_denotes(r.1->0, string@),
            !fe_recognized(string@) ==> r.1 is None,
            r.0@ == fe_rest(string@),
    {
        let mut probe = string.chars();
        let opens_csi = match probe.next() {
            Some(c) => c == '[',
            None => false,
        };
        let mut chars = string.chars();
        let esc_seq = FeEscapeSequence::from(&mut chars);
        let drops_sequence = match &esc_seq {
            Some(_) => true,
            None => opens_csi,
        };
        if !drops_sequence {
            return (String::from_str(string), esc_seq);
        }
        let mut rest = String::new();
        loop
            invariant
                rest@ + chars.remaining() == string@.skip(fe_consumed(string@) as int),
                chars.decrease() is Some,
            ensures
                rest@ == string@.skip(fe_consumed(string@) as int),
            decreases chars.decrease()->0,
        {
            let ghost rem = chars.remaining();
            let ghost before = rest@;
            match chars.next() {
                Some(c) => {
                    rest.push(c);
                    assert(rest@ + chars.remaining() =~= before + rem);
                },
                None => {
                    assert(rest@ =~= string@.skip(fe_consumed(string@) as int));
                    break;
                },
            }
        }
        (rest, esc_seq)
    }
}

pub type TextElement = common::TextElement<FeEscapeSequence>;

pub type Text = common::Text<FeEscapeSequence>;

/// A run of text as tokens: one literal, or none where it is empty.
pub open spec fn lit_piece(t: Seq<char>) -> Seq<Piece<Seq<char>>> {
    if t.len() == 0 {
        seq![]
    } else {
        seq![Piece::Lit(t)]
    }
}

/// The tokens of a segment that followed an escape character: the escape
/// sequence it begins with, then the text after it. Where no known sequence
/// begins there is no marker, only the text after it. A marker token holds
/// the segment that its escape sequence is read from.
pub open spec fn seg_tokens(seg: Seq<char>) -> Seq<Piece<Seq<char>>> {
    if fe_recognized(seg) {
        seq![Piece::Mark(seg)] + lit_piece(fe_rest(seg))
    } else {
        lit_piece(fe_rest(seg))
    }
}

/// The tokens of the segments of a text: the first segment is plain text,
/// each later one followed an escape character.
pub open spec fn tokens_of_segments(segs: Seq<Seq<char>>) -> Seq<Piece<Seq<char>>>
    decreases segs.len(),
{
    if segs.len() == 0 {
        seq![]
    } else if segs.len() == 1 {
        lit_piece(segs[0])
    } else {
        tokens_of_segments(segs.drop_last()) + seg_tokens(segs.last())
    }
}

/// The tokens of a text: it is split at every escape character.
pub open spec fn tokens(s: Seq<char>) -> Seq<Piece<Seq<char>>> {
    tokens_of_segments(split_on(s, ESC))
}

/// Whether an element is what a token describes: the same text, or an
/// escape sequence that the token's segment begins with.
pub open spec fn element_denotes(e: TextElement, p: Piece<Seq<char>>) -> bool {
    match p {
        Piece::Lit(t) => match e {
            common::TextElement::Text(x) => x@ == t,
            _ => false,
        },
        Piece::Mark(seg) => match e {
            common::TextElement::Marker(fe) => fe_recognized(seg) && fe_denotes(fe, seg),
            _ => false,
        },
    }
}

/// Whether a list of elements is what a list of tokens describes.
pub open spec fn elements_denote(es: Seq<TextElement>, ps: Seq<Piece<Seq<char>>>) -> bool {
    &&& es.len() == ps.len()
    &&& forall|i: int| 0 <= i < es.len() ==> element_denotes(#[trigger] es[i], ps[i])
}

pub proof fn lemma_elements_denote_concat(
    a: Seq<TextElement>,
    p: Seq<Piece<Seq<char>>>,
    b: Seq<TextElement>,
    q: Seq<Piece<Seq<char>>>,
)
    requires
        elements_denote(a, p),
        elements_denote(b, q),
    ensures
        elements_denote(a + b, p + q),
{
    assert forall|i: int| 0 <= i < (a + b).len() implies element_denotes(
        #[trigger] (a + b)[i],
        (p + q)[i],
    ) by {
        if i >= a.len() {
            assert(element_denotes(b[i - a.len()], q[i - a.len()]));
        }
    }
}

impl Text {
    /// An empty text.
    pub fn new() -> (r: Text)
        ensures
            r.text@.len() == 0,
    {
        common::Text { text: Vec::new() }
    }

    /// The text that `text` reads as (see `read`).
    pub fn from(text: String) -> (r: Text)
        ensures
            elements_denote(r.text@, tokens(text@)),
    {
        let mut ansi_text = Text::new();
        ansi_text.read(text);
        assert(ansi_text.text@.skip(0) =~= ansi_text.text@);
        ansi_text
    }

    /// Appends the elements of one segment: the first segment of a text is
    /// plain text, a later one followed an escape character.
    fn push_segment(&mut self, seg: String, first: bool)
        ensures
            final(self).text@.len() >= old(self).text@.len(),
            final(self).text@.subrange(0, old(self).text@.len() as int) == old(self).text@,
            elements_denote(
                final(self).text@.skip(old(self).text@.len() as int),
                if first {
                    lit_piece(seg@)
                } else {
                    seg_tokens(seg@)
                },
            ),
    {
        let ghost n = self.text@.len() as int;
        let ghost before = self.text@;
        if first {
            if !seg.as_str().is_empty() {
                self.text.push(common::TextElement::Text(seg));
                assert(element_denotes(self.text@[n], Piece::Lit(seg@)));
            }
        } else {
            let (rest, opt_fe_sequence) = FeEscapeSequence::extract_from(seg.as_str());
            match opt_fe_sequence {
                Some(fe_sequence) => {
                    self.text.push(common::TextElement::Marker(fe_sequence));
                    assert(element_denotes(self.text@[n], Piece::Mark(seg@)));
                    if !rest.as_str().is_empty() {
                        let ghost r = rest@;
                        self.text.push(common::TextElement::Text(rest));
                        assert(element_denotes(self.text@[n + 1], Piece::Lit(r)));
                    }
                },
                None => {
                    if !rest.as_str().is_empty() {
                        let ghost t = rest@;
                        self.text.push(common::TextElement::Text(rest));
                        assert(element_denotes(self.text@[n], Piece::Lit(t)));
                    }
                },
            }
        }
        assert(self.text@.subrange(0, n) =~= before);
        let ghost added = self.text@.skip(n);
        let ghost toks = if first {
            lit_piece(seg@)
        } else {
            seg_tokens(seg@)
        };
        assert(added.len() == toks.len());
        assert(forall|i: int| 0 <= i < added.len() ==> added[i] == self.text@[n + i]);
    }

    /// Reads a text that carries escape sequences and appends its elements:
    /// the text is split at every escape character; the first segment is
    /// text, and each later one gives the escape sequence it begins with and
    /// the text after that. A control sequence that is cut short or not
    /// known gives no marker and its characters are dropped; after a
    /// character that introduces nothing known, the whole segment is text.
    /// Empty text is never added.
    pub fn read(&mut self, text: String)
        ensures
            final(self).text@.len() >= old(self).text@.len(),
            final(self).text@.subrange(0, old(self).text@.len() as int) == old(self).text@,
            elements_denote(final(self).text@.skip(old(self).text@.len() as int), tokens(text@)),
    {
        let cs = chars_of(text.as_str());
        let ghost s = cs@;
        let ghost n0 = self.text@.len() as int;
        let ghost start_text = self.text@;
        let n = cs.len();
        let mut start: usize = 0;
        let mut i: usize = 0;
        let mut first = true;
        let ghost mut done: Seq<Seq<char>> = seq![];
        assert(s.take(0) =~= Seq::<char>::empty());
        assert(s.subrange(0, 0) =~= Seq::<char>::empty());
        assert(self.text@.skip(n0) =~= Seq::<TextElement>::empty());
        while i < n
            invariant
                n == cs@.len(),
                s == cs@,
                start <= i <= n,
                0 <= n0 <= self.text@.len(),
                self.text@.subrange(0, n0) == start_text,
                split_on(s.take(i as int), ESC) == done.push(s.subrange(start as int, i as int)),
                first == (done.len() == 0),
                elements_denote(self.text@.skip(n0), tokens_of_segments(done)),
            decreases n - i,
        {
            proof {
                lemma_split_on_step(s, ESC, done, start as int, i as int);
            }
            if cs[i] == ESC {
                let seg = string_of(&cs, start, i);
                let ghost mid = self.text@;
                self.push_segment(seg, first);
                proof {
                    let added = self.text@.skip(mid.len() as int);
                    lemma_elements_denote_concat(
                        mid.skip(n0),
                        tokens_of_segments(done),
                        added,
                        if first {
                            lit_piece(s.subrange(start as int, i as int))
                        } else {
                            seg_tokens(s.subrange(start as int, i as int))
                        },
                    );
                    assert(self.text@.skip(n0) =~= mid.skip(n0) + added);
                    assert(self.text@.subrange(0, n0) =~= mid.subrange(0, n0));
                    let nd = done.push(s.subrange(start as int, i as int));
                    assert(nd.drop_last() =~= done);
                    done = nd;
                }
                first = false;
                start = i + 1;
            }
            i += 1;
        }
        let seg = string_of(&cs, start, n);
        let ghost mid = self.text@;
        self.push_segment(seg, first);
        proof {
            let added = self.text@.skip(mid.len() as int);
            lemma_elements_denote_concat(
                mid.skip(n0),
                tokens_of_segments(done),
                added,
                if first {
                    lit_piece(s.subrange(start as int, n as int))
                } else {
                    seg_tokens(s.subrange(start as int, n as int))
                },
            );
            assert(self.text@.skip(n0) =~= mid.skip(n0) + added);
            assert(self.text@.subrange(0, n0) =~= mid.subrange(0, n0));
            let nd = done.push(s.subrange(start as int, n as int));
            assert(nd.drop_last() =~= done);
            assert(s.take(n as int) =~= s);
        }
    }

    /// Removes every element.
    pub fn flush(&mut self)
        ensures
            final(self).text@.len() == 0,
    {
        self.text.clear();
    }
}

} // verus!
