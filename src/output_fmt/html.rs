//! The HTML writers: one that wraps each run of text in a span with the
//! styles active over it, and one that opens a tag where a style begins and
//! closes it where the style ends.
use crate::common;
use crate::common::{Piece, Toggle};
use crate::internal_format;
use crate::internal_format::Fromatting;
use vstd::prelude::*;

verus! {

/// Whether an `UnSet` of `f` ends the active style `active`: the same
/// style, or any color of a color style where `f` names no color.
pub open spec fn closes(f: Fromatting, active: Fromatting) -> bool {
    ||| f == active
    ||| (f == Fromatting::ForgroundColor(None) && active is ForgroundColor)
    ||| (f == Fromatting::BackgroundColor(None) && active is BackgroundColor)
    ||| (f == Fromatting::Underline(None) && active is Underline)
}

/// The position of the first active style that an `UnSet` of `f` ends, or
/// -1 where there is none.
pub open spec fn first_match(a: Seq<Fromatting>, f: Fromatting) -> int
    decreases a.len(),
{
    if a.len() == 0 {
        -1
    } else if closes(f, a[0]) {
        0
    } else {
        let k = first_match(a.skip(1), f);
        if k < 0 {
            -1
        } else {
            k + 1
        }
    }
}

pub proof fn lemma_first_match_range(a: Seq<Fromatting>, f: Fromatting)
    ensures
        -1 <= first_match(a, f) < a.len(),
    decreases a.len(),
{
    if a.len() > 0 {
        lemma_first_match_range(a.skip(1), f);
    }
}

/// The active styles after a toggle: `Apply` adds its style at the end,
/// `UnSet` removes the first active style that it ends.
pub open spec fn after_toggle(active: Seq<Fromatting>, t: Toggle<Fromatting>) -> Seq<Fromatting> {
    match t {
        Toggle::Apply(f) => active.push(f),
        Toggle::UnSet(f) => {
            let k = first_match(active, f);
            if k >= 0 {
                active.remove(k)
            } else {
                active
            }
        },
    }
}

/// The active styles after a list of elements, from none.
pub open spec fn active_after(ps: Seq<Piece<Toggle<Fromatting>>>) -> Seq<Fromatting>
    decreases ps.len(),
{
    if ps.len() == 0 {
        seq![]
    } else {
        match ps.last() {
            Piece::Mark(t) => after_toggle(active_after(ps.drop_last()), t),
            Piece::Lit(_) => active_after(ps.drop_last()),
        }
    }
}

/// A hexadecimal digit, lower case.
pub open spec fn hex_digit(d: u8) -> char {
    if d == 0 {
        '0'
    } else if d == 1 {
        '1'
    } else if d == 2 {
        '2'
    } else if d == 3 {
        '3'
    } else if d == 4 {
        '4'
    } else if d == 5 {
        '5'
    } else if d == 6 {
        '6'
    } else if d == 7 {
        '7'
    } else if d == 8 {
        '8'
    } else if d == 9 {
        '9'
    } else if d == 10 {
        'a'
    } else if d == 11 {
        'b'
    } else if d == 12 {
        'c'
    } else if d == 13 {
        'd'
    } else if d == 14 {
        'e'
    } else {
        'f'
    }
}

/// A byte in lower case hexadecimal, without leading zeros.
pub open spec fn hex_byte(b: u8) -> Seq<char> {
    if b < 16 {
        seq![hex_digit(b)]
    } else {
        seq![hex_digit(b / 16), hex_digit(b % 16)]
    }
}

/// A color as the hexadecimal of red, green and blue, in that order.
pub open spec fn hex_rgb(c: common::Color) -> Seq<char> {
    hex_byte(c.red) + hex_byte(c.green) + hex_byte(c.blue)
}

/// The CSS declaration of a style.
pub open spec fn style_of(f: Fromatting) -> Seq<char> {
    match f {
        Fromatting::Bold => "font-weight:bold"@,
        Fromatting::Faint => "font-weight:lighter"@,
        Fromatting::Italic => "font-style:italic"@,
        Fromatting::Underline(Some(c)) => "font-decoration:line-through;text-decoration-color:#"@
            + hex_rgb(c),
        Fromatting::Underline(None) => "font-decoration:line-through"@,
        Fromatting::CrossedOut => "font-decoration:line-through"@,
        Fromatting::ForgroundColor(None) => "color:inherit"@,
        Fromatting::BackgroundColor(None) => "background-color:inherit"@,
        Fromatting::ForgroundColor(Some(c)) => "color:#"@ + hex_rgb(c),
        Fromatting::BackgroundColor(Some(c)) => "background-color:#"@ + hex_rgb(c),
    }
}

/// The CSS declarations of the active styles, each ended by `;`.
pub open spec fn styles(a: Seq<Fromatting>) -> Seq<char>
    decreases a.len(),
{
    if a.len() == 0 {
        seq![]
    } else {
        styles(a.drop_last()) + style_of(a.last()) + ";"@
    }
}

/// A run of text in a span with the active styles, or bare where none is
/// active.
pub open spec fn span_run(active: Seq<Fromatting>, t: Seq<char>) -> Seq<char> {
    if active.len() > 0 {
        "<span style=\""@ + styles(active) + "\">"@ + t + "</span>"@
    } else {
        t
    }
}

/// The span-per-run HTML of a styled text.
pub open spec fn span_html(ps: Seq<Piece<Toggle<Fromatting>>>) -> Seq<char>
    decreases ps.len(),
{
    if ps.len() == 0 {
        seq![]
    } else {
        span_html(ps.drop_last()) + match ps.last() {
            Piece::Lit(t) => span_run(active_after(ps.drop_last()), t),
            Piece::Mark(_) => seq![],
        }
    }
}

/// The tag that a style opens.
pub open spec fn open_tag(f: Fromatting) -> Seq<char> {
    match f {
        Fromatting::Bold => "<b>"@,
        Fromatting::Faint => "<span style=\"font-weight=lighter\">"@,
        Fromatting::Italic => "<i>"@,
        Fromatting::Underline(Some(c)) => "<u style=\"text-decoration-color=#"@ + hex_rgb(c)
            + "\">"@,
        Fromatting::Underline(None) => "<u>"@,
        Fromatting::CrossedOut => "<s>"@,
        Fromatting::ForgroundColor(Some(c)) => "<span style=\"color=#"@ + hex_rgb(c) + "\">"@,
        Fromatting::ForgroundColor(None) => "<span style=\"color=inherit\">"@,
        Fromatting::BackgroundColor(Some(c)) => "<span style=\"background-color=#"@ + hex_rgb(c)
            + "\">"@,
        Fromatting::BackgroundColor(None) => "<span style=\"background-color=inherit\">"@,
    }
}

/// The tag that closes what `open_tag` opened.
pub open spec fn close_tag(f: Fromatting) -> Seq<char> {
    match f {
        Fromatting::Bold => "</b>"@,
        Fromatting::Italic => "</i>"@,
        Fromatting::Underline(_) => "</u>"@,
        Fromatting::CrossedOut => "</s>"@,
        _ => "</span>"@,
    }
}

/// What one element adds to the tagged HTML, given the styles active
/// before it: text as it is, an opening tag for `Apply`, and for `UnSet`
/// the closing tag of the first active style that it ends, if any.
pub open spec fn tag_output(active: Seq<Fromatting>, p: Piece<Toggle<Fromatting>>) -> Seq<char> {
    match p {
        Piece::Lit(t) => t,
        Piece::Mark(Toggle::Apply(f)) => open_tag(f),
        Piece::Mark(Toggle::UnSet(f)) => {
            let k = first_match(active, f);
            if k >= 0 {
                close_tag(active[k])
            } else {
                seq![]
            }
        },
    }
}

/// The tagged HTML of a styled text.
pub open spec fn tag_html(ps: Seq<Piece<Toggle<Fromatting>>>) -> Seq<char>
    decreases ps.len(),
{
    if ps.len() == 0 {
        seq![]
    } else {
        tag_html(ps.drop_last()) + tag_output(active_after(ps.drop_last()), ps.last())
    }
}

/// The position of the first active style that an `UnSet` of `fmt` ends.
fn find_fmt(fmt: &Fromatting, current_active_formats: &Vec<Fromatting>) -> (r: Option<usize>)
    ensures
        first_match(current_active_formats@, *fmt) < 0 ==> r is None,
        first_match(current_active_formats@, *fmt) >= 0 ==> r is Some && r->0 as int
            == first_match(current_active_formats@, *fmt),
{
    let ghost a = current_active_formats@;
    let mut i: usize = 0;
    assert(a.skip(0) =~= a);
    while i < current_active_formats.len()
        invariant
            a == current_active_formats@,
            i <= a.len(),
            first_match(a, *fmt) == (if first_match(a.skip(i as int), *fmt) < 0 {
                -1
            } else {
                first_match(a.skip(i as int), *fmt) + i
            }),
        decreases current_active_formats.len() - i,
    {
        let cur = current_active_formats[i];
        assert(a.skip(i as int)[0] == cur);
        let is_close = match (*fmt, cur) {
            (Fromatting::ForgroundColor(None), Fromatting::ForgroundColor(_)) => true,
            (Fromatting::BackgroundColor(None), Fromatting::BackgroundColor(_)) => true,
            (Fromatting::Underline(None), Fromatting::Underline(_)) => true,
            _ => *fmt == cur,
        };
        if is_close {
            return Some(i);
        }
        assert(a.skip(i as int).skip(1) =~= a.skip(i + 1));
        i += 1;
    }
    None
}

/// Whether some active style ends at an `UnSet` of `fmt`.
fn contains_fmt(fmt: &Fromatting, current_active_formats: &Vec<Fromatting>) -> (r: bool)
    ensures
        r == (first_match(current_active_formats@, *fmt) >= 0),
{
    find_fmt(fmt, current_active_formats).is_some()
}

/// Removes the first active style that an `UnSet` of `fmt` ends.
fn remove_fmt(fmt: &Fromatting, current_active_formats: &mut Vec<Fromatting>)
    ensures
        final(current_active_formats)@ == after_toggle(
            old(current_active_formats)@,
            Toggle::UnSet(*fmt),
        ),
{
    proof {
        lemma_first_match_range(current_active_formats@, *fmt);
    }
    if let Some(i) = find_fmt(fmt, current_active_formats) {
        current_active_formats.remove(i);
    }
}

/// Appends a hexadecimal digit.
fn push_hex_digit(out: &mut String, d: u8)
    requires
        d < 16,
    ensures
        final(out)@ == old(out)@.push(hex_digit(d)),
{
    let c = match d {
        0 => '0',
        1 => '1',
        2 => '2',
        3 => '3',
        4 => '4',
        5 => '5',
        6 => '6',
        7 => '7',
        8 => '8',
        9 => '9',
        10 => 'a',
        11 => 'b',
        12 => 'c',
        13 => 'd',
        14 => 'e',
        _ => 'f',
    };
    out.push(c);
}

/// Appends a byte in hexadecimal.
fn push_hex(out: &mut String, b: u8)
    ensures
        final(out)@ == old(out)@ + hex_byte(b),
{
    if b < 16 {
        push_hex_digit(out, b);
    } else {
        push_hex_digit(out, b / 16);
        push_hex_digit(out, b % 16);
    }
    assert(out@ =~= old(out)@ + hex_byte(b));
}

/// Appends a color in hexadecimal.
fn push_color(out: &mut String, c: &common::Color)
    ensures
        final(out)@ == old(out)@ + hex_rgb(*c),
{
    push_hex(out, c.red);
    push_hex(out, c.green);
    push_hex(out, c.blue);
    assert(out@ =~= old(out)@ + hex_rgb(*c));
}

/// Appends the CSS declaration of a style.
fn push_style(out: &mut String, f: &Fromatting)
    ensures
        final(out)@ == old(out)@ + style_of(*f),
{
    match f {
        Fromatting::Bold => out.append("font-weight:bold"),
        Fromatting::Faint => out.append("font-weight:lighter"),
        Fromatting::Italic => out.append("font-style:italic"),
        Fromatting::Underline(Some(c)) => {
            out.append("font-decoration:line-through;text-decoration-color:#");
            push_color(out, c);
        },
        Fromatting::Underline(None) => out.append("font-decoration:line-through"),
        Fromatting::CrossedOut => out.append("font-decoration:line-through"),
        Fromatting::ForgroundColor(None) => out.append("color:inherit"),
        Fromatting::BackgroundColor(None) => out.append("background-color:inherit"),
        Fromatting::ForgroundColor(Some(c)) => {
            out.append("color:#");
            push_color(out, c);
        },
        Fromatting::BackgroundColor(Some(c)) => {
            out.append("background-color:#");
            push_color(out, c);
        },
    }
    assert(out@ =~= old(out)@ + style_of(*f));
}

/// The CSS declarations of the active styles.
fn formats_to_styles(current_active_formats: &Vec<Fromatting>) -> (r: String)
    ensures
        r@ == styles(current_active_formats@),
{
    let ghost a = current_active_formats@;
    let mut output_buffer = String::new();
    let mut i: usize = 0;
    while i < current_active_formats.len()
        invariant
            a == current_active_formats@,
            i <= a.len(),
            output_buffer@ == styles(a.take(i as int)),
        decreases current_active_formats.len() - i,
    {
        assert(a.take(i + 1).drop_last() =~= a.take(i as int));
        push_style(&mut output_buffer, &current_active_formats[i]);
        output_buffer.append(";");
        assert(output_buffer@ =~= styles(a.take(i + 1)));
        i += 1;
    }
    assert(a.take(i as int) =~= a);
    output_buffer
}

/// Appends the tag that a style opens.
fn push_open_tag(out: &mut String, f: &Fromatting)
    ensures
        final(out)@ == old(out)@ + open_tag(*f),
{
    match f {
        Fromatting::Bold => out.append("<b>"),
        Fromatting::Faint => out.append("<span style=\"font-weight=lighter\">"),
        Fromatting::Italic => out.append("<i>"),
        Fromatting::Underline(Some(c)) => {
            out.append("<u style=\"text-decoration-color=#");
            push_color(out, c);
            out.append("\">");
        },
        Fromatting::Underline(None) => out.append("<u>"),
        Fromatting::CrossedOut => out.append("<s>"),
        Fromatting::ForgroundColor(Some(c)) => {
            out.append("<span style=\"color=#");
            push_color(out, c);
            out.append("\">");
        },
        Fromatting::ForgroundColor(None) => out.append("<span style=\"color=inherit\">"),
        Fromatting::BackgroundColor(Some(c)) => {
            out.append("<span style=\"background-color=#");
            push_color(out, c);
            out.append("\">");
        },
        Fromatting::BackgroundColor(None) => out.append(
            "<span style=\"background-color=inherit\">",
        ),
    }
    assert(out@ =~= old(out)@ + open_tag(*f));
}

/// Appends the tag that closes a style.
fn push_close_tag(out: &mut String, f: &Fromatting)
    ensures
        final(out)@ == old(out)@ + close_tag(*f),
{
    match f {
        Fromatting::Bold => out.append("</b>"),
        Fromatting::Italic => out.append("</i>"),
        Fromatting::Underline(_) => out.append("</u>"),
        Fromatting::CrossedOut => out.append("</s>"),
        _ => out.append("</span>"),
    }
}

/// The span-per-run HTML writer.
pub struct HtmlWriter {
    pub text: internal_format::Text,
}

impl HtmlWriter {
    pub fn from_text(txt: internal_format::Text) -> (r: HtmlWriter)
        ensures
            r.text == txt,
    {
        HtmlWriter { text: txt }
    }

    /// The HTML of the text: each run of text in a span that carries the
    /// CSS of the styles active over it, or bare where none is.
    pub fn to_string(&self) -> (r: String)
        ensures
            r@ == span_html(self.text@),
    {
        let ghost v = self.text@;
        let mut out = String::new();
        let mut current_active_fmt: Vec<Fromatting> = Vec::new();
        let mut i: usize = 0;
        while i < self.text.text.len()
            invariant
                v == self.text@,
                i <= self.text.text@.len(),
                out@ == span_html(v.take(i as int)),
                current_active_fmt@ == active_after(v.take(i as int)),
            decreases self.text.text.len() - i,
        {
            assert(v.take(i + 1).drop_last() =~= v.take(i as int));
            let ghost before = out@;
            match &self.text.text[i] {
                internal_format::TextElement::Text(t) => {
                    if current_active_fmt.len() > 0 {
                        out.append("<span style=\"");
                        let st = formats_to_styles(&current_active_fmt);
                        out.append(st.as_str());
                        out.append("\">");
                        out.append(t.as_str());
                        out.append("</span>");
                    } else {
                        out.append(t.as_str());
                    }
                    assert(out@ =~= before + span_run(active_after(v.take(i as int)), t@));
                },
                internal_format::TextElement::Marker(m) => match m {
                    Toggle::Apply(f) => current_active_fmt.push(*f),
                    Toggle::UnSet(f) => {
                        if contains_fmt(f, &current_active_fmt) {
                            remove_fmt(f, &mut current_active_fmt);
                        }
                    },
                },
            }
            i += 1;
        }
        assert(v.take(i as int) =~= v);
        out
    }
}

/// The tagged HTML writer.
pub struct HtmlTagWriter {
    pub text: internal_format::Text,
}

impl HtmlTagWriter {
    pub fn from_text(txt: internal_format::Text) -> (r: HtmlTagWriter)
        ensures
            r.text == txt,
    {
        HtmlTagWriter { text: txt }
    }

    /// The HTML of the text: each `Apply` opens a tag, each `UnSet` closes
    /// the tag of the first active style that it ends, and text stands as
    /// it is.
    pub fn to_string(&self) -> (r: String)
        ensures
            r@ == tag_html(self.text@),
    {
        let ghost v = self.text@;
        let mut out = String::new();
        let mut current_active_fmt: Vec<Fromatting> = Vec::new();
        let mut i: usize = 0;
        while i < self.text.text.len()
            invariant
                v == self.text@,
                i <= self.text.text@.len(),
                out@ == tag_html(v.take(i as int)),
                current_active_fmt@ == active_after(v.take(i as int)),
            decreases self.text.text.len() - i,
        {
            assert(v.take(i + 1).drop_last() =~= v.take(i as int));
            let ghost before = out@;
            match &self.text.text[i] {
                internal_format::TextElement::Text(t) => {
                    out.append(t.as_str());
                },
                internal_format::TextElement::Marker(m) => match m {
                    Toggle::Apply(f) => {
                        push_open_tag(&mut out, f);
                        current_active_fmt.push(*f);
                    },
                    Toggle::UnSet(f) => {
                        proof {
                            lemma_first_match_range(current_active_fmt@, *f);
                        }
                        match find_fmt(f, &current_active_fmt) {
                            Some(k) => {
                                push_close_tag(&mut out, &current_active_fmt[k]);
                                current_active_fmt.remove(k);
                            },
                            None => {
                                assert(out@ =~= before + seq![]);
                            },
                        }
                    },
                },
            }
            i += 1;
        }
        assert(v.take(i as int) =~= v);
        out
    }
}

} // verus!
