//! The writers that turn a styled text into an output format.
pub mod html;
pub mod text;

use crate::common::{Piece, Toggle};
use crate::internal_format;
use crate::internal_format::Fromatting;
use self::html::HtmlTagWriter;
use self::text::TextWriter;
use vstd::prelude::*;

verus! {

/// The output formats that are supported.
#[derive(Clone, Copy, PartialEq, Eq, Structural, PartialOrd, Ord, Debug)]
pub enum OutputFormat {
    Text,
    Html,
}

/// What a styled text becomes in an output format: plain text, or HTML in
/// which each style opens and closes a tag.
pub open spec fn render(fmt: OutputFormat, ps: Seq<Piece<Toggle<Fromatting>>>) -> Seq<char> {
    match fmt {
        OutputFormat::Text => text::plain_text(ps),
        OutputFormat::Html => html::tag_html(ps),
    }
}

/// A writer for one of the output formats.
pub enum Formatter {
    Text(TextWriter),
    Html(HtmlTagWriter),
}

impl Formatter {
    /// The output that the writer gives.
    pub open spec fn rendered(&self) -> Seq<char> {
        match self {
            Formatter::Text(w) => text::plain_text(w.text@),
            Formatter::Html(w) => html::tag_html(w.text@),
        }
    }

    /// Writes the text out in the writer's format.
    pub fn to_string(&self) -> (r: String)
        ensures
            r@ == self.rendered(),
    {
        match self {
            Formatter::Text(w) => w.to_string(),
            Formatter::Html(w) => w.to_string(),
        }
    }
}

/// The writer of `text` in the format `fmt`.
pub fn from(fmt: OutputFormat, text: internal_format::Text) -> (r: Option<Formatter>)
    ensures
        r is Some,
        r->0.rendered() == render(fmt, text@),
{
    match fmt {
        OutputFormat::Text => Some(Formatter::Text(TextWriter::from_text(text))),
        OutputFormat::Html => Some(Formatter::Html(HtmlTagWriter::from_text(text))),
    }
}

} // verus!
