//! Reads text that carries ANSI terminal escape sequences, reduces the
//! escape grammar to a small set of style toggles, and renders the result
//! as plain text or HTML.
#![allow(non_snake_case)]

use vstd::prelude::*;

pub mod common;
pub mod input_fmt;
pub mod internal_format;
pub mod laws;
pub mod output_fmt;

use crate::common::{Piece, Toggle};
use crate::input_fmt::ansi;
use crate::input_fmt::ansi::{
    elements_denote, element_denotes, fe_recognized, parse_args, sgr_decode, term_index, tokens,
};
use crate::internal_format::{piece_styles, styled, toggles_of, Fromatting};
use crate::output_fmt::{render, OutputFormat};

verus! {

/// The toggles that the escape sequence at the start of a segment gives:
/// those of its directives where it is an SGR control sequence.
pub open spec fn seg_toggles(seg: Seq<char>) -> Seq<Toggle<Fromatting>> {
    let t = seg.skip(1);
    let k = term_index(t) as int;
    if fe_recognized(seg) && seg[0] == '[' && t[k] == 'm' {
        toggles_of(sgr_decode(parse_args(t.take(k))))
    } else {
        seq![]
    }
}

/// What a token becomes in the styled text.
pub open spec fn token_styles(p: Piece<Seq<char>>) -> Seq<Piece<Toggle<Fromatting>>> {
    match p {
        Piece::Lit(t) => seq![Piece::Lit(t)],
        Piece::Mark(seg) => seg_toggles(seg).map_values(|t: Toggle<Fromatting>| Piece::Mark(t)),
    }
}

/// The styled text of a list of tokens.
pub open spec fn styled_tokens(ps: Seq<Piece<Seq<char>>>) -> Seq<Piece<Toggle<Fromatting>>>
    decreases ps.len(),
{
    if ps.len() == 0 {
        seq![]
    } else {
        styled_tokens(ps.drop_last()) + token_styles(ps.last())
    }
}

/// The styled text of a text that carries escape sequences.
pub open spec fn styled_text(s: Seq<char>) -> Seq<Piece<Toggle<Fromatting>>> {
    styled_tokens(tokens(s))
}

/// What a text that carries escape sequences becomes in an output format.
pub open spec fn convert(fmt: OutputFormat, s: Seq<char>) -> Seq<char> {
    render(fmt, styled_text(s))
}

proof fn lemma_piece_styles(e: ansi::TextElement, p: Piece<Seq<char>>)
    requires
        element_denotes(e, p),
    ensures
        piece_styles(e@) == token_styles(p),
{
    match p {
        Piece::Lit(t) => {},
        Piece::Mark(seg) => {
            assert(seg_toggles(seg).map_values(|t: Toggle<Fromatting>| Piece::Mark(t))
                =~= piece_styles(e@));
        },
    }
}

proof fn lemma_styled_tokens(es: Seq<ansi::TextElement>, ps: Seq<Piece<Seq<char>>>)
    requires
        elements_denote(es, ps),
    ensures
        styled(es.map_values(|e: ansi::TextElement| e@)) == styled_tokens(ps),
    decreases es.len(),
{
    if es.len() > 0 {
        let front = es.drop_last();
        assert(elements_denote(front, ps.drop_last()));
        lemma_styled_tokens(front, ps.drop_last());
        lemma_piece_styles(es.last(), ps.last());
        assert(es.map_values(|e: ansi::TextElement| e@).drop_last() =~= front.map_values(
            |e: ansi::TextElement| e@,
        ));
    } else {
        assert(es.map_values(|e: ansi::TextElement| e@) =~= Seq::<Piece<ansi::FeEscapeSequence>>::empty());
    }
}

/// Converts a text that carries escape sequences to the output format:
/// it is read, its escape sequences become style toggles, and the writer of
/// the format renders the result.
pub fn parse_text(format: &OutputFormat, string: String) -> (r: Result<String, String>)
    ensures
        r is Ok,
        r->Ok_0@ == convert(*format, string@),
{
    let ghost s = string@;
    let mut ansi_text = ansi::Text::new();
    ansi_text.read(string);
    proof {
        assert(ansi_text.text@.skip(0) =~= ansi_text.text@);
        lemma_styled_tokens(ansi_text.text@, tokens(s));
    }
    match output_fmt::from(*format, internal_format::Text::from_ansi(ansi_text)) {
        Some(formater) => Ok(formater.to_string()),
        None => Err(String::from_str("Failed to find a writer for the given output format.")),
    }
}

} // verus!
