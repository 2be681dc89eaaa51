//! The renderer-facing style vocabulary, and the mapping from SGR
//! directives onto it.
use crate::common;
use crate::common::{Piece, Toggle};
use crate::input_fmt::ansi;
use crate::input_fmt::ansi::{ControlSequence, FeEscapeSequence, SelectGraphicRendition};
use vstd::prelude::*;

verus! {

pub type Color = common::Color;

/// The styles that every writer supports.
#[derive(PartialEq, Eq, Structural, PartialOrd, Ord, Debug, Clone, Copy)]
pub enum Fromatting {
    Bold,
    Faint,
    Italic,
    Underline(Option<Color>),
    CrossedOut,
    ForgroundColor(Option<Color>),
    BackgroundColor(Option<Color>),
}

pub type TextElement = common::TextElement<Toggle<Fromatting>>;

pub type Text = common::Text<Toggle<Fromatting>>;

/// What a full reset ends, in this order.
pub open spec fn reset_all() -> Seq<Toggle<Fromatting>> {
    seq![
        Toggle::UnSet(Fromatting::Bold),
        Toggle::UnSet(Fromatting::Faint),
        Toggle::UnSet(Fromatting::Italic),
        Toggle::UnSet(Fromatting::Underline(None)),
        Toggle::UnSet(Fromatting::CrossedOut),
        Toggle::UnSet(Fromatting::ForgroundColor(None)),
        Toggle::UnSet(Fromatting::BackgroundColor(None)),
    ]
}

/// The toggles of one SGR directive; a directive with no style here gives
/// none.
pub open spec fn sgr_toggles(g: SelectGraphicRendition) -> Seq<Toggle<Fromatting>> {
    match g {
        SelectGraphicRendition::Bold => seq![Toggle::Apply(Fromatting::Bold)],
        SelectGraphicRendition::Faint => seq![Toggle::Apply(Fromatting::Faint)],
        SelectGraphicRendition::Italic => seq![Toggle::Apply(Fromatting::Italic)],
        SelectGraphicRendition::Underline => seq![Toggle::Apply(Fromatting::Underline(None))],
        SelectGraphicRendition::CrossedOut => seq![Toggle::Apply(Fromatting::CrossedOut)],
        SelectGraphicRendition::ForgroundColor(Some(c)) => seq![
            Toggle::Apply(Fromatting::ForgroundColor(Some(c))),
        ],
        SelectGraphicRendition::ForgroundColor(None) => seq![
            Toggle::UnSet(Fromatting::ForgroundColor(None)),
        ],
        SelectGraphicRendition::BackgroundColor(Some(c)) => seq![
            Toggle::Apply(Fromatting::BackgroundColor(Some(c))),
        ],
        SelectGraphicRendition::BackgroundColor(None) => seq![
            Toggle::UnSet(Fromatting::BackgroundColor(None)),
        ],
        SelectGraphicRendition::Normal => reset_all(),
        SelectGraphicRendition::NormalIntensity => seq![
            Toggle::UnSet(Fromatting::Bold),
            Toggle::UnSet(Fromatting::Faint),
        ],
        SelectGraphicRendition::NotUnderlined => seq![Toggle::UnSet(Fromatting::Underline(None))],
        SelectGraphicRendition::SetUnderlineColor(None) => seq![
            Toggle::UnSet(Fromatting::Underline(None)),
        ],
        SelectGraphicRendition::NotItalic => seq![Toggle::UnSet(Fromatting::Italic)],
        SelectGraphicRendition::NotCrossedOut => seq![Toggle::UnSet(Fromatting::CrossedOut)],
        _ => seq![],
    }
}

/// The toggles of a list of directives, in order.
pub open spec fn toggles_of(gs: Seq<SelectGraphicRendition>) -> Seq<Toggle<Fromatting>>
    decreases gs.len(),
{
    if gs.len() == 0 {
        seq![]
    } else {
        toggles_of(gs.drop_last()) + sgr_toggles(gs.last())
    }
}

/// The toggles of an escape sequence: those of its directives for an SGR
/// control sequence, `None` for any other.
pub open spec fn fe_toggles(fe: FeEscapeSequence) -> Option<Seq<Toggle<Fromatting>>> {
    match fe {
        FeEscapeSequence::ControlSequence(ControlSequence::SelectGraphicalRendition(v)) => Some(
            toggles_of(v@),
        ),
        _ => None,
    }
}

/// What one element of a parsed text becomes: text stays, an escape
/// sequence becomes its toggles.
pub open spec fn piece_styles(p: Piece<FeEscapeSequence>) -> Seq<Piece<Toggle<Fromatting>>> {
    match p {
        Piece::Lit(t) => seq![Piece::Lit(t)],
        Piece::Mark(fe) => match fe_toggles(fe) {
            Some(ts) => ts.map_values(|t: Toggle<Fromatting>| Piece::Mark(t)),
            None => seq![],
        },
    }
}

/// A parsed text with its escape sequences replaced by their toggles.
pub open spec fn styled(ps: Seq<Piece<FeEscapeSequence>>) -> Seq<Piece<Toggle<Fromatting>>>
    decreases ps.len(),
{
    if ps.len() == 0 {
        seq![]
    } else {
        styled(ps.drop_last()) + piece_styles(ps.last())
    }
}

/// Appends the toggles of one directive.
fn push_toggles(g: &SelectGraphicRendition, results: &mut Vec<Toggle<Fromatting>>)
    ensures
        final(results)@ == old(results)@ + sgr_toggles(*g),
{
    match g {
        SelectGraphicRendition::Bold => results.push(Toggle::Apply(Fromatting::Bold)),
        SelectGraphicRendition::Faint => results.push(Toggle::Apply(Fromatting::Faint)),
        SelectGraphicRendition::Underline => results.push(
            Toggle::Apply(Fromatting::Underline(None)),
        ),
        SelectGraphicRendition::Italic => results.push(Toggle::Apply(Fromatting::Italic)),
        SelectGraphicRendition::CrossedOut => results.push(Toggle::Apply(Fromatting::CrossedOut)),
        SelectGraphicRendition::ForgroundColor(None) => results.push(
            Toggle::UnSet(Fromatting::ForgroundColor(None)),
        ),
        SelectGraphicRendition::BackgroundColor(None) => results.push(
            Toggle::UnSet(Fromatting::BackgroundColor(None)),
        ),
        SelectGraphicRendition::ForgroundColor(Some(color)) => results.push(
            Toggle::Apply(Fromatting::ForgroundColor(Some(*color))),
        ),
        SelectGraphicRendition::BackgroundColor(Some(color)) => results.push(
            Toggle::Apply(Fromatting::BackgroundColor(Some(*color))),
        ),
        SelectGraphicRendition::Normal => {
            results.push(Toggle::UnSet(Fromatting::Bold));
            results.push(Toggle::UnSet(Fromatting::Faint));
            results.push(Toggle::UnSet(Fromatting::Italic));
            results.push(Toggle::UnSet(Fromatting::Underline(None)));
            results.push(Toggle::UnSet(Fromatting::CrossedOut));
            results.push(Toggle::UnSet(Fromatting::ForgroundColor(None)));
            results.push(Toggle::UnSet(Fromatting::BackgroundColor(None)));
        },
        SelectGraphicRendition::NormalIntensity => {
            results.push(Toggle::UnSet(Fromatting::Bold));
            results.push(Toggle::UnSet(Fromatting::Faint));
        },
        SelectGraphicRendition::NotUnderlined => results.push(
            Toggle::UnSet(Fromatting::Underline(None)),
        ),
        SelectGraphicRendition::NotItalic => results.push(Toggle::UnSet(Fromatting::Italic)),
        SelectGraphicRendition::NotCrossedOut => results.push(
            Toggle::UnSet(Fromatting::CrossedOut),
        ),
        SelectGraphicRendition::SetUnderlineColor(None) => results.push(
            Toggle::UnSet(Fromatting::Underline(None)),
        ),
        _ => {},
    }
    assert(results@ =~= old(results)@ + sgr_toggles(*g));
}

impl Fromatting {
    /// The toggles of an escape sequence: for an SGR control sequence, those
    /// of its directives in order; `None` for every other sequence.
    pub fn from_ansi(fe: &FeEscapeSequence) -> (r: Option<Vec<Toggle<Fromatting>>>)
        ensures
            fe_toggles(*fe) is None ==> r is None,
            fe_toggles(*fe) is Some ==> r is Some && r->0@ == fe_toggles(*fe)->0,
    {
        match fe {
            FeEscapeSequence::ControlSequence(cls) => match cls {
                ControlSequence::SelectGraphicalRendition(sgrs) => {
                    let mut results: Vec<Toggle<Fromatting>> = Vec::new();
                    let mut i: usize = 0;
                    while i < sgrs.len()
                        invariant
                            i <= sgrs@.len(),
                            results@ == toggles_of(sgrs@.take(i as int)),
                        decreases sgrs.len() - i,
                    {
                        push_toggles(&sgrs[i], &mut results);
                        assert(sgrs@.take(i + 1).drop_last() =~= sgrs@.take(i as int));
                        i += 1;
                    }
                    assert(sgrs@.take(i as int) =~= sgrs@);
                    Some(results)
                },
                _ => None,
            },
            _ => None,
        }
    }
}

impl Text {
    /// The styled text of a parsed one: each run of text is kept, and each
    /// escape sequence is replaced by its toggles.
    pub fn from_ansi(text: ansi::Text) -> (r: Text)
        ensures
            r@ == styled(text@),
    {
        let mut new_impl: Text = common::Text { text: Vec::new() };
        let mut i: usize = 0;
        while i < text.text.len()
            invariant
                i <= text.text@.len(),
                new_impl@ == styled(text@.take(i as int)),
            decreases text.text.len() - i,
        {
            let ghost before = new_impl@;
            assert(text@.take(i + 1).drop_last() =~= text@.take(i as int));
            match &text.text[i] {
                common::TextElement::Text(string) => {
                    new_impl.text.push(common::TextElement::Text(string.clone()));
                    assert(new_impl@ =~= before + piece_styles(text@[i as int]));
                },
                common::TextElement::Marker(marker) => match Fromatting::from_ansi(marker) {
                    Some(fmts) => {
                        let mut j: usize = 0;
                        while j < fmts.len()
                            invariant
                                j <= fmts@.len(),
                                new_impl@ == before + fmts@.take(j as int).map_values(
                                    |t: Toggle<Fromatting>| Piece::Mark(t),
                                ),
                            decreases fmts.len() - j,
                        {
                            let ghost mid = new_impl.text@;
                            new_impl.text.push(common::TextElement::Marker(fmts[j]));
                            assert(new_impl.text@ == mid.push(common::TextElement::Marker(fmts@[j as int])));
                            assert(fmts@.take(j + 1) =~= fmts@.take(j as int).push(fmts@[j as int]));
                            assert(new_impl@ =~= mid.map_values(|e: TextElement| e@).push(Piece::Mark(fmts@[j as int])));
                            assert(new_impl@ =~= before + fmts@.take(j + 1).map_values(
                                |t: Toggle<Fromatting>| Piece::Mark(t),
                            ));
                            j += 1;
                        }
                        assert(fmts@.take(j as int) =~= fmts@);
                    },
                    None => {
                        assert(new_impl@ =~= before + piece_styles(text@[i as int]));
                    },
                },
            }
            i += 1;
        }
        assert(text@.take(i as int) =~= text@);
        new_impl
    }
}

} // verus!
