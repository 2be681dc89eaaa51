//! Properties that relate several parts of the library.
use crate::common::{Color, Piece, Toggle};
use crate::input_fmt::ansi::{
    color_decode, color_directive, cube_color, fe_recognized, fe_rest, is_color_code, lit_piece,
    seg_tokens, sgr_code, sgr_decode, split_on, stack_order, tokens, tokens_of_segments,
    SelectGraphicRendition, ESC,
};
use crate::internal_format::{reset_all, sgr_toggles, toggles_of, Fromatting};
use crate::output_fmt::text::plain_text;
use crate::output_fmt::OutputFormat;
use crate::{convert, styled_tokens};
use vstd::prelude::*;

verus! {

proof fn lemma_split_without_separator(s: Seq<char>, sep: char)
    requires
        forall|i: int| 0 <= i < s.len() ==> s[i] != sep,
    ensures
        split_on(s, sep) == seq![s],
    decreases s.len(),
{
    if s.len() > 0 {
        lemma_split_without_separator(s.drop_last(), sep);
        assert(s.drop_last().push(s.last()) =~= s);
        assert(seq![s.drop_last()].update(0, s) =~= seq![s]);
    } else {
        assert(s =~= Seq::<char>::empty());
    }
}

/// A text without escape characters reads as one run of text equal to it
/// (none where it is empty), and the plain text writer gives it back
/// unchanged.
pub proof fn lemma_plain_round_trip(s: Seq<char>)
    requires
        forall|i: int| 0 <= i < s.len() ==> s[i] != ESC,
    ensures
        s.len() > 0 ==> tokens(s) == seq![Piece::<Seq<char>>::Lit(s)],
        s.len() == 0 ==> tokens(s).len() == 0,
        convert(OutputFormat::Text, s) == s,
{
    lemma_split_without_separator(s, ESC);
    assert(tokens(s) == lit_piece(s));
    if s.len() > 0 {
        let ps = seq![Piece::<Seq<char>>::Lit(s)];
        assert(ps.drop_last() =~= Seq::<Piece<Seq<char>>>::empty());
        assert(styled_tokens(ps.drop_last()) =~= Seq::<Piece<Toggle<Fromatting>>>::empty());
        let out = styled_tokens(ps);
        assert(out =~= seq![Piece::<Toggle<Fromatting>>::Lit(s)]);
        assert(out.drop_last() =~= Seq::<Piece<Toggle<Fromatting>>>::empty());
        assert(plain_text(out.drop_last()) =~= Seq::<char>::empty());
        assert(plain_text(out) =~= s);
    } else {
        assert(styled_tokens(tokens(s)) =~= Seq::<Piece<Toggle<Fromatting>>>::empty());
        assert(plain_text(styled_tokens(tokens(s))) =~= s);
    }
}

/// Mode 2 followed by red, green and blue selects exactly that color and
/// takes all four parameters; mode 5 followed by a palette entry selects the
/// color of the 3-3-2 bit cube and takes both. A stack holds the parameters
/// last first.
pub proof fn lemma_color_selection(r: u8, g: u8, b: u8, c: u8)
    ensures
        color_decode(seq![2u8, r, g, b]) == (Some(Color { red: r, green: g, blue: b }), 4nat),
        color_decode(seq![5u8, c]) == (Some(cube_color(c)), 2nat),
        cube_color(c) == (Color {
            red: ((c >> 5u8) as int * 32) as u8,
            green: (((c & 28u8) >> 2u8) as int * 32) as u8,
            blue: ((c & 3u8) as int * 32) as u8,
        }),
        stack_order(seq![b, g, r, 2u8]) == seq![2u8, r, g, b],
        stack_order(seq![c, 5u8]) == seq![5u8, c],
{
    assert(stack_order(seq![b, g, r, 2u8]) =~= seq![2u8, r, g, b]);
    assert(stack_order(seq![c, 5u8]) =~= seq![5u8, c]);
}

/// A list of one SGR code decodes to that code's entry of the table: a code
/// that takes a color selection, with nothing after it, selects no color;
/// an unknown code gives nothing.
pub proof fn lemma_single_code(code: u8)
    ensures
        is_color_code(code) ==> sgr_decode(seq![code]) == seq![color_directive(code, None)],
        !is_color_code(code) && sgr_code(code) is Some ==> sgr_decode(seq![code]) == seq![
            sgr_code(code)->0,
        ],
        !is_color_code(code) && sgr_code(code) is None ==> sgr_decode(seq![code]).len() == 0,
{
    let p = seq![code];
    assert(p.skip(1) =~= Seq::<u8>::empty());
    assert(crate::input_fmt::ansi::sgr_scan(Seq::<u8>::empty()) =~= Seq::<SelectGraphicRendition>::empty());
    if is_color_code(code) {
        assert(p.skip(1).skip(0) =~= Seq::<u8>::empty());
        assert(sgr_decode(p) =~= seq![color_directive(code, None)]);
    } else if sgr_code(code) is Some {
        assert(sgr_decode(p) =~= seq![sgr_code(code)->0]);
    }
}

/// SGR code 0 maps to exactly seven `UnSet` toggles, in this order: bold,
/// faint, italic, underline, crossed out, foreground and background color.
pub proof fn lemma_reset_fan_out()
    ensures
        toggles_of(sgr_decode(seq![0u8])) == reset_all(),
        reset_all().len() == 7,
        forall|i: int| 0 <= i < 7 ==> #[trigger] reset_all()[i] is UnSet,
        reset_all() == seq![
            Toggle::UnSet(Fromatting::Bold),
            Toggle::UnSet(Fromatting::Faint),
            Toggle::UnSet(Fromatting::Italic),
            Toggle::UnSet(Fromatting::Underline(None)),
            Toggle::UnSet(Fromatting::CrossedOut),
            Toggle::UnSet(Fromatting::ForgroundColor(None)),
            Toggle::UnSet(Fromatting::BackgroundColor(None)),
        ],
{
    lemma_single_code(0u8);
    let gs = seq![SelectGraphicRendition::Normal];
    assert(gs.drop_last() =~= Seq::<SelectGraphicRendition>::empty());
    assert(toggles_of(gs.drop_last()) =~= Seq::<Toggle<Fromatting>>::empty());
    assert(toggles_of(gs) =~= reset_all());
}

/// How many runs of text a list of tokens holds.
pub open spec fn count_lits(ps: Seq<Piece<Seq<char>>>) -> nat
    decreases ps.len(),
{
    if ps.len() == 0 {
        0
    } else {
        count_lits(ps.drop_last()) + if ps.last() is Lit {
            1nat
        } else {
            0nat
        }
    }
}

/// How many markers a list of tokens holds.
pub open spec fn count_marks(ps: Seq<Piece<Seq<char>>>) -> nat
    decreases ps.len(),
{
    if ps.len() == 0 {
        0
    } else {
        count_marks(ps.drop_last()) + if ps.last() is Mark {
            1nat
        } else {
            0nat
        }
    }
}

/// Whether no run of text in a list of tokens is empty.
pub open spec fn lits_nonempty(ps: Seq<Piece<Seq<char>>>) -> bool {
    forall|i: int| 0 <= i < ps.len() && (#[trigger] ps[i]) is Lit ==> ps[i]->Lit_0.len() > 0
}

/// Whether every escape character of `s` begins a known escape sequence,
/// or stands right before another escape character or at the end.
pub open spec fn escapes_recognized(s: Seq<char>) -> bool {
    let segs = split_on(s, ESC);
    forall|i: int| 1 <= i < segs.len() ==> (#[trigger] segs[i]).len() == 0 || fe_recognized(segs[i])
}

proof fn lemma_counts_concat(a: Seq<Piece<Seq<char>>>, b: Seq<Piece<Seq<char>>>)
    ensures
        count_lits(a + b) == count_lits(a) + count_lits(b),
        count_marks(a + b) == count_marks(a) + count_marks(b),
        lits_nonempty(a) && lits_nonempty(b) ==> lits_nonempty(a + b),
    decreases b.len(),
{
    if b.len() == 0 {
        assert(a + b =~= a);
    } else {
        lemma_counts_concat(a, b.drop_last());
        assert((a + b).drop_last() =~= a + b.drop_last());
    }
    if lits_nonempty(a) && lits_nonempty(b) {
        assert forall|i: int| 0 <= i < (a + b).len() && (#[trigger] (a + b)[i]) is Lit implies (a
            + b)[i]->Lit_0.len() > 0 by {
            if i >= a.len() {
                assert((a + b)[i] == b[i - a.len()]);
            }
        }
    }
}

proof fn lemma_lit_piece_shape(t: Seq<char>)
    ensures
        count_lits(lit_piece(t)) <= 1,
        count_marks(lit_piece(t)) == 0,
        lits_nonempty(lit_piece(t)),
        t.len() == 0 ==> count_lits(lit_piece(t)) == 0,
{
    assert(count_lits(Seq::<Piece<Seq<char>>>::empty()) == 0);
    assert(count_marks(Seq::<Piece<Seq<char>>>::empty()) == 0);
    if t.len() > 0 {
        assert(lit_piece(t).drop_last() =~= Seq::<Piece<Seq<char>>>::empty());
    }
}

proof fn lemma_segments_shape(segs: Seq<Seq<char>>)
    ensures
        lits_nonempty(tokens_of_segments(segs)),
        (forall|i: int| 1 <= i < segs.len() ==> (#[trigger] segs[i]).len() == 0 || fe_recognized(
            segs[i],
        )) ==> count_lits(tokens_of_segments(segs)) <= count_marks(tokens_of_segments(segs)) + 1,
    decreases segs.len(),
{
    if segs.len() == 1 {
        lemma_lit_piece_shape(segs[0]);
    } else if segs.len() > 1 {
        let front = segs.drop_last();
        let seg = segs.last();
        lemma_segments_shape(front);
        if forall|i: int| 1 <= i < segs.len() ==> (#[trigger] segs[i]).len() == 0 || fe_recognized(
            segs[i],
        ) {
            assert forall|i: int| 1 <= i < front.len() implies (#[trigger] front[i]).len() == 0
                || fe_recognized(front[i]) by {
                assert(front[i] == segs[i]);
            }
            assert(seg == segs[segs.len() - 1]);
        }
        let m = seq![Piece::<Seq<char>>::Mark(seg)];
        assert(m.drop_last() =~= Seq::<Piece<Seq<char>>>::empty());
        assert(count_lits(m.drop_last()) == 0);
        assert(count_marks(m.drop_last()) == 0);
        assert(lits_nonempty(m));
        if fe_recognized(seg) {
            lemma_lit_piece_shape(fe_rest(seg));
            lemma_counts_concat(m, lit_piece(fe_rest(seg)));
        } else {
            lemma_lit_piece_shape(fe_rest(seg));
        }
        lemma_counts_concat(tokens_of_segments(front), seg_tokens(seg));
    }
}

/// In the tokens of any text no run of text is empty; and where every
/// escape character begins a known escape sequence, there is at most one
/// run of text more than there are markers.
pub proof fn lemma_tokens_shape(s: Seq<char>)
    ensures
        lits_nonempty(tokens(s)),
        escapes_recognized(s) ==> count_lits(tokens(s)) <= count_marks(tokens(s)) + 1,
{
    lemma_segments_shape(split_on(s, ESC));
}

} // verus!
