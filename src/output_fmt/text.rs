//! The plain text writer: it keeps the text and drops every style.
use crate::common::{Piece, Toggle};
use crate::internal_format;
use crate::internal_format::Fromatting;
use vstd::prelude::*;

verus! {

/// The characters of every run of text, in order.
pub open spec fn plain_text(ps: Seq<Piece<Toggle<Fromatting>>>) -> Seq<char>
    decreases ps.len(),
{
    if ps.len() == 0 {
        seq![]
    } else {
        plain_text(ps.drop_last()) + match ps.last() {
            Piece::Lit(t) => t,
            Piece::Mark(_) => seq![],
        }
    }
}

pub struct TextWriter {
    pub text: internal_format::Text,
}

impl TextWriter {
    pub fn from_text(txt: internal_format::Text) -> (r: TextWriter)
        ensures
            r.text == txt,
    {
        TextWriter { text: txt }
    }

    /// The text without its styles.
    pub fn to_string(&self) -> (r: String)
        ensures
            r@ == plain_text(self.text@),
    {
        let ghost v = self.text@;
        let mut out = String::new();
        let mut i: usize = 0;
        while i < self.text.text.len()
            invariant
                v == self.text@,
                i <= self.text.text@.len(),
                out@ == plain_text(v.take(i as int)),
            decreases self.text.text.len() - i,
        {
            assert(v.take(i + 1).drop_last() =~= v.take(i as int));
            if let internal_format::TextElement::Text(t) = &self.text.text[i] {
                out.append(t.as_str());
            }
            i += 1;
        }
        assert(v.take(i as int) =~= v);
        out
    }
}

} // verus!
