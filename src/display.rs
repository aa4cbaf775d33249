use vstd::prelude::*;
use crate::digits::{dec_text, hex2_text, push_decimal, push_hex2, push_signed_decimal, signed_dec_text};
use crate::render::{
    all_taken, joined, lemma_offer_step, same_rule, DisplayRender, RenderError, Sink,
    StructuralRender,
};

verus! {

/// A list of signed integers, displayed with the position of each value:
/// `[0: 1, 1: 1, 2: 2]`.
pub struct List(pub Vec<i32>);

impl List {
    /// Takes ownership of `vec`.
    pub fn from(vec: Vec<i32>) -> (r: List)
        ensures
            r.0@ == vec@,
    {
        List(vec)
    }
}

/// The chunk for the value `v` at position `i`: a separator before every
/// entry but the first, then `<i>: <v>`.
pub open spec fn entry_chunk(i: int, v: i32) -> Seq<char> {
    (if i == 0 {
        Seq::<char>::empty()
    } else {
        seq![',', ' ']
    }) + dec_text(i as nat) + seq![':', ' '] + signed_dec_text(v as int)
}

/// The display chunks of a list holding `s`: the opening bracket, one
/// entry per value, the closing bracket.
pub open spec fn indexed_chunks(s: Seq<i32>) -> Seq<Seq<char>> {
    seq![seq!['[']] + Seq::new(s.len(), |i: int| entry_chunk(i, s[i])) + seq![seq![']']]
}

impl DisplayRender for List {
    open spec fn display_chunks(&self) -> Seq<Seq<char>> {
        indexed_chunks(self.0@)
    }

    fn render_display<S: Sink>(&self, out: &mut S) -> (r: Result<(), RenderError>) {
        let ghost chunks = indexed_chunks(self.0@);
        let ghost before = *out;
        proof {
            reveal_strlit("[");
            assert(chunks.take(0) =~= Seq::<Seq<char>>::empty());
            assert(joined(chunks.take(0)) == Seq::<char>::empty());
            assert(out.offered() =~= before.offered() + chunks.take(0));
            assert(out.written() =~= before.written() + joined(chunks.take(0)));
            assert(chunks[0] == "["@);
            assert(all_taken(before, chunks, 0));
        }
        let ghost mid = *out;
        let w = out.write_str("[");
        proof {
            lemma_offer_step(before, mid, *out, chunks, 0, w);
        }
        if w.is_err() {
            return w;
        }
        let n: usize = self.0.len();
        let mut i: usize = 0;
        while i < n
            invariant
                n == self.0@.len(),
                before == *old(out),
                0 <= i <= n,
                chunks == indexed_chunks(self.0@),
                out.offered() == before.offered() + chunks.take(i + 1),
                out.written() == before.written() + joined(chunks.take(i + 1)),
                same_rule(before, *out),
                all_taken(before, chunks, i + 1),
            decreases n - i,
        {
            let mut chunk = String::new();
            proof {
                reveal_strlit(", ");
                reveal_strlit(": ");
            }
            if i != 0 {
                chunk.append(", ");
            }
            push_decimal(&mut chunk, i as u64);
            chunk.append(": ");
            push_signed_decimal(&mut chunk, self.0[i]);
            assert(chunk@ =~= chunks[i + 1]);
            let ghost mid = *out;
            let w = out.write_str(chunk.as_str());
            proof {
                lemma_offer_step(before, mid, *out, chunks, i + 1, w);
            }
            if w.is_err() {
                return w;
            }
            i = i + 1;
        }
        proof {
            reveal_strlit("]");
            assert(chunks[n + 1] == "]"@);
        }
        let ghost mid = *out;
        let w = out.write_str("]");
        proof {
            lemma_offer_step(before, mid, *out, chunks, n + 1, w);
            assert(chunks.take(n + 2) =~= chunks);
        }
        w
    }
}

/// A colour as its red, green and blue components.
#[derive(Debug, Clone, Copy, PartialEq, Eq, Structural)]
pub struct Color {
    pub red: u8,
    pub green: u8,
    pub blue: u8,
}

impl Color {
    /// The colour with these components.
    pub fn from(red: u8, green: u8, blue: u8) -> (r: Color)
        ensures
            r.red == red,
            r.green == green,
            r.blue == blue,
    {
        Color { red, green, blue }
    }
}

/// `RGB(<r>, <g>, <b>) 0x<RRGGBB>`, the components in decimal and then in
/// upper-case hexadecimal.
pub open spec fn color_text(c: Color) -> Seq<char> {
    seq!['R', 'G', 'B', '('] + dec_text(c.red as nat) + seq![',', ' '] + dec_text(c.green as nat)
        + seq![',', ' '] + dec_text(c.blue as nat) + seq![')', ' ', '0', 'x'] + hex2_text(c.red)
        + hex2_text(c.green) + hex2_text(c.blue)
}

/// `Color { red: <r>, green: <g>, blue: <b> }`.
pub open spec fn color_dump(c: Color) -> Seq<char> {
    seq!['C', 'o', 'l', 'o', 'r', ' ', '{', ' ', 'r', 'e', 'd', ':', ' '] + dec_text(c.red as nat)
        + seq![',', ' ', 'g', 'r', 'e', 'e', 'n', ':', ' '] + dec_text(c.green as nat) + seq![
        ',',
        ' ',
        'b',
        'l',
        'u',
        'e',
        ':',
        ' ',
    ] + dec_text(c.blue as nat) + seq![' ', '}']
}

impl DisplayRender for Color {
    open spec fn display_chunks(&self) -> Seq<Seq<char>> {
        seq![color_text(*self)]
    }

    fn render_display<S: Sink>(&self, out: &mut S) -> (r: Result<(), RenderError>) {
        let mut chunk = String::new();
        proof {
            reveal_strlit("RGB(");
            reveal_strlit(", ");
            reveal_strlit(") 0x");
        }
        chunk.append("RGB(");
        push_decimal(&mut chunk, self.red as u64);
        chunk.append(", ");
        push_decimal(&mut chunk, self.green as u64);
        chunk.append(", ");
        push_decimal(&mut chunk, self.blue as u64);
        chunk.append(") 0x");
        push_hex2(&mut chunk, self.red);
        push_hex2(&mut chunk, self.green);
        push_hex2(&mut chunk, self.blue);
        assert(chunk@ =~= color_text(*self));
        let ghost before = *out;
        let ghost chunks = self.display_chunks();
        let w = out.write_str(chunk.as_str());
        proof {
            assert(chunks.take(0) =~= Seq::<Seq<char>>::empty());
            assert(chunks.take(1) =~= chunks);
            assert(all_taken(before, chunks, 0));
            lemma_offer_step(before, before, *out, chunks, 0, w);
        }
        w
    }
}

impl StructuralRender for Color {
    open spec fn structural_text(&self) -> Seq<char> {
        color_dump(*self)
    }

    fn render_structural(&self) -> (r: String) {
        let mut out = String::new();
        proof {
            reveal_strlit("Color { red: ");
            reveal_strlit(", green: ");
            reveal_strlit(", blue: ");
            reveal_strlit(" }");
        }
        out.append("Color { red: ");
        push_decimal(&mut out, self.red as u64);
        out.append(", green: ");
        push_decimal(&mut out, self.green as u64);
        out.append(", blue: ");
        push_decimal(&mut out, self.blue as u64);
        out.append(" }");
        assert(out@ =~= color_dump(*self));
        out
    }
}

} // verus!
