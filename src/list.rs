use vstd::prelude::*;
use crate::digits::{dec_text, push_decimal};
use crate::render::{
    all_taken, display_text, joined, lemma_offer_step, same_rule, DisplayRender,
    RenderError, Sink, StructuralRender,
};

verus! {

/// A cons list: either a node holding one element and owning the rest of
/// the list, or the terminal marker.
pub enum List {
    /// A node: its element and the list that follows it.
    Cons(u32, Box<List>),
    /// The end of the list.
    Nil,
}

/// The elements of `l`, head first.
pub open spec fn list_elems(l: &List) -> Seq<u32>
    decreases l,
{
    match l {
        List::Cons(e, next) => seq![*e] + list_elems(next),
        List::Nil => Seq::empty(),
    }
}

impl View for List {
    type V = Seq<u32>;

    open spec fn view(&self) -> Seq<u32> {
        list_elems(self)
    }
}

impl List {
    /// The empty list.
    pub fn new() -> (r: List)
        ensures
            r@ == Seq::<u32>::empty(),
    {
        List::Nil
    }

    /// The list that holds `ele` alone.
    pub fn from(ele: u32) -> (r: List)
        ensures
            r@ == seq![ele],
    {
        let r = List::Cons(ele, Box::new(List::new()));
        assert(r@ =~= seq![ele]);
        r
    }

    /// Takes the list by value and returns it with `ele` in front.
    pub fn prepend(self, ele: u32) -> (r: List)
        ensures
            r@ == seq![ele] + self@,
    {
        List::Cons(ele, Box::new(self))
    }

    /// The number of elements, counted by walking the nodes.
    pub fn len(&self) -> (r: u32)
        requires
            self@.len() <= u32::MAX,
        ensures
            r == self@.len(),
    {
        let mut n: u32 = 0;
        let mut cur: &List = self;
        loop
            invariant
                n + cur@.len() == self@.len(),
                self@.len() <= u32::MAX,
            decreases cur@.len(),
        {
            match cur {
                List::Cons(_, next) => {
                    n = n + 1;
                    cur = next;
                },
                List::Nil => {
                    return n;
                },
            }
        }
    }

    /// The first element, or `None` for the empty list.
    pub fn ele(&self) -> (r: Option<u32>)
        ensures
            self@.len() == 0 ==> r == None::<u32>,
            self@.len() > 0 ==> r == Some(self@[0]),
    {
        match self {
            List::Cons(e, _) => Some(*e),
            List::Nil => None,
        }
    }

    /// All elements, head first, in a fresh vector.
    pub fn arr(&self) -> (r: Vec<u32>)
        ensures
            r@ == self@,
    {
        let mut out: Vec<u32> = Vec::new();
        let mut cur: &List = self;
        loop
            invariant
                out@ + cur@ == self@,
            decreases cur@.len(),
        {
            match cur {
                List::Cons(e, next) => {
                    proof {
                        assert(cur@ == seq![*e] + next@);
                    }
                    out.push(*e);
                    cur = next;
                    assert(out@ + cur@ =~= self@);
                },
                List::Nil => {
                    assert(out@ =~= self@);
                    return out;
                },
            }
        }
    }
}

/// The link marker between two elements of the display rendering.
pub open spec fn arrow() -> Seq<char> {
    seq![' ', '-', '>', ' ']
}

/// The token that ends every display rendering of a list.
pub open spec fn end_token() -> Seq<char> {
    seq!['N', 'i', 'l']
}

/// The display chunks of a list holding `s`: each element in decimal
/// followed by the link marker, then the end token.
pub open spec fn list_chunks(s: Seq<u32>) -> Seq<Seq<char>> {
    Seq::new(s.len(), |i: int| dec_text(s[i] as nat) + arrow()).push(end_token())
}

/// The structural dump of a list holding `s`: nested `Cons(e, ...)` around `Nil`.
pub open spec fn list_structural(s: Seq<u32>) -> Seq<char>
    decreases s.len(),
{
    if s.len() == 0 {
        end_token()
    } else {
        seq!['C', 'o', 'n', 's', '('] + dec_text(s[0] as nat) + seq![',', ' '] + list_structural(
            s.drop_first(),
        ) + seq![')']
    }
}

impl DisplayRender for List {
    open spec fn display_chunks(&self) -> Seq<Seq<char>> {
        list_chunks(self@)
    }

    fn render_display<S: Sink>(&self, out: &mut S) -> (r: Result<(), RenderError>) {
        let ghost chunks = list_chunks(self@);
        let ghost before = *out;
        let ghost mut i: int = 0;
        let mut cur: &List = self;
        assert(chunks.take(0) =~= Seq::<Seq<char>>::empty());
        assert(out.offered() =~= before.offered() + chunks.take(0));
        assert(out.written() =~= before.written() + joined(chunks.take(0)));
        loop
            invariant
                0 <= i <= self@.len(),
                cur@ == self@.subrange(i, self@.len() as int),
                chunks == list_chunks(self@),
                before == *old(out),
                same_rule(before, *out),
                all_taken(before, chunks, i),
                out.offered() == before.offered() + chunks.take(i),
                out.written() == before.written() + joined(chunks.take(i)),
            decreases cur@.len(),
        {
            let ghost mid = *out;
            match cur {
                List::Cons(e, next) => {
                    assert(cur@[0] == *e && next@ =~= cur@.drop_first());
                    let mut chunk = String::new();
                    push_decimal(&mut chunk, *e as u64);
                    chunk.append(" -> ");
                    proof {
                        reveal_strlit(" -> ");
                        assert(" -> "@ =~= arrow());
                        assert(self@[i] == *e);
                        assert(chunk@ =~= chunks[i]);
                    }
                    let w = out.write_str(chunk.as_str());
                    proof {
                        lemma_offer_step(before, mid, *out, chunks, i, w);
                    }
                    if w.is_err() {
                        return w;
                    }
                    cur = next;
                    proof {
                        i = i + 1;
                    }
                },
                List::Nil => {
                    proof {
                        reveal_strlit("Nil");
                        assert(i == self@.len());
                        assert("Nil"@ =~= end_token());
                        assert(chunks[i] == end_token());
                    }
                    let w = out.write_str("Nil");
                    proof {
                        lemma_offer_step(before, mid, *out, chunks, i, w);
                        assert(chunks.take(i + 1) =~= chunks);
                    }
                    return w;
                },
            }
        }
    }
}

impl StructuralRender for List {
    open spec fn structural_text(&self) -> Seq<char> {
        list_structural(self@)
    }

    fn render_structural(&self) -> (r: String) {
        let mut out = String::new();
        self.write_structural(&mut out);
        out
    }
}

impl List {
    /// Appends the structural dump of this list.
    fn write_structural(&self, out: &mut String)
        ensures
            final(out)@ == old(out)@ + list_structural(self@),
        decreases self,
    {
        proof {
            reveal_strlit("Nil");
            reveal_strlit("Cons(");
            reveal_strlit(", ");
            reveal_strlit(")");
        }
        match self {
            List::Cons(e, next) => {
                assert(next@ =~= self@.drop_first());
                out.append("Cons(");
                push_decimal(out, *e as u64);
                out.append(", ");
                next.write_structural(out);
                out.append(")");
                assert(out@ =~= old(out)@ + list_structural(self@));
            },
            List::Nil => {
                out.append("Nil");
            },
        }
    }
}

/// The element held by the node reached after following `i` tails from `l`,
/// or `None` when the list ends first.
pub open spec fn node_at(l: &List, i: nat) -> Option<u32>
    decreases l,
{
    match l {
        List::Cons(e, next) => if i == 0 {
            Some(*e)
        } else {
            node_at(next, (i - 1) as nat)
        },
        List::Nil => None,
    }
}

/// Each construction step adds exactly one element: the empty list holds
/// none, a single-value list holds one, and a node holds one more than the
/// list it owns.
pub proof fn lemma_length_counts_constructions(s: List, v: u32)
    ensures
        List::Nil@.len() == 0,
        List::Cons(v, Box::new(List::Nil))@.len() == 1,
        List::Cons(v, Box::new(s))@.len() == s@.len() + 1,
        (seq![v] + s@).len() == s@.len() + 1,
{
    assert(List::Nil@.len() == 0);
    assert(List::Cons(v, Box::new(List::Nil))@ == seq![v] + List::Nil@);
}

/// The head of a list that `v` was put in front of is `v`, whatever the
/// list was before.
pub proof fn lemma_head_of_prepend(s: List, v: u32)
    ensures
        (seq![v] + s@).len() > 0,
        (seq![v] + s@)[0] == v,
        List::Cons(v, Box::new(s))@[0] == v,
{
}

/// The elements of a list, in the order of its view, are those met by
/// walking its nodes from the head: position `i` holds the element of the
/// node reached after `i` tails, and the walk ends exactly at the length.
pub proof fn lemma_ordered_sequence_follows_nodes(s: List, i: nat)
    ensures
        i < s@.len() ==> node_at(&s, i) == Some(s@[i as int]),
        i >= s@.len() ==> node_at(&s, i) is None,
    decreases s,
{
    match s {
        List::Cons(e, next) => {
            if i > 0 {
                lemma_ordered_sequence_follows_nodes(*next, (i - 1) as nat);
                if i < s@.len() {
                    assert(s@[i as int] == next@[i - 1]);
                }
            }
        },
        List::Nil => {},
    }
}

/// Lists with the same elements render to the same display text, so
/// rendering an unchanged list twice gives the same text both times.
pub proof fn lemma_display_deterministic(a: List, b: List)
    requires
        a@ == b@,
    ensures
        display_text(&a) == display_text(&b),
{
}

/// Every display rendering of a list, the empty one included, ends with the
/// end token.
pub proof fn lemma_display_ends_with_end_token(s: List)
    ensures
        display_text(&s).len() >= end_token().len(),
        display_text(&s).subrange(
            display_text(&s).len() - end_token().len(),
            display_text(&s).len() as int,
        ) == end_token(),
{
    let chunks = list_chunks(s@);
    assert(chunks.drop_last().len() == s@.len());
    assert(chunks.last() == end_token());
    assert(joined(chunks) == joined(chunks.drop_last()) + end_token());
    assert(display_text(&s).subrange(
        display_text(&s).len() - end_token().len(),
        display_text(&s).len() as int,
    ) =~= end_token());
}

} // verus!
