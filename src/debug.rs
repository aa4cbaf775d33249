use vstd::prelude::*;
use crate::digits::{push_signed_decimal, signed_dec_text};
use crate::render::StructuralRender;

verus! {

/// A wrapper around one signed integer, dumped as `MyType(<value>)`.
#[derive(Debug, Clone, Copy, PartialEq, Eq, Structural)]
pub struct MyType(pub i32);

impl MyType {
    /// Wraps `num`.
    pub fn from(num: i32) -> (r: MyType)
        ensures
            r.0 == num,
    {
        MyType(num)
    }
}

/// The dump of a `MyType` holding `n`.
pub open spec fn my_type_text(n: i32) -> Seq<char> {
    seq!['M', 'y', 'T', 'y', 'p', 'e', '('] + signed_dec_text(n as int) + seq![')']
}

impl StructuralRender for MyType {
    open spec fn structural_text(&self) -> Seq<char> {
        my_type_text(self.0)
    }

    fn render_structural(&self) -> (r: String) {
        let mut out = String::new();
        proof {
            reveal_strlit("MyType(");
            reveal_strlit(")");
        }
        out.append("MyType(");
        push_signed_decimal(&mut out, self.0);
        out.append(")");
        assert(out@ =~= my_type_text(self.0));
        out
    }
}

} // verus!
