use vstd::prelude::*;

verus! {

/// The position of the first line feed in `s`, or its length when it has none.
pub open spec fn line_end(s: Seq<char>) -> nat
    decreases s.len(),
{
    if s.len() == 0 || s[0] == '\n' {
        0
    } else {
        1 + line_end(s.drop_first())
    }
}

/// The first line of `s`, without its line ending. A line ends at a line
/// feed, or at a carriage return right before one; a carriage return with
/// no line feed after it stays in the line.
pub open spec fn first_line(s: Seq<char>) -> Seq<char> {
    let k = line_end(s) as int;
    if 0 < k < s.len() && s[k - 1] == '\r' {
        s.take(k - 1)
    } else {
        s.take(k)
    }
}

/// The last character of the first line of `s`, if that line has any.
pub open spec fn last_of_first_line(s: Seq<char>) -> Option<char> {
    if first_line(s).len() == 0 {
        None
    } else {
        Some(first_line(s).last())
    }
}

/// A position with no line feed before it and a line feed or the end at it
/// is where the first line ends.
proof fn lemma_line_end_at(s: Seq<char>, k: int)
    requires
        0 <= k <= s.len(),
        forall|j: int| 0 <= j < k ==> s[j] != '\n',
        k == s.len() || s[k] == '\n',
    ensures
        line_end(s) == k,
    decreases s.len(),
{
    if s.len() > 0 && k > 0 {
        lemma_line_end_at(s.drop_first(), k - 1);
    }
}

/// The last character of the first line of `text`, or `None` when that
/// line is empty (the text is empty or starts with a line ending).
pub fn last_char_of_first_line(text: &str) -> (r: Option<char>)
    ensures
        r == last_of_first_line(text@),
{
    let n: usize = text.unicode_len();
    let mut k: usize = 0;
    loop
        invariant
            n == text@.len(),
            k <= n,
            forall|j: int| 0 <= j < k ==> text@[j] != '\n',
        ensures
            k <= n,
            forall|j: int| 0 <= j < k ==> text@[j] != '\n',
            k == n || text@[k as int] == '\n',
        decreases n - k,
    {
        if k == n {
            break;
        }
        if text.get_char(k) == '\n' {
            break;
        }
        k = k + 1;
    }
    proof {
        lemma_line_end_at(text@, k as int);
    }
    let mut end: usize = k;
    if 0 < k && k < n && text.get_char(k - 1) == '\r' {
        end = k - 1;
    }
    assert(first_line(text@) =~= text@.take(end as int));
    if end == 0 {
        None
    } else {
        Some(text.get_char(end - 1))
    }
}

} // verus!
