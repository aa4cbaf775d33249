use vstd::prelude::*;

verus! {

/// Why a rendering stopped: the sink refused a write.
#[derive(Debug, Clone, Copy, PartialEq, Eq, Structural)]
pub enum RenderError {
    /// The sink had room for `capacity` characters and the chunk did not fit.
    SinkFull { capacity: usize },
}

/// All chunks joined, in order.
pub open spec fn joined(chunks: Seq<Seq<char>>) -> Seq<char>
    decreases chunks.len(),
{
    if chunks.len() == 0 {
        Seq::empty()
    } else {
        joined(chunks.drop_last()) + chunks.last()
    }
}

/// Joining one more chunk adds it at the end.
pub proof fn lemma_joined_take_step(chunks: Seq<Seq<char>>, i: int)
    requires
        0 <= i < chunks.len(),
    ensures
        joined(chunks.take(i + 1)) == joined(chunks.take(i)) + chunks[i],
{
    assert(chunks.take(i + 1).drop_last() =~= chunks.take(i));
}

/// An incremental destination for text. Each write either takes the whole
/// chunk or refuses it and keeps what it had; which of the two is decided by
/// a fixed rule on the text already held and the chunk offered.
pub trait Sink {
    /// The text taken so far.
    spec fn written(&self) -> Seq<char>;

    /// Every chunk offered so far, taken or refused, oldest first.
    spec fn offered(&self) -> Seq<Seq<char>>;

    /// Whether this sink, once it holds `held`, takes `chunk`.
    spec fn accepts(&self, held: Seq<char>, chunk: Seq<char>) -> bool;

    /// Offers one chunk.
    fn write_str(&mut self, s: &str) -> (r: Result<(), RenderError>)
        ensures
            final(self).offered() == old(self).offered().push(s@),
            forall|h: Seq<char>, c: Seq<char>|
                #![trigger final(self).accepts(h, c)]
                #![trigger old(self).accepts(h, c)]
                final(self).accepts(h, c) == old(self).accepts(h, c),
            r is Ok <==> old(self).accepts(old(self).written(), s@),
            r is Ok ==> final(self).written() == old(self).written() + s@,
            r is Err ==> final(self).written() == old(self).written(),
    ;
}

/// Whether two states of a sink follow the same rule for taking chunks.
pub open spec fn same_rule<S: Sink>(a: S, b: S) -> bool {
    forall|h: Seq<char>, c: Seq<char>|
        #![trigger a.accepts(h, c)]
        #![trigger b.accepts(h, c)]
        a.accepts(h, c) == b.accepts(h, c)
}

/// Whether `chunk`, offered to `before` after the chunks `done` were taken,
/// is taken too.
pub open spec fn takes_next<S: Sink>(before: S, done: Seq<Seq<char>>, chunk: Seq<char>) -> bool {
    before.accepts(before.written() + joined(done), chunk)
}

/// Whether the first `k` of `chunks`, offered one after the other from
/// `before`, are all taken.
pub open spec fn all_taken<S: Sink>(before: S, chunks: Seq<Seq<char>>, k: int) -> bool {
    forall|j: int| 0 <= j < k ==> #[trigger] takes_next(before, chunks.take(j), chunks[j])
}

/// What offering `chunks` in order to a sink, stopping at the first refusal,
/// leaves behind. If every chunk is taken the result is `Ok` and the sink
/// holds them all; otherwise the result is `Err`, the chunks were offered up
/// to the first refused one and no further, and the sink holds those before it.
pub open spec fn streamed<S: Sink>(
    before: S,
    after: S,
    chunks: Seq<Seq<char>>,
    r: Result<(), RenderError>,
) -> bool {
    &&& same_rule(before, after)
    &&& r is Ok ==> {
        &&& all_taken(before, chunks, chunks.len() as int)
        &&& after.offered() == before.offered() + chunks
        &&& after.written() == before.written() + joined(chunks)
    }
    &&& r is Err ==> exists|k: int|
        0 <= k < chunks.len() && all_taken(before, chunks, k) && !takes_next(
            before,
            chunks.take(k),
            chunks[k],
        ) && after.offered() == before.offered() + chunks.take(k + 1) && after.written()
            == before.written() + joined(chunks.take(k))
}

/// Offering chunk `k` to a sink that has taken the `k` before it in order.
pub proof fn lemma_offer_step<S: Sink>(
    before: S,
    mid: S,
    after: S,
    chunks: Seq<Seq<char>>,
    k: int,
    r: Result<(), RenderError>,
)
    requires
        0 <= k < chunks.len(),
        same_rule(before, mid),
        all_taken(before, chunks, k),
        mid.offered() == before.offered() + chunks.take(k),
        mid.written() == before.written() + joined(chunks.take(k)),
        after.offered() == mid.offered().push(chunks[k]),
        same_rule(mid, after),
        r is Ok <==> mid.accepts(mid.written(), chunks[k]),
        r is Ok ==> after.written() == mid.written() + chunks[k],
        r is Err ==> after.written() == mid.written(),
    ensures
        same_rule(before, after),
        after.offered() == before.offered() + chunks.take(k + 1),
        r is Ok ==> all_taken(before, chunks, k + 1),
        r is Ok ==> after.written() == before.written() + joined(chunks.take(k + 1)),
        r is Err ==> !takes_next(before, chunks.take(k), chunks[k]),
        r is Err ==> after.written() == before.written() + joined(chunks.take(k)),
        r is Err ==> streamed(before, after, chunks, r),
{
    lemma_joined_take_step(chunks, k);
    assert(after.offered() =~= before.offered() + chunks.take(k + 1));
    assert(mid.accepts(mid.written(), chunks[k]) == before.accepts(mid.written(), chunks[k]));
    if r is Ok {
        assert(after.written() =~= before.written() + joined(chunks.take(k + 1)));
        assert forall|j: int| 0 <= j < k + 1 implies #[trigger] takes_next(
            before,
            chunks.take(j),
            chunks[j],
        ) by {
            if j < k {
                assert(takes_next(before, chunks.take(j), chunks[j]));
            }
        }
    }
}

/// A sink that keeps everything in memory and never refuses.
pub struct TextBuffer {
    text: String,
    log: Ghost<Seq<Seq<char>>>,
}

impl TextBuffer {
    /// An empty buffer.
    pub fn new() -> (r: TextBuffer)
        ensures
            r.written() == Seq::<char>::empty(),
            r.offered() == Seq::<Seq<char>>::empty(),
            forall|h: Seq<char>, c: Seq<char>| #[trigger] r.accepts(h, c),
    {
        TextBuffer { text: String::new(), log: Ghost(Seq::empty()) }
    }

    /// The text taken so far.
    pub fn text(&self) -> (r: &String)
        ensures
            r@ == self.written(),
    {
        &self.text
    }

    /// Gives up the buffer and returns its text.
    pub fn into_string(self) -> (r: String)
        ensures
            r@ == self.written(),
    {
        self.text
    }
}

impl Sink for TextBuffer {
    closed spec fn written(&self) -> Seq<char> {
        self.text@
    }

    closed spec fn offered(&self) -> Seq<Seq<char>> {
        self.log@
    }

    open spec fn accepts(&self, held: Seq<char>, chunk: Seq<char>) -> bool {
        true
    }

    fn write_str(&mut self, s: &str) -> (r: Result<(), RenderError>) {
        self.text.append(s);
        self.log = Ghost(self.log@.push(s@));
        Ok(())
    }
}

/// A sink that holds at most `capacity` characters and refuses any chunk
/// that would take it past that. It counts every chunk offered to it.
pub struct BoundedSink {
    text: String,
    capacity: usize,
    attempts: Vec<String>,
}

impl BoundedSink {
    /// The room the sink was made with.
    pub closed spec fn spec_capacity(&self) -> nat {
        self.capacity as nat
    }

    /// An empty sink with room for `capacity` characters.
    pub fn new(capacity: usize) -> (r: BoundedSink)
        ensures
            r.spec_capacity() == capacity,
            r.written() == Seq::<char>::empty(),
            r.offered() == Seq::<Seq<char>>::empty(),
    {
        BoundedSink { text: String::new(), capacity, attempts: Vec::new() }
    }

    /// The text taken so far.
    pub fn text(&self) -> (r: &String)
        ensures
            r@ == self.written(),
    {
        &self.text
    }

    /// How many chunks were offered, taken or refused.
    pub fn attempts(&self) -> (r: usize)
        ensures
            r == self.offered().len(),
    {
        self.attempts.len()
    }
}

impl Sink for BoundedSink {
    closed spec fn written(&self) -> Seq<char> {
        self.text@
    }

    closed spec fn offered(&self) -> Seq<Seq<char>> {
        self.attempts@.map_values(|c: String| c@)
    }

    open spec fn accepts(&self, held: Seq<char>, chunk: Seq<char>) -> bool {
        held.len() + chunk.len() <= self.spec_capacity()
    }

    fn write_str(&mut self, s: &str) -> (r: Result<(), RenderError>) {
        let ghost before = self.attempts@.map_values(|c: String| c@);
        self.attempts.push(String::from_str(s));
        assert(self.attempts@.map_values(|c: String| c@) =~= before.push(s@));
        let n: usize = s.unicode_len();
        let held: usize = self.text.as_str().unicode_len();
        if n <= self.capacity && held <= self.capacity - n {
            self.text.append(s);
            Ok(())
        } else {
            Err(RenderError::SinkFull { capacity: self.capacity })
        }
    }
}

/// A value that can be written for people to read, chunk by chunk, into a
/// sink, stopping at the first chunk the sink refuses.
pub trait DisplayRender {
    /// The chunks the display rendering writes, in order.
    spec fn display_chunks(&self) -> Seq<Seq<char>>;

    /// Writes the display rendering into `out`.
    fn render_display<S: Sink>(&self, out: &mut S) -> (r: Result<(), RenderError>)
        ensures
            streamed(*old(out), *final(out), self.display_chunks(), r),
    ;
}

/// A value that can be dumped field by field, showing the variant or type
/// name and each field in turn.
pub trait StructuralRender {
    /// The structural dump.
    spec fn structural_text(&self) -> Seq<char>;

    /// Returns the structural dump.
    fn render_structural(&self) -> (r: String)
        ensures
            r@ == self.structural_text(),
    ;
}

/// Which of the two renderings is asked for.
#[derive(Debug, Clone, Copy, PartialEq, Eq, Structural)]
pub enum RenderRequest {
    /// The field-by-field dump.
    Dump,
    /// The rendering meant for people.
    Display,
}

/// The whole display rendering of `value` as one text.
pub open spec fn display_text<T: DisplayRender>(value: &T) -> Seq<char> {
    joined(value.display_chunks())
}

/// Renders `value` in the mode asked for, into memory.
pub fn render<T: DisplayRender + StructuralRender>(value: &T, mode: RenderRequest) -> (r: String)
    ensures
        mode == RenderRequest::Dump ==> r@ == value.structural_text(),
        mode == RenderRequest::Display ==> r@ == display_text(value),
{
    match mode {
        RenderRequest::Dump => value.render_structural(),
        RenderRequest::Display => {
            let mut buf = TextBuffer::new();
            let _ = value.render_display(&mut buf);
            buf.into_string()
        },
    }
}

/// Rendering is repeatable: two display renderings of the same value into
/// sinks that hold the same text and follow the same rule end the same way
/// and leave the same text behind.
pub proof fn lemma_render_repeatable<T: DisplayRender, S: Sink>(
    value: &T,
    before1: S,
    after1: S,
    r1: Result<(), RenderError>,
    before2: S,
    after2: S,
    r2: Result<(), RenderError>,
)
    requires
        streamed(before1, after1, value.display_chunks(), r1),
        streamed(before2, after2, value.display_chunks(), r2),
        before1.written() == before2.written(),
        same_rule(before1, before2),
    ensures
        r1 is Ok <==> r2 is Ok,
        after1.written() == after2.written(),
{
    let chunks = value.display_chunks();
    assert forall|j: int| 0 <= j < chunks.len() implies #[trigger] takes_next(
        before1,
        chunks.take(j),
        chunks[j],
    ) == takes_next(before2, chunks.take(j), chunks[j]) by {
        assert(before1.accepts(before1.written() + joined(chunks.take(j)), chunks[j])
            == before2.accepts(before1.written() + joined(chunks.take(j)), chunks[j]));
    }
    if r1 is Err {
        let k1 = choose|k: int|
            0 <= k < chunks.len() && all_taken(before1, chunks, k) && !takes_next(
                before1,
                chunks.take(k),
                chunks[k],
            ) && after1.offered() == before1.offered() + chunks.take(k + 1) && after1.written()
                == before1.written() + joined(chunks.take(k));
        assert(!takes_next(before2, chunks.take(k1), chunks[k1]));
        if r2 is Err {
            let k2 = choose|k: int|
                0 <= k < chunks.len() && all_taken(before2, chunks, k) && !takes_next(
                    before2,
                    chunks.take(k),
                    chunks[k],
                ) && after2.offered() == before2.offered() + chunks.take(k + 1)
                    && after2.written() == before2.written() + joined(chunks.take(k));
            assert(!takes_next(before1, chunks.take(k2), chunks[k2]));
            if k1 < k2 {
                assert(takes_next(before2, chunks.take(k1), chunks[k1]));
            } else if k2 < k1 {
                assert(takes_next(before1, chunks.take(k2), chunks[k2]));
            }
        } else {
            assert(takes_next(before2, chunks.take(k1), chunks[k1]));
        }
    } else if r2 is Err {
        let k2 = choose|k: int|
            0 <= k < chunks.len() && all_taken(before2, chunks, k) && !takes_next(
                before2,
                chunks.take(k),
                chunks[k],
            ) && after2.offered() == before2.offered() + chunks.take(k + 1) && after2.written()
                == before2.written() + joined(chunks.take(k));
        assert(!takes_next(before1, chunks.take(k2), chunks[k2]));
        assert(takes_next(before1, chunks.take(k2), chunks[k2]));
    }
}

} // verus!
