//! Exact byte spans of AST nodes and the metadata that refers to them.

use std::ops::Range;
use vstd::prelude::*;
use vstd::string::*;
use vstd::utf8::*;

verus! {

/// An exact byte span in one source file.
#[derive(Clone, Copy, Debug, PartialEq, Eq, Hash, Structural)]
pub struct Span {
    pub file: usize,
    pub start: usize,
    pub end: usize,
}

/// The identifier of one metadata-wrapped AST node: an index into [`Spans`].
#[derive(Clone, Copy, Debug, PartialEq, Eq, Hash, Structural)]
pub struct MetaId(pub usize);

/// A value together with the identifier of its span.
#[derive(Clone, Debug, PartialEq, Eq, Hash)]
pub struct Meta<T> {
    pub node: T,
    pub id: MetaId,
}

/// The spans of all metadata-wrapped AST nodes, indexed by [`MetaId`].
#[derive(Clone, Debug)]
pub struct Spans(Vec<Span>);

impl View for Spans {
    type V = Seq<Span>;

    closed spec fn view(&self) -> Seq<Span> {
        self.0@
    }
}

/// The smallest span holding both `a` and `b`.
pub open spec fn merged(a: Span, b: Span) -> Span {
    Span {
        file: a.file,
        start: if a.start <= b.start { a.start } else { b.start },
        end: if a.end >= b.end { a.end } else { b.end },
    }
}

impl Default for Spans {
    fn default() -> (res: Self)
        ensures
            res@ == Seq::<Span>::empty(),
    {
        Spans(Vec::new())
    }
}

impl Spans {
    /// Add a span for `x` and return the metadata-wrapped value.
    pub fn add<T>(&mut self, span: Span, x: T) -> (res: Meta<T>)
        ensures
            final(self)@ == old(self)@.push(span),
            res.id == MetaId(old(self)@.len() as usize),
            res.node == x,
    {
        let id = MetaId(self.0.len());
        self.0.push(span);
        Meta { node: x, id }
    }

    /// Get the span associated with an AST metadata identifier.
    pub fn get(&self, x: MetaId) -> (res: Span)
        requires
            x.0 < self@.len(),
        ensures
            res == self@[x.0 as int],
    {
        self.0[x.0]
    }

    /// Return the smallest span containing both metadata identifiers.
    pub fn merge(&mut self, x: MetaId, y: MetaId) -> (res: Span)
        requires
            x.0 < old(self)@.len(),
            y.0 < old(self)@.len(),
            old(self)@[x.0 as int].file == old(self)@[y.0 as int].file,
        ensures
            final(self)@ == old(self)@,
            res == merged(old(self)@[x.0 as int], old(self)@[y.0 as int]),
    {
        self.get(x).merge(self.get(y))
    }

    /// Return the number of stored spans.
    pub fn len(&self) -> (res: usize)
        ensures
            res == self@.len(),
    {
        self.0.len()
    }

    /// Return whether no spans are stored.
    pub fn is_empty(&self) -> (res: bool)
        ensures
            res == (self@.len() == 0),
    {
        self.0.len() == 0
    }

    /// The metadata identifiers with their exact byte spans, in order.
    pub fn iter(&self) -> (res: Vec<(MetaId, Span)>)
        ensures
            res@.len() == self@.len(),
            forall|i: int| 0 <= i < self@.len() ==> #[trigger] res@[i] == (MetaId(i as usize), self@[i]),
    {
        let mut res: Vec<(MetaId, Span)> = Vec::new();
        let mut i: usize = 0;
        while i < self.0.len()
            invariant
                i <= self@.len(),
                res@.len() == i,
                forall|j: int| 0 <= j < i ==> #[trigger] res@[j] == (MetaId(j as usize), self@[j]),
            decreases self@.len() - i,
        {
            res.push((MetaId(i), self.0[i]));
            i = i + 1;
        }
        res
    }
}

/// A character boundary of valid UTF-8 at or before `end` stays one in the
/// prefix that ends at the character boundary `end`.
pub proof fn lemma_prefix_boundary(bytes: Seq<u8>, end: int, i: int)
    requires
        valid_utf8(bytes),
        0 <= i <= end <= bytes.len(),
        is_char_boundary(bytes, end),
        is_char_boundary(bytes, i),
    ensures
        valid_utf8(bytes.subrange(0, end)),
        is_char_boundary(bytes.subrange(0, end), i),
{
    valid_utf8_split(bytes, end);
    let pre = bytes.subrange(0, end);
    if i == end {
        is_char_boundary_start_end_of_seq(pre);
    } else {
        is_char_boundary_iff_not_is_continuation_byte(bytes, i);
        is_char_boundary_iff_not_is_continuation_byte(pre, i);
    }
}

impl<T> Meta<T> {
    /// The identifier of this node's span.
    pub fn meta_id(&self) -> (res: MetaId)
        ensures
            res == self.id,
    {
        self.id
    }
}

impl<'a, T> From<&'a Meta<T>> for MetaId {
    fn from(value: &'a Meta<T>) -> (res: Self) {
        value.id
    }
}

impl<'a, T> vstd::std_specs::convert::FromSpecImpl<&'a Meta<T>> for MetaId {
    open spec fn obeys_from_spec() -> bool {
        true
    }

    open spec fn from_spec(value: &'a Meta<T>) -> Self {
        value.id
    }
}

impl<T> std::ops::Deref for Meta<T> {
    type Target = T;

    /// The wrapped node.
    fn deref(&self) -> (res: &T)
        ensures
            *res == self.node,
    {
        &self.node
    }
}

impl Span {
    /// Return the smallest span containing `self` and `other`.
    pub fn merge(self, other: Self) -> (res: Self)
        requires
            self.file == other.file,
        ensures
            res == merged(self, other),
    {
        Span {
            file: self.file,
            start: if self.start <= other.start { self.start } else { other.start },
            end: if self.end >= other.end { self.end } else { other.end },
        }
    }

    pub fn new(file: usize, value: Range<usize>) -> (res: Self)
        ensures
            res == (Span { file, start: value.start, end: value.end }),
    {
        Span { file, start: value.start, end: value.end }
    }

    /// Return this span's exact byte range.
    pub fn range(self) -> (res: Range<usize>)
        ensures
            res.start == self.start,
            res.end == self.end,
    {
        self.start..self.end
    }

    /// Given the source file, returns a range of character offsets.
    ///
    /// Both ends count the characters of `file` before the respective byte
    /// offset.
    pub fn character_range(&self, file: &str) -> (res: Range<usize>)
        requires
            self.start <= self.end <= file.spec_bytes().len(),
            is_char_boundary(file.spec_bytes(), self.start as int),
            is_char_boundary(file.spec_bytes(), self.end as int),
        ensures
            res.start == decode_utf8(file.spec_bytes().subrange(0, self.start as int)).len(),
            res.end == decode_utf8(file.spec_bytes().subrange(0, self.end as int)).len(),
    {
        let bytes = Ghost(file.spec_bytes());
        proof {
            encode_utf8_valid_utf8(file@);
            lemma_prefix_boundary(bytes@, self.end as int, self.start as int);
        }
        let (before_end, _) = file.split_at(self.end);
        let (before_start, _) = before_end.split_at(self.start);
        proof {
            assert(before_end.spec_bytes().subrange(0, self.start as int) =~= bytes@.subrange(0, self.start as int));
            encode_utf8_decode_utf8(before_end@);
            encode_utf8_decode_utf8(before_start@);
        }
        let start = before_start.unicode_len();
        let end = before_end.unicode_len();
        start..end
    }

    /// Return whether this source span is empty.
    pub fn is_empty(self) -> (res: bool)
        ensures
            res == (self.start == self.end),
    {
        self.start == self.end
    }
}

/// The span that [`Spans::add`] stores for a node is the one that
/// [`Spans::get`] gives back for its identifier.
pub proof fn law_get_gives_back_what_add_stored(before: Seq<Span>, after: Seq<Span>, span: Span, id: MetaId)
    requires
        before.len() <= usize::MAX,
        after == before.push(span),
        id == MetaId(before.len() as usize),
    ensures
        id.0 < after.len(),
        after[id.0 as int] == span,
        forall|i: int| 0 <= i < before.len() ==> after[i] == before[i],
{
}

/// The spans after `added` were added, one by one, to `before`.
pub open spec fn after_adds(before: Seq<Span>, added: Seq<Span>) -> Seq<Span>
    decreases added.len(),
{
    if added.len() == 0 {
        before
    } else {
        after_adds(before, added.drop_last()).push(added.last())
    }
}

/// However many spans are added, each one stays where its `add` put it: the
/// span added `i`-th after `before` is at position `before.len() + i`, the
/// identifier that `add` returned for it, and the spans of `before` stay
/// where they are.
pub proof fn law_every_added_span_is_kept(before: Seq<Span>, added: Seq<Span>)
    ensures
        after_adds(before, added).len() == before.len() + added.len(),
        forall|i: int| 0 <= i < added.len() ==> #[trigger] after_adds(before, added)[before.len() + i] == added[i],
        forall|i: int| 0 <= i < before.len() ==> #[trigger] after_adds(before, added)[i] == before[i],
    decreases added.len(),
{
    if added.len() > 0 {
        law_every_added_span_is_kept(before, added.drop_last());
        let prev = after_adds(before, added.drop_last());
        assert forall|i: int| 0 <= i < added.len() implies #[trigger] after_adds(before, added)[before.len() + i] == added[i] by {
            if i < added.len() - 1 {
                assert(prev[before.len() + i] == added.drop_last()[i]);
            }
        }
        assert forall|i: int| 0 <= i < before.len() implies #[trigger] after_adds(before, added)[i] == before[i] by {
            assert(prev[i] == before[i]);
        }
    }
}

/// A merged span is the smallest that holds both: it starts where the
/// earlier of the two starts and ends where the later of the two ends.
pub proof fn law_merged_is_the_smallest(a: Span, b: Span)
    requires
        a.file == b.file,
    ensures
        merged(a, b).start <= a.start && merged(a, b).start <= b.start,
        merged(a, b).start == a.start || merged(a, b).start == b.start,
        merged(a, b).end >= a.end && merged(a, b).end >= b.end,
        merged(a, b).end == a.end || merged(a, b).end == b.end,
{
}

/// A merged span holds both spans it was merged from.
pub proof fn law_merged_holds_both(a: Span, b: Span)
    requires
        a.file == b.file,
    ensures
        merged(a, b).file == a.file,
        merged(a, b).start <= a.start,
        merged(a, b).start <= b.start,
        merged(a, b).end >= a.end,
        merged(a, b).end >= b.end,
        merged(a, b) == merged(b, a),
{
}

} // verus!
