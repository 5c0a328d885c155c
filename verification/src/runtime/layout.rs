//! Size and alignment of the values that Roto passes to and from the host.

use vstd::prelude::*;

verus! {

/// `x` rounded up to the next multiple of `a`.
pub open spec fn round_up(x: int, a: int) -> int {
    if a <= 0 || x % a == 0 {
        x
    } else {
        x + (a - x % a)
    }
}

pub proof fn lemma_round_up(x: int, a: int)
    requires
        x >= 0,
        a > 0,
    ensures
        x <= round_up(x, a) < x + a,
        round_up(x, a) % a == 0,
{
    assert(0 <= x % a < a) by (nonlinear_arith)
        requires
            a > 0,
    ;
    if x % a != 0 {
        assert((x + (a - x % a)) % a == 0) by (nonlinear_arith)
            requires
                a > 0,
        ;
    }
}

/// The size and alignment of a type.
#[derive(Clone, Copy, Debug, PartialEq, Eq, Hash, Structural)]
pub struct Layout {
    size: usize,
    align: usize,
}

impl Layout {
    /// A layout has a positive alignment.
    #[verifier::type_invariant]
    closed spec fn positive_align(self) -> bool {
        self.align > 0
    }

    pub closed spec fn spec_size(&self) -> nat {
        self.size as nat
    }

    pub closed spec fn spec_align(&self) -> nat {
        self.align as nat
    }

    /// A layout has a positive alignment.
    pub closed spec fn wf(&self) -> bool {
        self.align > 0
    }

    /// A layout of `size` bytes aligned to `align` bytes.
    pub fn new(size: usize, align: usize) -> (res: Self)
        requires
            align > 0,
        ensures
            res.wf(),
            res.spec_size() == size,
            res.spec_align() == align,
    {
        Layout { size, align }
    }

    pub fn size(&self) -> (res: usize)
        ensures
            res == self.spec_size(),
    {
        self.size
    }

    pub fn align(&self) -> (res: usize)
        ensures
            res == self.spec_align(),
            self.wf(),
    {
        proof {
            use_type_invariant(self);
        }
        self.align
    }

    /// The layout of a union of `self` and `other`: the larger size rounded
    /// up to the larger alignment.
    pub fn union(&self, other: &Layout) -> (res: Layout)
        requires
            self.wf(),
            other.wf(),
            round_up(
                if self.spec_size() >= other.spec_size() { self.spec_size() as int } else { other.spec_size() as int },
                if self.spec_align() >= other.spec_align() { self.spec_align() as int } else { other.spec_align() as int },
            ) <= usize::MAX,
        ensures
            res.wf(),
            res.spec_align() == if self.spec_align() >= other.spec_align() { self.spec_align() } else { other.spec_align() },
            res.spec_size() == round_up(
                if self.spec_size() >= other.spec_size() { self.spec_size() as int } else { other.spec_size() as int },
                res.spec_align() as int,
            ),
    {
        let size = if self.size >= other.size { self.size } else { other.size };
        let align = if self.align >= other.align { self.align } else { other.align };
        Layout { size: round_up_exec(size, align), align }
    }
}

fn round_up_exec(x: usize, a: usize) -> (res: usize)
    requires
        a > 0,
        round_up(x as int, a as int) <= usize::MAX,
    ensures
        res == round_up(x as int, a as int),
{
    proof {
        lemma_round_up(x as int, a as int);
    }
    let r = x % a;
    if r == 0 {
        x
    } else {
        x + (a - r)
    }
}

/// The size and alignment of fields laid out one after the other, each at
/// an offset aligned to its own alignment.
pub struct LayoutBuilder {
    size: usize,
    alignment: usize,
}

/// The size of the fields `fields` laid out after `start` bytes.
pub open spec fn fields_end(start: int, fields: Seq<Layout>) -> int
    decreases fields.len(),
{
    if fields.len() == 0 {
        start
    } else {
        fields_end(
            round_up(start, fields[0].spec_align() as int) + fields[0].spec_size(),
            fields.drop_first(),
        )
    }
}

/// The largest alignment among `fields` and `start`.
pub open spec fn fields_align(start: int, fields: Seq<Layout>) -> int
    decreases fields.len(),
{
    if fields.len() == 0 {
        start
    } else {
        fields_align(
            if fields[0].spec_align() >= start { fields[0].spec_align() as int } else { start },
            fields.drop_first(),
        )
    }
}

impl LayoutBuilder {
    pub closed spec fn spec_size(&self) -> nat {
        self.size as nat
    }

    pub closed spec fn spec_alignment(&self) -> nat {
        self.alignment as nat
    }

    /// A builder without fields.
    pub fn new() -> (res: Self)
        ensures
            res.spec_size() == 0,
            res.spec_alignment() == 1,
    {
        LayoutBuilder { size: 0, alignment: 1 }
    }

    /// Add a field and return its offset.
    pub fn add(&mut self, layout: &Layout) -> (res: usize)
        requires
            layout.wf(),
            round_up(old(self).spec_size() as int, layout.spec_align() as int) + layout.spec_size()
                <= usize::MAX,
        ensures
            res == round_up(old(self).spec_size() as int, layout.spec_align() as int),
            final(self).spec_size() == res + layout.spec_size(),
            final(self).spec_alignment() == if layout.spec_align() >= old(self).spec_alignment() {
                layout.spec_align()
            } else {
                old(self).spec_alignment()
            },
    {
        proof {
            lemma_round_up(self.size as int, layout.align as int);
        }
        let offset = round_up_exec(self.size, layout.align);
        self.size = offset + layout.size;
        if layout.align >= self.alignment {
            self.alignment = layout.align;
        }
        offset
    }

    /// The layout of all fields added, its size rounded up to its alignment.
    pub fn finish(self) -> (res: Layout)
        requires
            self.spec_alignment() > 0,
            round_up(self.spec_size() as int, self.spec_alignment() as int) <= usize::MAX,
        ensures
            res.wf(),
            res.spec_align() == self.spec_alignment(),
            res.spec_size() == round_up(self.spec_size() as int, self.spec_alignment() as int),
    {
        Layout { size: round_up_exec(self.size, self.alignment), align: self.alignment }
    }
}

/// A size and an alignment, as mathematical integers.
pub open spec fn max_int(a: int, b: int) -> int {
    if a >= b {
        a
    } else {
        b
    }
}

/// The layout of a union of two layouts given as (size, alignment).
pub open spec fn union_v(a: (int, int), b: (int, int)) -> (int, int) {
    let align = max_int(a.1, b.1);
    (round_up(max_int(a.0, b.0), align), align)
}

/// The layout of a struct: a one-byte tag followed by `fields`, as
/// (size, alignment).
pub open spec fn tagged_struct_v(fields: Seq<Layout>) -> (int, int) {
    let end = fields_end(1, fields);
    let align = fields_align(1, fields);
    (round_up(end, align), align)
}

pub proof fn lemma_round_up_ge(x: int, a: int)
    requires
        x >= 0,
    ensures
        round_up(x, a) >= x,
{
    if a > 0 {
        lemma_round_up(x, a);
    }
}

/// Laying out fields never shrinks what was laid out before them, and the
/// alignment never shrinks.
pub proof fn lemma_fields_end_grows(s: int, fields: Seq<Layout>)
    requires
        s >= 0,
    ensures
        fields_end(s, fields) >= s,
        fields.len() > 0 ==> fields_end(s, fields) >= round_up(s, fields[0].spec_align() as int)
            + fields[0].spec_size(),
    decreases fields.len(),
{
    if fields.len() > 0 {
        lemma_round_up_ge(s, fields[0].spec_align() as int);
        lemma_fields_end_grows(
            round_up(s, fields[0].spec_align() as int) + fields[0].spec_size(),
            fields.drop_first(),
        );
    }
}

pub proof fn lemma_fields_align_grows(s: int, fields: Seq<Layout>)
    ensures
        fields_align(s, fields) >= s,
    decreases fields.len(),
{
    if fields.len() > 0 {
        lemma_fields_align_grows(
            if fields[0].spec_align() >= s { fields[0].spec_align() as int } else { s },
            fields.drop_first(),
        );
    }
}

/// The union of two layouts does not depend on their order.
pub proof fn law_union_commutes(a: (int, int), b: (int, int))
    ensures
        union_v(a, b) == union_v(b, a),
{
}

/// The union of two layouts holds either of them: it is at least as large
/// and as aligned as each, and its size is a multiple of its alignment.
pub proof fn law_union_holds_both(a: (int, int), b: (int, int))
    requires
        a.0 >= 0,
        b.0 >= 0,
        a.1 > 0,
        b.1 > 0,
    ensures
        union_v(a, b).0 >= a.0,
        union_v(a, b).0 >= b.0,
        union_v(a, b).1 >= a.1,
        union_v(a, b).1 >= b.1,
        union_v(a, b).0 % union_v(a, b).1 == 0,
{
    lemma_round_up(max_int(a.0, b.0), max_int(a.1, b.1));
}

} // verus!
