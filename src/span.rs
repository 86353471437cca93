use vstd::prelude::*;
use vstd::string::*;
use vstd::utf8::*;

verus! {

/// A range of byte offsets `lo..hi` into one source buffer.
#[derive(Debug, Clone, Copy, PartialEq, Eq, Structural, Default)]
pub struct Span {
    pub lo: usize,
    pub hi: usize,
}

/// The smallest span that contains both `a` and `b`.
pub open spec fn merge_spec(a: Span, b: Span) -> Span {
    Span {
        lo: if a.lo <= b.lo { a.lo } else { b.lo },
        hi: if a.hi >= b.hi { a.hi } else { b.hi },
    }
}

impl Span {
    pub fn new(lo: usize, hi: usize) -> (r: Span)
        requires
            lo <= hi,
        ensures
            r.lo == lo,
            r.hi == hi,
    {
        Span { lo, hi }
    }

    /// Pairs `val` with this span.
    pub fn span<T>(self, val: T) -> (r: Spanned<T>)
        ensures
            r.0 == val,
            r.1 == self,
    {
        Spanned(val, self)
    }

    /// The smallest span that contains both `self` and `other`.
    pub fn merge(self, other: Span) -> (r: Span)
        ensures
            r == merge_spec(self, other),
    {
        let lo = if self.lo <= other.lo { self.lo } else { other.lo };
        let hi = if self.hi >= other.hi { self.hi } else { other.hi };
        Span { lo, hi }
    }

    pub fn start(self) -> (r: usize)
        ensures
            r == self.lo,
    {
        self.lo
    }

    pub fn end(self) -> (r: usize)
        ensures
            r == self.hi,
    {
        self.hi
    }

    /// The text of `source` that this span covers. The span's ends must lie
    /// on character boundaries of `source`.
    pub fn index<'s>(&self, source: &'s str) -> (r: &'s str)
        requires
            self.lo <= self.hi,
            self.hi <= source.spec_bytes().len(),
            is_char_boundary(source.spec_bytes(), self.lo as int),
            is_char_boundary(source.spec_bytes(), self.hi as int),
        ensures
            r.spec_bytes() == source.spec_bytes().subrange(self.lo as int, self.hi as int),
    {
        let ghost bytes = source.spec_bytes();
        proof {
            broadcast use encode_utf8_valid_utf8;
            lemma_boundary_shift(bytes, self.lo as int, self.hi as int);
        }
        let (_, tail) = source.split_at(self.lo);
        let (mid, _) = tail.split_at(self.hi - self.lo);
        assert(mid.spec_bytes() =~= bytes.subrange(self.lo as int, self.hi as int));
        mid
    }
}

/// A value together with the span of source text it came from.
#[derive(Debug, Clone, Copy, PartialEq, Eq)]
pub struct Spanned<T>(pub T, pub Span);

impl<T> Spanned<T> {
    pub fn into_inner(self) -> (r: T)
        ensures
            r == self.0,
    {
        self.0
    }

    pub fn data(&self) -> (r: &T)
        ensures
            *r == self.0,
    {
        &self.0
    }

    pub fn span(&self) -> (r: Span)
        ensures
            r == self.1,
    {
        self.1
    }

    pub fn span_ref(&self) -> (r: &Span)
        ensures
            *r == self.1,
    {
        &self.1
    }
}

/// In valid UTF-8, if `hi` is a character boundary and lies past the
/// boundary `lo`, then `hi - lo` is a boundary of the tail from `lo`.
pub proof fn lemma_boundary_shift(bytes: Seq<u8>, lo: int, hi: int)
    requires
        valid_utf8(bytes),
        0 <= lo <= hi <= bytes.len(),
        is_char_boundary(bytes, lo),
        is_char_boundary(bytes, hi),
    ensures
        valid_utf8(bytes.subrange(lo, bytes.len() as int)),
        is_char_boundary(bytes.subrange(lo, bytes.len() as int), hi - lo),
    decreases bytes.len(),
{
    if lo == 0 {
        assert(bytes.subrange(0, bytes.len() as int) =~= bytes);
    } else {
        let n = length_of_first_scalar(bytes);
        let rest = pop_first_scalar(bytes);
        assert(valid_utf8(rest));
        assert(1 <= n <= 4);
        assert(is_char_boundary(rest, lo - n));
        assert(lo - n >= 0);
        lemma_boundary_shift(rest, lo - n, hi - n);
        assert(rest.subrange(lo - n, rest.len() as int) =~= bytes.subrange(lo, bytes.len() as int));
    }
}

} // verus!

verus! {

/// In valid UTF-8 a byte below 128 is a whole character: there are
/// character boundaries just before it and just after it.
pub proof fn lemma_ascii_boundary(bytes: Seq<u8>, i: int)
    requires
        valid_utf8(bytes),
        0 <= i < bytes.len(),
        bytes[i] < 128,
    ensures
        is_char_boundary(bytes, i),
        is_char_boundary(bytes, i + 1),
    decreases bytes.len(),
{
    let n = length_of_first_scalar(bytes);
    let rest = pop_first_scalar(bytes);
    assert(valid_utf8(rest));
    assert(1 <= n <= 4);
    if i == 0 {
        assert(n == 1);
        assert(is_char_boundary(rest, 0));
    } else {
        assert(i >= n);
        assert(rest[i - n] == bytes[i]);
        lemma_ascii_boundary(rest, i - n);
    }
}

} // verus!
