use vstd::prelude::*;

verus! {

use crate::errors::Error;
use crate::tag::{rec_len, rec_wf, Tag, u16_le};

/// `b` is an exact back-to-back concatenation of zero or more complete
/// records, with no trailing slack.
pub open spec fn tags_wf(b: Seq<u8>) -> bool
    decreases b.len(),
{
    if b.len() == 0 {
        true
    } else if b.len() < 4 {
        false
    } else {
        let l = rec_len(b);
        if 4 <= l <= b.len() {
            tags_wf(b.skip(l))
        } else {
            false
        }
    }
}

/// The records of `b`, in buffer order, each as its full encoded bytes.
/// Meaningful when `tags_wf(b)` holds.
pub open spec fn tags_seq(b: Seq<u8>) -> Seq<Seq<u8>>
    decreases b.len(),
{
    if b.len() < 4 {
        Seq::empty()
    } else {
        let l = rec_len(b);
        if 4 <= l <= b.len() {
            seq![b.subrange(0, l)] + tags_seq(b.skip(l))
        } else {
            Seq::empty()
        }
    }
}

/// Appending one complete record to a well-formed buffer keeps it
/// well-formed and appends exactly that record to its record sequence.
pub proof fn lemma_tags_append(a: Seq<u8>, t: Seq<u8>)
    requires
        tags_wf(a),
        rec_wf(t),
    ensures
        tags_wf(a + t),
        tags_seq(a + t) == tags_seq(a).push(t),
    decreases a.len(),
{
    if a.len() == 0 {
        assert(a + t =~= t);
        let l = t.len() as int;
        assert(rec_len(t) == l);
        assert(t.skip(l) =~= Seq::<u8>::empty());
        assert(tags_seq(Seq::<u8>::empty()) =~= Seq::<Seq<u8>>::empty());
        assert(tags_wf(Seq::<u8>::empty()));
        assert(tags_wf(t));
        assert(t.subrange(0, l) =~= t);
        assert(tags_seq(t) =~= seq![t]);
        assert(tags_seq(a) =~= Seq::<Seq<u8>>::empty());
        assert(tags_seq(a + t) =~= tags_seq(a).push(t));
    } else {
        let l = rec_len(a);
        assert((a + t)[0] == a[0] && (a + t)[1] == a[1]);
        assert(rec_len(a + t) == l);
        assert((a + t).skip(l) =~= a.skip(l) + t);
        lemma_tags_append(a.skip(l), t);
        assert((a + t).subrange(0, l) =~= a.subrange(0, l));
        assert(tags_seq(a + t) =~= tags_seq(a).push(t));
    }
}

/// Adding a trailing byte to a well-formed buffer always breaks it: the
/// parse cannot land exactly on the new end.
pub proof fn lemma_trailing_byte_rejected(a: Seq<u8>, x: u8)
    requires
        tags_wf(a),
    ensures
        !tags_wf(a.push(x)),
    decreases a.len(),
{
    if a.len() == 0 {
        assert(a.push(x).len() == 1);
    } else {
        let l = rec_len(a);
        assert(a.push(x)[0] == a[0] && a.push(x)[1] == a[1]);
        assert(rec_len(a.push(x)) == l);
        assert(a.push(x).skip(l) =~= a.skip(l).push(x));
        lemma_trailing_byte_rejected(a.skip(l), x);
    }
}

/// A validated sequence of `Tag`s over one contiguous byte buffer.
///
/// See `OwnedTagSet` for the growable variant.
#[derive(Debug, Clone, PartialEq, Eq, Hash)]
pub struct TagSet {
    bytes: Vec<u8>,
}

impl View for TagSet {
    type V = Seq<u8>;

    closed spec fn view(&self) -> Seq<u8> {
        self.bytes@
    }
}

impl TagSet {
    /// The structural invariant every constructed `TagSet` satisfies.
    pub open spec fn wf(&self) -> bool {
        tags_wf(self@)
    }

    /// The records of this set, in buffer order.
    pub open spec fn tags(&self) -> Seq<Seq<u8>> {
        tags_seq(self@)
    }

    /// Interpret a sequence of bytes as a `TagSet`.
    ///
    /// Succeeds exactly when `input` is a non-empty exact concatenation of
    /// complete records: at least one record, and no trailing bytes after
    /// the last one. Every failure is `EndOfInput`.
    pub fn from_bytes(input: &[u8]) -> (r: Result<TagSet, Error>)
        ensures
            r is Ok <==> input@.len() > 0 && tags_wf(input@),
            r matches Ok(ts) ==> ts@ == input@ && ts.wf(),
            r is Err ==> r == Err::<TagSet, Error>(Error::EndOfInput),
    {
        if input.len() < 4 {
            return Err(Error::EndOfInput);
        }
        let n = input.len();
        let mut p: usize = 0;
        assert(input@.skip(0) =~= input@);
        while p < n
            invariant
                n == input@.len(),
                p <= n,
                tags_wf(input@) <==> tags_wf(input@.skip(p as int)),
            decreases n - p,
        {
            if n - p < 4 {
                assert(!tags_wf(input@.skip(p as int)));
                return Err(Error::EndOfInput);
            }
            let lo = *vstd::slice::slice_index_get(input, p);
            let hi = *vstd::slice::slice_index_get(input, p + 1);
            let l: usize = lo as usize + 256 * (hi as usize);
            assert(rec_len(input@.skip(p as int)) == u16_le(lo, hi));
            if l < 4 || l > n - p {
                assert(!tags_wf(input@.skip(p as int)));
                return Err(Error::EndOfInput);
            }
            assert(input@.skip(p as int).skip(l as int) =~= input@.skip(p as int + l as int));
            p = p + l;
        }
        assert(input@.skip(n as int) =~= Seq::<u8>::empty());
        Ok(TagSet { bytes: vstd::slice::slice_to_vec(input) })
    }

    /// Interpret a sequence of bytes as a `TagSet` without runtime checks.
    ///
    /// The caller must already know that `input` is an exact concatenation
    /// of complete records; this is for re-reading data that was validated
    /// when written.
    pub fn from_bytes_unchecked(input: &[u8]) -> (ts: TagSet)
        requires
            tags_wf(input@),
        ensures
            ts@ == input@,
            ts.wf(),
    {
        TagSet { bytes: vstd::slice::slice_to_vec(input) }
    }

    /// Copy to the growable owned variant.
    pub fn to_owned(&self) -> (r: OwnedTagSet)
        requires
            self.wf(),
        ensures
            r@ == self@,
            r.wf(),
    {
        OwnedTagSet { bytes: vstd::slice::slice_to_vec(self.bytes.as_slice()) }
    }

    /// The raw encoded bytes of the whole set.
    pub fn as_bytes(&self) -> (r: &[u8])
        ensures
            r@ == self@,
    {
        self.bytes.as_slice()
    }

    /// A restartable iterator over the records, in buffer order.
    pub fn iter(&self) -> (r: TagSetIter)
        requires
            self.wf(),
        ensures
            r.wf(),
            r.remaining() == self.tags(),
    {
        proof {
            assert(self.bytes@.skip(0) =~= self.bytes@);
        }
        TagSetIter { bytes: vstd::slice::slice_to_vec(self.bytes.as_slice()), p: 0 }
    }
}

/// An iterator over the records of a `TagSet`, yielding each as an owned
/// `Tag`. Re-runs the single-record parse from successive offsets.
#[derive(Debug)]
pub struct TagSetIter {
    bytes: Vec<u8>,
    p: usize,
}

impl TagSetIter {
    /// The records not yet yielded.
    pub closed spec fn remaining(&self) -> Seq<Seq<u8>> {
        tags_seq(self.bytes@.skip(self.p as int))
    }

    /// The iterator's position is on a record boundary of a well-formed tail.
    pub closed spec fn wf(&self) -> bool {
        self.p <= self.bytes@.len() && tags_wf(self.bytes@.skip(self.p as int))
    }

    /// Yield the next record, or `None` at the end of the set.
    pub fn next(&mut self) -> (r: Option<Tag>)
        requires
            old(self).wf(),
        ensures
            final(self).wf(),
            old(self).remaining().len() == 0 ==> r is None && final(self).remaining() == old(
                self,
            ).remaining(),
            old(self).remaining().len() > 0 ==> (r matches Some(tag) && tag@ == old(
                self,
            ).remaining()[0] && tag.wf() && final(self).remaining() == old(self).remaining().skip(
                1,
            )),
    {
        let n = self.bytes.len();
        if self.p >= n {
            assert(self.bytes@.skip(self.p as int).len() == 0);
            return None;
        }
        let ghost rest = self.bytes@.skip(self.p as int);
        assert(rest.len() >= 4);
        let tail = vstd::slice::slice_subrange(self.bytes.as_slice(), self.p, n);
        let tag = Tag::from_bytes_unchecked(tail);
        let l = tag.as_bytes().len();
        assert(l == rec_len(rest));
        assert(tag@ == rest.subrange(0, l as int));
        assert(tag@ == self.remaining()[0]);
        self.p = self.p + l;
        assert(self.bytes@.skip(self.p as int) =~= rest.skip(l as int));
        Some(tag)
    }
}

/// An owned, growable set of `Tag`s.
///
/// By construction its buffer is always an exact concatenation of complete
/// records: the only mutator appends one whole record at a time.
#[derive(Debug, Clone, PartialEq, Eq, Hash)]
pub struct OwnedTagSet {
    bytes: Vec<u8>,
}

impl View for OwnedTagSet {
    type V = Seq<u8>;

    closed spec fn view(&self) -> Seq<u8> {
        self.bytes@
    }
}

impl OwnedTagSet {
    /// The structural invariant every constructed `OwnedTagSet` satisfies.
    pub open spec fn wf(&self) -> bool {
        tags_wf(self@)
    }

    /// The records of this set, in insertion order.
    pub open spec fn tags(&self) -> Seq<Seq<u8>> {
        tags_seq(self@)
    }

    /// Create an empty set: a valid `TagSet` of zero tags.
    pub fn new() -> (r: OwnedTagSet)
        ensures
            r@ == Seq::<u8>::empty(),
            r.wf(),
            r.tags() == Seq::<Seq<u8>>::empty(),
    {
        OwnedTagSet { bytes: Vec::new() }
    }

    /// Build a set from the given records, preserving their order.
    pub fn from_tags(input_tags: &Vec<Tag>) -> (r: OwnedTagSet)
        requires
            forall|i: int| 0 <= i < input_tags@.len() ==> (#[trigger] input_tags@[i]).wf(),
        ensures
            r.wf(),
            r.tags().len() == input_tags@.len(),
            forall|i: int|
                0 <= i < input_tags@.len() ==> #[trigger] r.tags()[i] == input_tags@[i]@,
    {
        let mut tag_set = Self::new();
        let mut i: usize = 0;
        while i < input_tags.len()
            invariant
                i <= input_tags@.len(),
                forall|k: int| 0 <= k < input_tags@.len() ==> (#[trigger] input_tags@[k]).wf(),
                tag_set.wf(),
                tag_set.tags().len() == i,
                forall|k: int| 0 <= k < i ==> #[trigger] tag_set.tags()[k] == input_tags@[k]@,
            decreases input_tags@.len() - i,
        {
            tag_set.add_tag(&input_tags[i]);
            i = i + 1;
        }
        tag_set
    }

    /// Append one record to the end of the set.
    pub fn add_tag(&mut self, tag: &Tag)
        requires
            old(self).wf(),
            tag.wf(),
        ensures
            final(self)@ == old(self)@ + tag@,
            final(self).wf(),
            final(self).tags() == old(self).tags().push(tag@),
    {
        proof {
            lemma_tags_append(self@, tag@);
        }
        let data = tag.as_bytes();
        let mut i: usize = 0;
        while i < data.len()
            invariant
                i <= data@.len(),
                self.bytes@ == old(self)@ + data@.subrange(0, i as int),
            decreases data@.len() - i,
        {
            let b = *vstd::slice::slice_index_get(data, i);
            self.bytes.push(b);
            assert(self.bytes@ =~= old(self)@ + data@.subrange(0, i + 1));
            i = i + 1;
        }
        assert(self@ =~= old(self)@ + tag@);
    }

    /// The raw encoded bytes of the whole set.
    pub fn as_bytes(&self) -> (r: &[u8])
        ensures
            r@ == self@,
    {
        self.bytes.as_slice()
    }

    /// A restartable iterator over the records, in insertion order. The
    /// iteration code path is the same as for a borrowed `TagSet`.
    pub fn iter(&self) -> (r: TagSetIter)
        requires
            self.wf(),
        ensures
            r.wf(),
            r.remaining() == self.tags(),
    {
        proof {
            assert(self.bytes@.skip(0) =~= self.bytes@);
        }
        TagSetIter { bytes: vstd::slice::slice_to_vec(self.bytes.as_slice()), p: 0 }
    }

    /// View this owned set as a borrowed-style `TagSet` value.
    pub fn to_tag_set(&self) -> (r: TagSet)
        requires
            self.wf(),
        ensures
            r@ == self@,
            r.wf(),
    {
        TagSet { bytes: vstd::slice::slice_to_vec(self.bytes.as_slice()) }
    }
}

impl Default for OwnedTagSet {
    /// The empty set.
    fn default() -> (r: OwnedTagSet)
        ensures
            r@ == Seq::<u8>::empty(),
            r.wf(),
    {
        OwnedTagSet::new()
    }
}

} // verus!
