//! Taking in a byte stream piece by piece.

use vstd::prelude::*;

use crate::jvalue::{byte_from_jbyte, jbyte_from_byte};

verus! {

/// The bytes that one read may bring.
pub const BUFFER_LEN: i32 = 1024;

/// The unsigned bytes that have the same bits as `bytes`.
pub open spec fn unsigned(bytes: Seq<i8>) -> Seq<u8> {
    bytes.map_values(|b: i8| crate::jvalue::byte_of(b) as u8)
}

/// What one read did: it filled the front of the buffer, or, with a count that is not positive,
/// it met the end of the stream.
pub ghost struct ReadOutcome {
    pub count: i32,
    pub buffer: Seq<i8>,
}

impl ReadOutcome {
    /// The bytes that the read brought.
    pub open spec fn bytes(self) -> Seq<i8> {
        if self.count > 0 {
            self.buffer.take(self.count as int)
        } else {
            seq![]
        }
    }

    /// Whether the count says no more than the buffer holds.
    pub open spec fn valid(self) -> bool {
        self.count <= self.buffer.len()
    }
}

/// What to do after a read.
#[derive(Clone, Copy, Debug, PartialEq, Eq, Structural)]
pub enum StreamStep {
    ReadOn,
    Finish,
}

/// The unsigned bytes with the same bits as `elements`.
pub fn bytes_from_jbytes(elements: &[i8]) -> (r: Vec<u8>)
    ensures
        r@ == unsigned(elements@),
{
    let mut bytes: Vec<u8> = Vec::with_capacity(elements.len());
    let mut i: usize = 0;
    while i < elements.len()
        invariant
            i <= elements@.len(),
            bytes@ == unsigned(elements@).take(i as int),
        decreases elements@.len() - i,
    {
        bytes.push(byte_from_jbyte(elements[i]));
        i = i + 1;
        assert(bytes@ =~= unsigned(elements@).take(i as int));
    }
    assert(bytes@ =~= unsigned(elements@));
    bytes
}

/// The part of a stream that has been read so far.
#[derive(Debug, PartialEq, Eq)]
pub struct StreamDigest {
    pub data: Vec<u8>,
}

impl StreamDigest {
    /// Nothing read.
    pub fn new() -> (r: Self)
        ensures
            r.data@ == Seq::<u8>::empty(),
    {
        StreamDigest { data: Vec::new() }
    }

    /// Takes in what a read brought: the first `count` bytes of `buffer`. A count that is not
    /// positive is the end of the stream.
    pub fn feed(&mut self, count: i32, buffer: &[i8]) -> (step: StreamStep)
        requires
            (ReadOutcome { count, buffer: buffer@ }).valid(),
        ensures
            final(self).data@ == old(self).data@ + unsigned(
                (ReadOutcome { count, buffer: buffer@ }).bytes(),
            ),
            step == if count > 0 {
                StreamStep::ReadOn
            } else {
                StreamStep::Finish
            },
    {
        if count > 0 {
            let ghost before = self.data@;
            let ghost brought = (ReadOutcome { count, buffer: buffer@ }).bytes();
            let end: usize = count as usize;
            let mut i: usize = 0;
            while i < end
                invariant
                    i <= end,
                    end == count,
                    end <= buffer@.len(),
                    brought == buffer@.take(end as int),
                    self.data@ == before + unsigned(brought).take(i as int),
                decreases end - i,
            {
                self.data.push(byte_from_jbyte(buffer[i]));
                i = i + 1;
                assert(self.data@ =~= before + unsigned(brought).take(i as int));
            }
            assert(self.data@ =~= before + unsigned(brought));
            StreamStep::ReadOn
        } else {
            assert(self.data@ =~= old(self).data@ + unsigned(seq![]));
            StreamStep::Finish
        }
    }

    /// Everything that has been read, as signed bytes. It must be short enough for its length to
    /// be a 32-bit signed integer.
    pub fn finish(&self) -> (r: Vec<i8>)
        requires
            self.data@.len() <= i32::MAX,
        ensures
            unsigned(r@) == self.data@,
    {
        let mut out: Vec<i8> = Vec::with_capacity(self.data.len());
        let mut i: usize = 0;
        while i < self.data.len()
            invariant
                i <= self.data@.len(),
                unsigned(out@) == self.data@.take(i as int),
            decreases self.data@.len() - i,
        {
            let ghost before = out@;
            out.push(jbyte_from_byte(self.data[i]));
            i = i + 1;
            assert(unsigned(out@) =~= unsigned(before).push(self.data@[i - 1]));
            assert(unsigned(out@) =~= self.data@.take(i as int));
        }
        assert(self.data@.take(i as int) =~= self.data@);
        out
    }
}

/// The digest after `reads`, the last of which need not have met the end.
pub open spec fn digest_after(reads: Seq<ReadOutcome>) -> Seq<u8>
    decreases reads.len(),
{
    if reads.len() == 0 {
        seq![]
    } else {
        digest_after(reads.drop_last()) + unsigned(reads.last().bytes())
    }
}

/// The bytes that `reads` brought, one read after the other.
pub open spec fn brought(reads: Seq<ReadOutcome>) -> Seq<i8>
    decreases reads.len(),
{
    if reads.len() == 0 {
        seq![]
    } else {
        brought(reads.drop_last()) + reads.last().bytes()
    }
}

/// However the stream was cut into reads, what is handed out at the end is what they brought, in
/// order and with nothing missing.
pub proof fn digest_gives_the_stream_back(reads: Seq<ReadOutcome>, handed_out: Seq<i8>)
    requires
        unsigned(handed_out) == digest_after(reads),
    ensures
        handed_out == brought(reads),
{
    lemma_digest_is_unsigned(reads);
    lemma_unsigned_is_injective(handed_out, brought(reads));
}

proof fn lemma_digest_is_unsigned(reads: Seq<ReadOutcome>)
    ensures
        digest_after(reads) == unsigned(brought(reads)),
    decreases reads.len(),
{
    if reads.len() > 0 {
        lemma_digest_is_unsigned(reads.drop_last());
    }
    assert(digest_after(reads) =~= unsigned(brought(reads)));
}

/// Signed bytes are known by the unsigned bytes that have the same bits.
proof fn lemma_unsigned_is_injective(a: Seq<i8>, b: Seq<i8>)
    requires
        unsigned(a) == unsigned(b),
    ensures
        a == b,
{
    assert(unsigned(a).len() == a.len() && unsigned(b).len() == b.len());
    assert forall|i: int| 0 <= i < a.len() implies a[i] == b[i] by {
        assert(unsigned(a)[i] == crate::jvalue::byte_of(a[i]) as u8);
        assert(unsigned(b)[i] == crate::jvalue::byte_of(b[i]) as u8);
    }
    assert(a =~= b);
}

/// Bytes keep their order and their bits.
pub proof fn bytes_are_taken_one_by_one(elements: &[i8], r: Vec<u8>)
    requires
        call_ensures(bytes_from_jbytes, (elements,), r),
    ensures
        r@.len() == elements@.len(),
        forall|i: int|
            0 <= i < r@.len() ==> #[trigger] r@[i] == elements@[i] || r@[i] - elements@[i] == 0x100,
{
}

/// A read adds as many bytes to the end of the digest as its count says: those at the front of the
/// buffer, in order and with their bits. A count that is not positive adds nothing and is the end.
pub proof fn reads_are_added_at_the_end(
    digest: &mut StreamDigest,
    count: i32,
    buffer: &[i8],
    step: StreamStep,
)
    requires
        call_ensures(StreamDigest::feed, (digest, count, buffer), step),
        count <= buffer@.len(),
    ensures
        count > 0 <==> step == StreamStep::ReadOn,
        count <= 0 <==> step == StreamStep::Finish,
        count <= 0 ==> final(digest).data@ == old(digest).data@,
        count > 0 ==> final(digest).data@.len() == old(digest).data@.len() + count,
        final(digest).data@.take(old(digest).data@.len() as int) == old(digest).data@,
        forall|i: int|
            #![trigger buffer@[i]]
            0 <= i < count ==> {
                let added = final(digest).data@[old(digest).data@.len() + i];
                added == buffer@[i] || added - buffer@[i] == 0x100
            },
{
    let brought = (ReadOutcome { count, buffer: buffer@ }).bytes();
    let n = old(digest).data@.len() as int;
    assert(final(digest).data@.take(n) =~= old(digest).data@);
    if count > 0 {
        assert forall|i: int| #![trigger buffer@[i]] 0 <= i < count implies {
            let added = final(digest).data@[n + i];
            added == buffer@[i] || added - buffer@[i] == 0x100
        } by {
            assert(final(digest).data@[n + i] == unsigned(brought)[i]);
            assert(brought[i] == buffer@[i]);
        }
    } else {
        assert(final(digest).data@ =~= old(digest).data@);
    }
}

/// Every read that brings no more than the buffer holds can be taken in, whatever was read before.
pub proof fn every_read_is_taken(digest: &mut StreamDigest, count: i32, buffer: &[i8])
    requires
        count <= buffer@.len(),
    ensures
        call_requires(StreamDigest::feed, (digest, count, buffer)),
{
}

/// What is handed out is what was read: as many bytes, in order and with their bits. At the start
/// nothing was read.
pub proof fn everything_read_is_handed_out(digest: StreamDigest, r: Vec<i8>)
    requires
        call_ensures(StreamDigest::finish, (&digest,), r),
        digest.data@.len() <= i32::MAX,
    ensures
        r@.len() == digest.data@.len(),
        forall|i: int|
            0 <= i < r@.len() ==> #[trigger] r@[i] == digest.data@[i] || digest.data@[i] - r@[i]
                == 0x100,
        call_ensures(StreamDigest::new, (), digest) ==> r@.len() == 0,
{
    assert forall|i: int| 0 <= i < r@.len() implies #[trigger] r@[i] == digest.data@[i]
        || digest.data@[i] - r@[i] == 0x100 by {
        assert(unsigned(r@)[i] == digest.data@[i]);
    }
}

/// What one read brings is handed out behind what would have been handed out before it.
pub proof fn a_read_is_handed_out_as_it_came(
    digest: &mut StreamDigest,
    count: i32,
    buffer: &[i8],
    step: StreamStep,
    before: Vec<i8>,
    after: Vec<i8>,
)
    requires
        call_ensures(StreamDigest::finish, (old(digest),), before),
        call_ensures(StreamDigest::feed, (digest, count, buffer), step),
        call_ensures(StreamDigest::finish, (final(digest),), after),
        0 < count <= buffer@.len(),
        final(digest).data@.len() <= i32::MAX,
    ensures
        after@ == before@ + buffer@.take(count as int),
{
    let brought = buffer@.take(count as int);
    assert(unsigned(before@ + brought) =~= unsigned(before@) + unsigned(brought));
    lemma_unsigned_is_injective(after@, before@ + brought);
}

} // verus!
