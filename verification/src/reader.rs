//! Reading standard input up to a bound, one read at a time.

use vstd::prelude::*;
use vstd::slice::slice_subrange;
use crate::source::append;

verus! {

/// The state of a bounded read: the bound, the bytes gathered so far, and
/// whether the reading is over.
pub struct BoundedRead {
    max: usize,
    data: Vec<u8>,
    done: bool,
}

/// A bounded read as contracts speak of it.
pub struct BoundedReadView {
    pub max: nat,
    pub data: Seq<u8>,
    pub done: bool,
}

impl BoundedReadView {
    /// How many bytes are still missing to the bound.
    pub open spec fn room(self) -> nat {
        if self.data.len() <= self.max {
            (self.max - self.data.len()) as nat
        } else {
            0
        }
    }

    /// The state after one read gave `chunk`. As much of the chunk as there
    /// is room for is kept. The reading is over when the read gave nothing,
    /// which is the end of the stream, or when the bound is reached.
    pub open spec fn accepted(self, chunk: Seq<u8>) -> BoundedReadView {
        if self.done {
            self
        } else {
            BoundedReadView {
                max: self.max,
                data: self.data + chunk.take(if chunk.len() <= self.room() {
                    chunk.len() as int
                } else {
                    self.room() as int
                }),
                done: chunk.len() == 0 || chunk.len() >= self.room(),
            }
        }
    }
}

impl View for BoundedRead {
    type V = BoundedReadView;

    closed spec fn view(&self) -> BoundedReadView {
        BoundedReadView { max: self.max as nat, data: self.data@, done: self.done }
    }
}

impl BoundedRead {
    #[verifier::type_invariant]
    spec fn within_bound(self) -> bool {
        self.data@.len() <= self.max
    }

    /// A read of at most `max` bytes that has gathered nothing yet.
    pub fn new(max: usize) -> (reader: BoundedRead)
        ensures
            reader@ == (BoundedReadView { max: max as nat, data: Seq::empty(), done: false }),
    {
        BoundedRead { max, data: Vec::new(), done: false }
    }

    /// The size of the buffer for the next read: what is missing to the
    /// bound.
    pub fn wanted(&self) -> (n: usize)
        ensures
            n == self@.room(),
            self@.data.len() + n == self@.max,
    {
        proof {
            use_type_invariant(self);
        }
        self.max - self.data.len()
    }

    /// Whether the reading is over.
    pub fn is_done(&self) -> (done: bool)
        ensures
            done == self@.done,
    {
        self.done
    }

    /// Takes what one read gave and says whether the reading is over.
    pub fn accept(&mut self, chunk: &[u8]) -> (done: bool)
        ensures
            final(self)@ == old(self)@.accepted(chunk@),
            done == final(self)@.done,
    {
        proof {
            use_type_invariant(&*self);
        }
        if self.done {
            return true;
        }
        let room: usize = self.max - self.data.len();
        let kept: usize = if chunk.len() <= room {
            chunk.len()
        } else {
            room
        };
        let mut data: Vec<u8> = Vec::new();
        std::mem::swap(&mut self.data, &mut data);
        append(&mut data, slice_subrange(chunk, 0, kept));
        self.data = data;
        self.done = chunk.len() == 0 || chunk.len() >= room;
        self.done
    }

    /// The bytes that were gathered.
    pub fn into_bytes(self) -> (data: Vec<u8>)
        ensures
            data@ == self@.data,
            data@.len() <= self@.max,
    {
        proof {
            use_type_invariant(&self);
        }
        self.data
    }
}

/// The state after the reads gave `chunks`, one after the other.
pub open spec fn after_reads(max: nat, chunks: Seq<Seq<u8>>) -> BoundedReadView
    decreases chunks.len(),
{
    if chunks.len() == 0 {
        BoundedReadView { max, data: Seq::empty(), done: false }
    } else {
        after_reads(max, chunks.drop_last()).accepted(chunks.last())
    }
}

/// While the reading is not over, everything that was read has been kept,
/// and it is within the bound.
pub proof fn lemma_reads_kept_whole(max: nat, chunks: Seq<Seq<u8>>)
    requires
        !after_reads(max, chunks).done,
    ensures
        after_reads(max, chunks).max == max,
        after_reads(max, chunks).data == chunks.flatten(),
        chunks.flatten().len() <= max,
    decreases chunks.len(),
{
    if chunks.len() == 0 {
        assert(chunks.flatten() =~= Seq::<u8>::empty());
    } else {
        let earlier = chunks.drop_last();
        lemma_reads_kept_whole(max, earlier);
        assert(chunks =~= earlier.push(chunks.last()));
        earlier.lemma_flatten_push(chunks.last());
        assert(chunks.last().take(chunks.last().len() as int) =~= chunks.last());
    }
}

/// When a reading ends with its last read, what it has gathered is what
/// all the reads gave, one after the other, cut off at the bound: its
/// length is the number of bytes read or the bound, whichever is less.
pub proof fn lemma_reads_gathered(max: nat, chunks: Seq<Seq<u8>>)
    requires
        chunks.len() > 0,
        !after_reads(max, chunks.drop_last()).done,
    ensures
        after_reads(max, chunks).data == chunks.flatten().take(
            if chunks.flatten().len() <= max {
                chunks.flatten().len() as int
            } else {
                max as int
            },
        ),
        after_reads(max, chunks).done <==> (chunks.last().len() == 0 || chunks.flatten().len()
            >= max),
{
    let earlier = chunks.drop_last();
    lemma_reads_kept_whole(max, earlier);
    assert(chunks =~= earlier.push(chunks.last()));
    earlier.lemma_flatten_push(chunks.last());
    let all = chunks.flatten();
    let kept = if all.len() <= max {
        all.len() as int
    } else {
        max as int
    };
    assert(after_reads(max, chunks).data =~= all.take(kept));
}

/// After a read, the number of bytes gathered is the number of bytes read
/// so far or the bound, whichever is less.
pub proof fn lemma_accepted_length(reader: BoundedReadView, chunk: Seq<u8>)
    requires
        !reader.done,
        reader.data.len() <= reader.max,
    ensures
        reader.accepted(chunk).data.len() == if reader.data.len() + chunk.len() <= reader.max {
            reader.data.len() + chunk.len()
        } else {
            reader.max
        },
        reader.accepted(chunk).done <==> (chunk.len() == 0 || reader.data.len() + chunk.len()
            >= reader.max),
{
}

} // verus!
