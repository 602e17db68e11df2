//! The loop that repeats a unit, puts the delimiter in between and hands
//! the result out in chunks.

use vstd::prelude::*;
use crate::error::AppError;
use crate::source::{
    append, lemma_second_answer_repeats_first, Extracted, Fetch, InputData, InputDataView, Outcome,
};

verus! {

/// The buffer is handed out for writing as soon as it holds this many bytes.
pub const FLUSH_THRESHOLD: usize = 4096;

/// What the caller has to do before it takes the next step.
#[derive(Debug, PartialEq, Eq)]
pub enum Action {
    /// Make this read and supply what it gave to the source.
    Read(Fetch),
    /// Write these bytes to the output.
    Write(Vec<u8>),
    /// Nothing: everything has been handed out.
    Done,
}

/// The units with the delimiter between each two of them, and none behind
/// the last.
pub open spec fn joined(units: Seq<Seq<u8>>, delimiter: Seq<u8>) -> Seq<u8>
    decreases units.len(),
{
    if units.len() == 0 {
        Seq::empty()
    } else if units.len() == 1 {
        units[0]
    } else {
        joined(units.drop_last(), delimiter) + delimiter + units.last()
    }
}

/// What has been generated when `units` of `count` units were taken: the
/// units joined, and one more delimiter as long as a unit is still to come.
pub open spec fn emitted(units: Seq<Seq<u8>>, delimiter: Seq<u8>, count: nat) -> Seq<u8> {
    if 0 < units.len() < count {
        joined(units, delimiter) + delimiter
    } else {
        joined(units, delimiter)
    }
}

/// Taking one more unit appends it, and the delimiter if it is not the last.
pub proof fn lemma_emitted_push(units: Seq<Seq<u8>>, unit: Seq<u8>, delimiter: Seq<u8>, count: nat)
    requires
        units.len() < count,
    ensures
        emitted(units.push(unit), delimiter, count) == emitted(units, delimiter, count) + unit + (if units.len()
            + 1 < count {
            delimiter
        } else {
            Seq::empty()
        }),
{
    let more = units.push(unit);
    assert(more.drop_last() =~= units);
    assert(more.last() == unit);
    if units.len() == 0 {
        assert(joined(more, delimiter) =~= unit);
        assert(joined(units, delimiter) =~= Seq::<u8>::empty());
    } else {
        assert(joined(more, delimiter) =~= joined(units, delimiter) + delimiter + unit);
    }
    assert(emitted(more, delimiter, count) =~= emitted(units, delimiter, count) + unit + (if units.len()
        + 1 < count {
        delimiter
    } else {
        Seq::empty()
    }));
}

/// What has been generated never gets shorter as more units are taken.
pub proof fn lemma_emitted_grows(
    units: Seq<Seq<u8>>,
    delimiter: Seq<u8>,
    count: nat,
    fewer: int,
    more: int,
)
    requires
        0 <= fewer <= more <= units.len() <= count,
    ensures
        emitted(units.take(fewer), delimiter, count).len() <= emitted(
            units.take(more),
            delimiter,
            count,
        ).len(),
    decreases more - fewer,
{
    if fewer < more {
        lemma_emitted_grows(units, delimiter, count, fewer, more - 1);
        let shorter = units.take(more - 1);
        assert(units.take(more) =~= shorter.push(units[more - 1]));
        lemma_emitted_push(shorter, units[more - 1], delimiter, count);
    }
}

impl InputDataView {
    /// `unit` is what this source gives when it is asked for one byte: any
    /// one byte if it is random, else the bytes that it resolves to.
    pub open spec fn yields(self, unit: Seq<u8>) -> bool {
        if self.is_random {
            unit.len() == 1
        } else {
            self.outcome() == Outcome::Bytes(unit)
        }
    }

    /// The source cannot give a unit now: it is not random, and its input
    /// fails to resolve or waits for a read.
    pub open spec fn stuck(self) -> bool {
        !self.is_random && !(self.outcome() is Bytes)
    }
}

/// The state of a run: the delimiter, the number of units to take, the
/// number taken, and the bytes that wait for the next write. For the sake
/// of its contracts it also records every unit taken, every chunk handed
/// out, and how many units had been taken when each chunk was handed out.
pub struct Generator {
    delimiter: Vec<u8>,
    count: u64,
    index: u64,
    buf: Vec<u8>,
    units: Ghost<Seq<Seq<u8>>>,
    writes: Ghost<Seq<Seq<u8>>>,
    ends: Ghost<Seq<int>>,
}

impl Generator {
    /// The delimiter.
    pub closed spec fn delimiter(&self) -> Seq<u8> {
        self.delimiter@
    }

    /// The number of units to take.
    pub closed spec fn count(&self) -> nat {
        self.count as nat
    }

    /// The number of units taken so far.
    pub closed spec fn taken(&self) -> nat {
        self.index as nat
    }

    /// The units taken so far, in order.
    pub closed spec fn units(&self) -> Seq<Seq<u8>> {
        self.units@
    }

    /// The chunks handed out for writing so far, in order.
    pub closed spec fn writes(&self) -> Seq<Seq<u8>> {
        self.writes@
    }

    /// For each chunk, the number of units that had been taken when it was
    /// handed out.
    pub closed spec fn ends(&self) -> Seq<int> {
        self.ends@
    }

    /// The bytes generated and not yet handed out.
    pub closed spec fn buffered(&self) -> Seq<u8> {
        self.buf@
    }

    /// The bytes of the first `chunks` chunks, one after the other.
    pub open spec fn handed(&self, chunks: int) -> Seq<u8> {
        self.writes().take(chunks).flatten()
    }

    /// What had been generated when `taken` units were taken.
    pub open spec fn generated(&self, taken: int) -> Seq<u8> {
        emitted(self.units().take(taken), self.delimiter(), self.count())
    }

    /// Every unit has been taken and every byte handed out.
    pub open spec fn finished(&self) -> bool {
        self.taken() == self.count() && self.buffered().len() == 0
    }

    /// Chunk `j` ends behind a unit and its delimiter, with which the buffer
    /// reached the threshold and without which it was below. Only the last
    /// chunk of a finished run may be shorter: it holds what was left.
    pub open spec fn chunk_ends_well(&self, j: int) -> bool {
        let end = self.ends()[j];
        &&& 1 <= end <= self.units().len()
        &&& self.handed(j + 1) == self.generated(end)
        &&& self.generated(end - 1).len() < self.handed(j).len() + FLUSH_THRESHOLD
        &&& self.writes()[j].len() > 0
        &&& self.writes()[j].len() >= FLUSH_THRESHOLD || (j == self.writes().len() - 1
            && self.finished())
    }

    /// All that holds between two steps but the bound on the buffer: it
    /// also holds while a unit has been appended and the buffer not yet
    /// handed out.
    pub open spec fn gathering(&self) -> bool {
        &&& self.taken() == self.units().len()
        &&& self.taken() <= self.count()
        &&& self.ends().len() == self.writes().len()
        &&& self.writes().flatten() + self.buffered() == emitted(
            self.units(),
            self.delimiter(),
            self.count(),
        )
        &&& forall|j: int| 0 <= j < self.writes().len() ==> #[trigger] self.chunk_ends_well(j)
    }

    /// What holds between two steps. The chunks handed out and the bytes
    /// still buffered are, together, exactly what has been generated; the
    /// buffer is below the threshold; and every chunk ends well.
    pub open spec fn well_formed(&self) -> bool {
        &&& self.gathering()
        &&& self.buffered().len() < FLUSH_THRESHOLD
    }

    /// A run that has taken nothing yet.
    pub fn new(delimiter: Vec<u8>, count: u64) -> (generator: Generator)
        ensures
            generator.well_formed(),
            generator.delimiter() == delimiter@,
            generator.count() == count,
            generator.units() == Seq::<Seq<u8>>::empty(),
            generator.writes() == Seq::<Seq<u8>>::empty(),
            generator.buffered() == Seq::<u8>::empty(),
    {
        let generator = Generator {
            delimiter,
            count,
            index: 0,
            buf: Vec::with_capacity(FLUSH_THRESHOLD),
            units: Ghost(Seq::empty()),
            writes: Ghost(Seq::empty()),
            ends: Ghost(Seq::empty()),
        };
        assert(generator.writes().flatten() + generator.buffered() =~= Seq::<u8>::empty());
        generator
    }

    /// Whether everything has been taken and handed out.
    pub fn is_finished(&self) -> (finished: bool)
        ensures
            finished == self.finished(),
    {
        self.index == self.count && self.buf.len() == 0
    }

    /// Appends one unit, and the delimiter if another unit is to follow.
    fn take_unit(&mut self, unit: &Vec<u8>)
        requires
            old(self).well_formed(),
            old(self).taken() < old(self).count(),
        ensures
            final(self).gathering(),
            final(self).delimiter() == old(self).delimiter(),
            final(self).count() == old(self).count(),
            final(self).units() == old(self).units().push(unit@),
            final(self).writes() == old(self).writes(),
            final(self).buffered().len() < FLUSH_THRESHOLD + unit@.len() + final(self).delimiter().len(),
            final(self).generated(final(self).units().len() - 1).len() < final(self).writes().flatten().len()
                + FLUSH_THRESHOLD,
    {
        append(&mut self.buf, unit.as_slice());
        if self.index + 1 < self.count {
            append(&mut self.buf, self.delimiter.as_slice());
        }
        self.index = self.index + 1;
        proof {
            self.units = Ghost(self.units@.push(unit@));
            let before = *old(self);
            lemma_emitted_push(before.units(), unit@, before.delimiter(), before.count());
            assert(self.writes().flatten() + self.buffered() =~= emitted(
                self.units(),
                self.delimiter(),
                self.count(),
            ));
            assert forall|j: int| 0 <= j < self.writes().len() implies #[trigger] self.chunk_ends_well(
                j,
            ) by {
                assert(before.chunk_ends_well(j));
                let end = self.ends()[j];
                assert(self.units().take(end) =~= before.units().take(end));
                assert(self.units().take(end - 1) =~= before.units().take(end - 1));
            }
            assert(self.units().take(self.units().len() - 1) =~= before.units());
            assert((before.writes().flatten() + before.buffered()).len() == before.writes().flatten().len()
                + before.buffered().len());
        }
    }

    /// Moves the buffer out as the next chunk.
    fn flush(&mut self) -> (chunk: Vec<u8>)
        requires
            old(self).gathering(),
            old(self).buffered().len() > 0,
            old(self).buffered().len() >= FLUSH_THRESHOLD || old(self).taken() == old(self).count(),
            old(self).generated(old(self).units().len() - 1).len() < old(self).writes().flatten().len()
                + FLUSH_THRESHOLD,
            forall|j: int|
                0 <= j < old(self).writes().len() ==> (#[trigger] old(self).writes()[j]).len()
                    >= FLUSH_THRESHOLD,
        ensures
            final(self).well_formed(),
            chunk@ == old(self).buffered(),
            final(self).buffered() == Seq::<u8>::empty(),
            final(self).writes() == old(self).writes().push(chunk@),
            final(self).units() == old(self).units(),
            final(self).delimiter() == old(self).delimiter(),
            final(self).count() == old(self).count(),
    {
        let mut chunk: Vec<u8> = Vec::new();
        std::mem::swap(&mut self.buf, &mut chunk);
        proof {
            let before = *old(self);
            self.writes = Ghost(before.writes().push(chunk@));
            self.ends = Ghost(before.ends().push(before.units().len() as int));
            let chunks = before.writes().len() as int;
            before.writes().lemma_flatten_push(chunk@);
            assert(self.writes().flatten() + self.buffered() =~= before.writes().flatten()
                + before.buffered());
            if before.units().len() == 0 {
                assert(joined(before.units(), before.delimiter()) =~= Seq::<u8>::empty());
                assert((before.writes().flatten() + before.buffered()).len() == 0);
            }
            assert forall|j: int| 0 <= j < self.writes().len() implies #[trigger] self.chunk_ends_well(
                j,
            ) by {
                if j < chunks {
                    assert(before.chunk_ends_well(j));
                    assert(self.writes().take(j + 1) =~= before.writes().take(j + 1));
                    assert(self.writes().take(j) =~= before.writes().take(j));
                    assert(self.writes()[j] == before.writes()[j]);
                } else {
                    assert(self.writes().take(j + 1) =~= self.writes());
                    assert(self.writes().take(j) =~= before.writes());
                    assert(self.units().take(self.units().len() as int) =~= self.units());
                    assert(self.writes().flatten() =~= emitted(
                        self.units(),
                        self.delimiter(),
                        self.count(),
                    ));
                }
            }
        }
        chunk
    }

    /// Runs until the caller has something to do, and says what.
    ///
    /// Units are taken from the source, one byte being asked of it each time,
    /// and appended to the buffer, each but the last followed by the
    /// delimiter. When the buffer has reached the threshold after a unit, it
    /// is handed out whole. When all units are taken, what is left in the
    /// buffer is handed out, and after that the run is done. A source that
    /// waits for a read or fails stops the step before anything is taken.
    pub fn step(&mut self, source: &mut InputData) -> (r: Result<Action, AppError>)
        requires
            old(self).well_formed(),
        ensures
            final(self).well_formed(),
            final(self).delimiter() == old(self).delimiter(),
            final(self).count() == old(self).count(),
            old(self).units().is_prefix_of(final(self).units()),
            forall|k: int|
                old(self).units().len() <= k < final(self).units().len() ==> old(source)@.yields(
                    #[trigger] final(self).units()[k],
                ),
            final(source)@ == if old(self).taken() < old(self).count() && !old(source)@.is_random {
                old(source)@.settled()
            } else {
                old(source)@
            },
            old(self).finished() ==> (r matches Ok(Action::Done) && final(self).units() == old(
                self,
            ).units()),
            old(self).taken() < old(self).count() && old(source)@.stuck() ==> {
                &&& final(self).units() == old(self).units()
                &&& final(self).writes() == old(self).writes()
                &&& final(self).buffered() == old(self).buffered()
                &&& match r {
                    Ok(Action::Read(fetch)) => old(source)@.outcome() == Outcome::Pending(fetch),
                    Err(e) => old(source)@.outcome() == Outcome::Failed(e),
                    _ => false,
                }
            },
            !(old(self).taken() < old(self).count() && old(source)@.stuck()) ==> match r {
                Ok(Action::Write(chunk)) => {
                    &&& final(self).writes() == old(self).writes().push(chunk@)
                    &&& final(self).buffered() == Seq::<u8>::empty()
                    &&& final(self).units().len() > 0
                    &&& chunk@.len() < FLUSH_THRESHOLD + final(self).units().last().len()
                        + final(self).delimiter().len()
                },
                Ok(Action::Done) => final(self).finished() && final(self).writes() == old(
                    self,
                ).writes(),
                _ => false,
            },
    {
        let ghost start = *self;
        let ghost before = source@;
        while self.index < self.count
            invariant
                start == *old(self),
                start.well_formed(),
                before == old(source)@,
                self.well_formed(),
                self.delimiter() == start.delimiter(),
                self.count() == start.count(),
                self.writes() == start.writes(),
                start.units().is_prefix_of(self.units()),
                forall|k: int|
                    start.units().len() <= k < self.units().len() ==> before.yields(
                        #[trigger] self.units()[k],
                    ),
                self.units().len() > start.units().len() ==> !before.stuck(),
                self.units().len() == start.units().len() ==> self.units() == start.units()
                    && self.buffered() == start.buffered(),
                source@ == if self.units().len() > start.units().len() && !before.is_random {
                    before.settled()
                } else {
                    before
                },
            decreases self.count - self.index,
        {
            proof {
                if !before.is_random {
                    lemma_second_answer_repeats_first(before);
                }
                self.lemma_unfinished_chunks_are_full();
            }
            match source.get_bytes(1) {
                Err(e) => {
                    return Err(e);
                },
                Ok(Extracted::Pending(fetch)) => {
                    return Ok(Action::Read(fetch));
                },
                Ok(Extracted::Bytes(unit)) => {
                    self.take_unit(&unit);
                    if self.buf.len() >= FLUSH_THRESHOLD {
                        let chunk = self.flush();
                        return Ok(Action::Write(chunk));
                    }
                },
            }
        }
        if self.buf.len() != 0 {
            proof {
                self.lemma_unfinished_chunks_are_full();
                let taken = self.units().len() as int;
                if taken == 0 {
                    assert(joined(self.units(), self.delimiter()) =~= Seq::<u8>::empty());
                    assert((self.writes().flatten() + self.buffered()).len() == 0);
                }
                lemma_emitted_grows(self.units(), self.delimiter(), self.count(), taken - 1, taken);
                assert(self.units().take(taken) =~= self.units());
                assert((self.writes().flatten() + self.buffered()).len() == self.writes().flatten().len()
                    + self.buffered().len());
            }
            let chunk = self.flush();
            return Ok(Action::Write(chunk));
        }
        Ok(Action::Done)
    }

    /// As long as a run is not finished, every chunk has reached the
    /// threshold.
    pub proof fn lemma_unfinished_chunks_are_full(self)
        requires
            self.gathering(),
            !self.finished(),
        ensures
            forall|j: int|
                0 <= j < self.writes().len() ==> (#[trigger] self.writes()[j]).len() >= FLUSH_THRESHOLD,
    {
        assert forall|j: int| 0 <= j < self.writes().len() implies (#[trigger] self.writes()[j]).len()
            >= FLUSH_THRESHOLD by {
            assert(self.chunk_ends_well(j));
        }
    }

    /// The first chunks and the next one are, together, the first chunks
    /// and one more.
    pub proof fn lemma_handed_next(self, chunks: int)
        requires
            0 <= chunks < self.writes().len(),
        ensures
            self.handed(chunks + 1) == self.handed(chunks) + self.writes()[chunks],
    {
        let first = self.writes().take(chunks);
        assert(self.writes().take(chunks + 1) =~= first.push(self.writes()[chunks]));
        first.lemma_flatten_push(self.writes()[chunks]);
    }
}

/// When a run is finished, all units have been taken, and the chunks handed
/// out are, one after the other, the units with the delimiter between each
/// two of them and none behind the last.
pub proof fn lemma_finished_output(generator: Generator)
    requires
        generator.well_formed(),
        generator.finished(),
    ensures
        generator.units().len() == generator.count(),
        generator.writes().flatten() == joined(generator.units(), generator.delimiter()),
{
    assert(generator.writes().flatten() + generator.buffered() =~= generator.writes().flatten());
}

/// A run of no units is finished from the start: it takes nothing and
/// hands nothing out.
pub proof fn lemma_zero_count_writes_nothing(generator: Generator)
    requires
        generator.well_formed(),
        generator.count() == 0,
    ensures
        generator.finished(),
        generator.units().len() == 0,
        generator.writes().len() == 0,
{
    assert(generator.units() =~= Seq::<Seq<u8>>::empty());
    assert(joined(generator.units(), generator.delimiter()) =~= Seq::<u8>::empty());
    assert((generator.writes().flatten() + generator.buffered()).len() == 0);
    if generator.writes().len() > 0 {
        assert(generator.chunk_ends_well(0));
    }
}

/// A finished run has handed out two chunks or more exactly if, behind
/// some unit and its delimiter, the output had reached the threshold and
/// was not yet complete.
pub proof fn lemma_several_writes(generator: Generator)
    requires
        generator.well_formed(),
        generator.finished(),
    ensures
        generator.writes().len() >= 2 <==> exists|taken: int|
            0 <= taken <= generator.units().len() && FLUSH_THRESHOLD <= (
            #[trigger] generator.generated(taken)).len() < joined(
                generator.units(),
                generator.delimiter(),
            ).len(),
{
    lemma_finished_output(generator);
    let units = generator.units();
    let writes = generator.writes();
    let all = units.len() as int;
    assert(units.take(all) =~= units);
    assert(writes.take(writes.len() as int) =~= writes);
    if writes.len() >= 2 {
        assert(generator.chunk_ends_well(0));
        assert(generator.chunk_ends_well(1));
        let first = generator.ends()[0];
        let second = generator.ends()[1];
        generator.lemma_handed_next(0);
        generator.lemma_handed_next(1);
        assert(writes.take(0).flatten() =~= Seq::<u8>::empty());
        lemma_emitted_grows(units, generator.delimiter(), generator.count(), second, all);
        assert(FLUSH_THRESHOLD <= generator.generated(first).len() < joined(
            units,
            generator.delimiter(),
        ).len());
    } else {
        assert forall|taken: int| 0 <= taken <= units.len() implies !(FLUSH_THRESHOLD <= (
        #[trigger] generator.generated(taken)).len() < joined(units, generator.delimiter()).len()) by {
            if writes.len() == 1 {
                assert(generator.chunk_ends_well(0));
                let end = generator.ends()[0];
                assert(writes.take(0).flatten() =~= Seq::<u8>::empty());
                if taken < end {
                    lemma_emitted_grows(
                        units,
                        generator.delimiter(),
                        generator.count(),
                        taken,
                        end - 1,
                    );
                } else {
                    lemma_emitted_grows(units, generator.delimiter(), generator.count(), end, taken);
                }
            } else {
                assert(writes =~= Seq::<Seq<u8>>::empty());
                lemma_emitted_grows(units, generator.delimiter(), generator.count(), taken, all);
            }
        }
    }
}

/// Output that has reached the threshold before its last unit, and whose
/// last unit is not empty, goes out in two chunks or more. Where the units
/// are one byte long, as those of a random source are, this is all output
/// of more than the threshold.
pub proof fn lemma_large_output_takes_several_writes(generator: Generator)
    requires
        generator.well_formed(),
        generator.finished(),
        generator.units().len() > 0,
        generator.units().last().len() > 0,
        joined(generator.units(), generator.delimiter()).len() >= FLUSH_THRESHOLD
            + generator.units().last().len(),
    ensures
        generator.writes().len() >= 2,
{
    let units = generator.units();
    let before_last = units.len() - 1;
    assert(units =~= units.take(before_last).push(units.last()));
    lemma_emitted_push(
        units.take(before_last),
        units.last(),
        generator.delimiter(),
        generator.count(),
    );
    assert(generator.generated(before_last).len() + units.last().len() == joined(
        units,
        generator.delimiter(),
    ).len());
    lemma_several_writes(generator);
}

} // verus!
