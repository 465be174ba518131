//! The delayed path from an input device to an output device.
//!
//! The input device's callback hands batches of samples to the bridge, the
//! output device's callback asks it for batches. Between them lies an
//! [`AudioRing`] that starts with one latency of silence, so that what comes
//! out is what went in, one latency later.

use crate::ring::{
    after_pops, after_pushes, lemma_pops, pops, silence, without_oldest, AudioRing, RingError,
    RingReader, RingWriter, SILENCE,
};
use vstd::prelude::*;

verus! {

/// The latency in frames: `latency_ms` thousandths of `sample_rate`, rounded
/// to the nearest whole, halves upwards.
pub open spec fn latency_frames(latency_ms: nat, sample_rate: nat) -> nat {
    (latency_ms * sample_rate + 500) / 1000
}

/// The latency in samples: one sample for each channel of each frame.
pub open spec fn latency_samples(latency_ms: nat, sample_rate: nat, channels: nat) -> nat {
    latency_frames(latency_ms, sample_rate) * channels
}

/// [`latency_samples`] of the numbers that describe a stream.
pub open spec fn wanted(latency_ms: u32, sample_rate: u32, channels: u16) -> nat {
    latency_samples(latency_ms as nat, sample_rate as nat, channels as nat)
}

/// What a ring of capacity `limit` holds after a batch came in: the samples
/// that found room are appended, in order; the rest of the batch is lost.
pub open spec fn after_input(samples: Seq<u32>, limit: nat, batch: Seq<u32>) -> Seq<u32> {
    if samples.len() + batch.len() <= limit {
        samples + batch
    } else {
        samples + batch.take(limit - samples.len())
    }
}

/// The batch that goes out when `count` samples are asked for: the oldest
/// samples in order, then silence where the ring has run dry.
pub open spec fn output(samples: Seq<u32>, count: nat) -> Seq<u32> {
    Seq::new(
        count,
        |i: int|
            if i < samples.len() {
                samples[i]
            } else {
                SILENCE
            },
    )
}

/// The room that the input end knows of after `count` samples came in.
pub open spec fn room_after_input(room: nat, count: nat) -> nat {
    if count <= room {
        (room - count) as nat
    } else {
        0
    }
}

/// What a ring holds after `count` samples were asked of it.
pub open spec fn after_output(samples: Seq<u32>, count: nat) -> Seq<u32> {
    without_oldest(samples, count)
}

/// The samples of a batch that were stored, in order, where `kept` says of
/// each sample whether it was.
pub open spec fn stored(batch: Seq<u32>, kept: Seq<bool>) -> Seq<u32>
    recommends
        kept.len() == batch.len(),
    decreases batch.len(),
{
    if batch.len() == 0 {
        Seq::empty()
    } else if kept.last() {
        stored(batch.drop_last(), kept.drop_last()).push(batch.last())
    } else {
        stored(batch.drop_last(), kept.drop_last())
    }
}

/// How a batch went into the ring through its writing end: each sample was
/// offered in its turn, `kept` says which were stored, those are what went
/// in, and the stream fell behind exactly where one was not.
pub open spec fn input_went(
    before: Seq<u32>,
    after: Seq<u32>,
    batch: Seq<u32>,
    fell_behind: bool,
    kept: Seq<bool>,
) -> bool {
    &&& kept.len() == batch.len()
    &&& after == before + stored(batch, kept)
    &&& fell_behind <==> kept.contains(false)
}

/// The samples among what a row of pops gave, in order.
pub open spec fn samples_of(gave: Seq<Option<u32>>) -> Seq<u32>
    decreases gave.len(),
{
    if gave.len() == 0 {
        Seq::empty()
    } else if gave.last() is Some {
        samples_of(gave.drop_last()).push(gave.last()->Some_0)
    } else {
        samples_of(gave.drop_last())
    }
}

/// The batch that goes out for what a row of pops gave: each sample in its
/// slot, and silence in the slot of a pop that gave none.
pub open spec fn slots(gave: Seq<Option<u32>>) -> Seq<u32> {
    Seq::new(gave.len(), |i: int| filled(gave[i]).0)
}

/// How a batch came out of the ring through its reading end: the ring was
/// asked once for each slot, `gave` is what it gave, the batch is made of
/// that, the samples given are what came out, and the stream fell behind
/// exactly where none was given.
pub open spec fn output_came(
    before: Seq<u32>,
    after: Seq<u32>,
    batch: Seq<u32>,
    fell_behind: bool,
    gave: Seq<Option<u32>>,
) -> bool {
    &&& gave.len() == batch.len()
    &&& batch == slots(gave)
    &&& after == before + samples_of(gave)
    &&& fell_behind <==> gave.contains(None)
}

/// The stream that cannot keep up with the other.
#[derive(Debug, Clone, Copy, PartialEq, Eq)]
pub enum Lagging {
    /// The input stream delivers fewer samples than the output stream asks for.
    Input,
    /// The output stream takes fewer samples than the input stream delivers.
    Output,
}

/// The line that tells the user which stream fell behind.
pub fn lag_notice(lagging: Lagging) -> (notice: &'static str)
    ensures
        lagging == Lagging::Input ==> notice@ == "input stream fell behind: try increasing latency"@,
        lagging == Lagging::Output ==> notice@
            == "output stream fell behind: try increasing latency"@,
{
    match lagging {
        Lagging::Input => "input stream fell behind: try increasing latency",
        Lagging::Output => "output stream fell behind: try increasing latency",
    }
}

/// The sample that goes out for what one pop gave, and whether it gave none.
pub open spec fn filled(popped: Option<u32>) -> (u32, bool) {
    match popped {
        Some(sample) => (sample, false),
        None => (SILENCE, true),
    }
}

/// The sample that goes out for one request, and whether the ring had none.
pub fn sample_or_silence(popped: Option<u32>) -> (slot: (u32, bool))
    ensures
        slot == filled(popped),
{
    match popped {
        Some(sample) => (sample, false),
        None => (SILENCE, true),
    }
}

/// Computes [`latency_samples`] without loss.
pub fn latency_in_samples(latency_ms: u32, sample_rate: u32, channels: u16) -> (samples: u128)
    ensures
        samples == wanted(latency_ms, sample_rate, channels),
{
    assert(latency_ms as u64 * sample_rate as u64 <= 0xffff_ffff * 0xffff_ffff) by (nonlinear_arith)
        requires
            latency_ms as u64 <= 0xffff_ffff,
            sample_rate as u64 <= 0xffff_ffff,
    ;
    let frames: u64 = (latency_ms as u64 * sample_rate as u64 + 500) / 1000;
    assert(frames as u128 * channels as u128 <= 0xffff_ffff_ffff_ffff * 0xffff) by (nonlinear_arith)
        requires
            frames as u128 <= 0xffff_ffff_ffff_ffff,
            channels as u128 <= 0xffff,
    ;
    frames as u128 * channels as u128
}

/// The bridge while one owner holds both of its ends.
pub struct FeedbackBridge {
    ring: AudioRing,
}

impl View for FeedbackBridge {
    type V = Seq<u32>;

    /// The samples on their way from input to output, oldest first.
    closed spec fn view(&self) -> Seq<u32> {
        self.ring@
    }
}

impl FeedbackBridge {
    /// The ring is well formed.
    pub closed spec fn wf(&self) -> bool {
        self.ring.wf()
    }

    /// The latency of the bridge, in samples.
    pub closed spec fn delay(&self) -> nat {
        self.ring.delay()
    }

    /// The number of samples that can be on their way at once.
    pub closed spec fn limit(&self) -> nat {
        self.ring.limit()
    }

    /// Twice the latency can be on its way, and never more is.
    pub proof fn law_capacity_is_twice_latency(&self)
        requires
            self.wf(),
        ensures
            self@.len() <= self.limit(),
            self.limit() == 2 * self.delay(),
            self.delay() > 0,
    {
        self.ring.law_capacity_is_twice_latency();
    }

    /// A bridge for an input stream of `sample_rate` frames a second with
    /// `channels` samples to the frame, which delays by `latency_ms`
    /// milliseconds. It starts with that much silence on its way.
    pub fn new(
        latency_ms: u32,
        sample_rate: u32,
        channels: u16,
    ) -> (made: Result<FeedbackBridge, RingError>)
        ensures
            wanted(latency_ms, sample_rate, channels) == 0 <==> made is Err && made->Err_0
                == RingError::NoLatency,
            2 * wanted(latency_ms, sample_rate, channels) > usize::MAX <==> made is Err
                && made->Err_0 == RingError::TooLong,
            made is Ok ==> made->Ok_0.wf(),
            made is Ok ==> made->Ok_0.delay() == wanted(latency_ms, sample_rate, channels),
            made is Ok ==> made->Ok_0@ == silence(made->Ok_0.delay()),
    {
        let samples: u128 = latency_in_samples(latency_ms, sample_rate, channels);
        if samples > (usize::MAX / 2) as u128 {
            return Err(RingError::TooLong);
        }
        match AudioRing::new(samples as usize) {
            Ok(ring) => Ok(FeedbackBridge { ring }),
            Err(error) => Err(error),
        }
    }

    /// The latency of the bridge, in samples.
    pub fn latency_samples(&self) -> (latency: usize)
        ensures
            latency == self.delay(),
    {
        self.ring.latency_samples()
    }

    /// The number of samples on their way.
    pub fn buffered(&self) -> (held: usize)
        requires
            self.wf(),
        ensures
            held == self@.len(),
    {
        self.ring.len()
    }

    /// Takes in a batch from the input stream. Samples that find no room are
    /// lost, and the result says whether any was: then the output stream has
    /// fallen behind.
    pub fn relay_input(&mut self, batch: &[u32]) -> (fell_behind: bool)
        requires
            old(self).wf(),
        ensures
            final(self).wf(),
            final(self).delay() == old(self).delay(),
            final(self).limit() == old(self).limit(),
            final(self)@ == after_input(old(self)@, old(self).limit(), batch@),
            fell_behind <==> old(self)@.len() + batch@.len() > old(self).limit(),
    {
        let mut fell_behind = false;
        let mut taken: usize = 0;
        proof {
            self.ring.law_capacity_is_twice_latency();
        }
        while taken < batch.len()
            invariant
                taken <= batch@.len(),
                self.ring.wf(),
                self.ring.delay() == old(self).ring.delay(),
                self.ring.limit() == old(self).ring.limit(),
                old(self)@.len() <= old(self).limit(),
                self.ring@ == after_input(old(self)@, old(self).limit(), batch@.take(taken as int)),
                fell_behind <==> old(self)@.len() + taken > old(self).limit(),
            decreases batch@.len() - taken,
        {
            if self.ring.push(batch[taken]).is_err() {
                fell_behind = true;
            }
            taken += 1;
        }
        fell_behind
    }

    /// Fills a batch for the output stream. Where the ring has run dry the
    /// batch is silent, and the result says whether it did: then the input
    /// stream has fallen behind.
    pub fn relay_output(&mut self, batch: &mut [u32]) -> (fell_behind: bool)
        requires
            old(self).wf(),
        ensures
            final(self).wf(),
            final(self).delay() == old(self).delay(),
            final(self).limit() == old(self).limit(),
            final(batch)@ == output(old(self)@, old(batch)@.len()),
            final(self)@ == after_output(old(self)@, old(batch)@.len()),
            fell_behind <==> old(batch)@.len() > old(self)@.len(),
    {
        let mut fell_behind = false;
        let mut given: usize = 0;
        let count: usize = batch.len();
        while given < count
            invariant
                given <= count,
                count == batch@.len(),
                count == old(batch)@.len(),
                self.ring.wf(),
                self.ring.delay() == old(self).ring.delay(),
                self.ring.limit() == old(self).ring.limit(),
                self.ring@ == after_output(old(self)@, given as nat),
                forall|i: int| 0 <= i < given ==> batch@[i] == output(old(self)@, count as nat)[i],
                fell_behind <==> given > old(self)@.len(),
            decreases count - given,
        {
            let (sample, missed) = sample_or_silence(self.ring.pop());
            batch[given] = sample;
            if missed {
                fell_behind = true;
            }
            given += 1;
        }
        fell_behind
    }

    /// Parts the bridge into the end for the input stream's thread and the
    /// end for the output stream's thread. The output end knows of every
    /// sample on its way, the input end of all the room that is left.
    pub fn split(self) -> (ends: (BridgeInput, BridgeOutput))
        requires
            self.wf(),
        ensures
            ends.0.room() == self.limit() - self@.len(),
            ends.0.sent() == Seq::<u32>::empty(),
            ends.1.known() == self@,
            ends.1.taken() == Seq::<u32>::empty(),
    {
        let (writer, reader) = self.ring.split();
        (BridgeInput { writer }, BridgeOutput { reader })
    }
}

/// The end of a bridge that the input stream's callback holds.
pub struct BridgeInput {
    writer: RingWriter,
}

impl BridgeInput {
    /// The number of samples that are sure to find room, whatever the output
    /// stream does: the room at the split, less what came in since.
    pub closed spec fn room(&self) -> nat {
        self.writer.room()
    }

    /// The samples that came in through this end and were stored, in their
    /// order.
    pub closed spec fn sent(&self) -> Seq<u32> {
        self.writer.sent()
    }

    /// Takes in a batch from the input stream: each of its samples is
    /// offered to the ring, in order, and is stored or lost. The result says
    /// whether any was lost. A batch that fits into the room known of loses
    /// none; beyond that it depends on how far the output stream has come.
    pub fn relay(&mut self, batch: &[u32]) -> (fell_behind: bool)
        ensures
            fell_behind ==> batch@.len() > old(self).room(),
            final(self).room() == room_after_input(old(self).room(), batch@.len()),
            exists|kept: Seq<bool>|
                input_went(old(self).sent(), final(self).sent(), batch@, fell_behind, kept),
            !fell_behind ==> final(self).sent() == old(self).sent() + batch@,
            fell_behind <==> final(self).sent().len() < old(self).sent().len() + batch@.len(),
    {
        let mut fell_behind = false;
        let mut taken: usize = 0;
        let ghost mut kept: Seq<bool> = Seq::empty();
        while taken < batch.len()
            invariant
                taken <= batch@.len(),
                fell_behind ==> taken > old(self).writer.room(),
                self.writer.room() == room_after_input(old(self).writer.room(), taken as nat),
                input_went(
                    old(self).writer.sent(),
                    self.writer.sent(),
                    batch@.take(taken as int),
                    fell_behind,
                    kept,
                ),
            decreases batch@.len() - taken,
        {
            let pushed = self.writer.push(batch[taken]);
            if pushed.is_err() {
                fell_behind = true;
            }
            proof {
                lemma_one_more_offered(batch@.take(taken + 1), kept.push(pushed is Ok));
                assert(batch@.take(taken + 1).drop_last() =~= batch@.take(taken as int));
                assert(kept.push(pushed is Ok).drop_last() =~= kept);
                kept = kept.push(pushed is Ok);
            }
            taken += 1;
        }
        proof {
            assert(batch@.take(taken as int) =~= batch@);
            assert(input_went(old(self).sent(), self.sent(), batch@, fell_behind, kept));
            lemma_stored(batch@, kept);
        }
        fell_behind
    }
}

/// The end of a bridge that the output stream's callback holds.
pub struct BridgeOutput {
    reader: RingReader,
}

impl BridgeOutput {
    /// The samples that are sure to go out next, oldest first, whatever the
    /// input stream does: those on their way at the split, less those that
    /// went out since.
    pub closed spec fn known(&self) -> Seq<u32> {
        self.reader.known()
    }

    /// The samples that the ring gave out through this end, in their order.
    pub closed spec fn taken(&self) -> Seq<u32> {
        self.reader.taken()
    }

    /// Fills a batch for the output stream: the ring is asked once for each
    /// slot, in order, and the slot takes the sample that it gave, or silence
    /// where it gave none. The result says whether it ever gave none. The
    /// samples known of go out first, in their order, and none of them is
    /// missed; beyond them it depends on how far the input stream has come.
    pub fn relay(&mut self, batch: &mut [u32]) -> (fell_behind: bool)
        ensures
            final(batch)@.len() == old(batch)@.len(),
            forall|i: int|
                0 <= i < old(batch)@.len() && i < old(self).known().len() ==> final(batch)@[i]
                    == old(self).known()[i],
            fell_behind ==> old(batch)@.len() > old(self).known().len(),
            final(self).known() == after_output(old(self).known(), old(batch)@.len()),
            exists|gave: Seq<Option<u32>>|
                output_came(old(self).taken(), final(self).taken(), final(batch)@, fell_behind, gave),
            !fell_behind ==> final(self).taken() == old(self).taken() + final(batch)@,
            fell_behind <==> final(self).taken().len() < old(self).taken().len()
                + old(batch)@.len(),
    {
        let mut fell_behind = false;
        let mut given: usize = 0;
        let count: usize = batch.len();
        let ghost mut gave: Seq<Option<u32>> = Seq::empty();
        proof {
            assert(batch@.take(0) =~= slots(gave));
            assert(self.reader.taken() + samples_of(gave) =~= self.reader.taken());
        }
        while given < count
            invariant
                given <= count,
                count == batch@.len(),
                forall|i: int|
                    0 <= i < given && i < old(self).reader.known().len() ==> batch@[i]
                        == old(self).reader.known()[i],
                fell_behind ==> given > old(self).reader.known().len(),
                self.reader.known() == after_output(old(self).reader.known(), given as nat),
                output_came(
                    old(self).reader.taken(),
                    self.reader.taken(),
                    batch@.take(given as int),
                    fell_behind,
                    gave,
                ),
            decreases count - given,
        {
            let ghost filled_so_far = batch@.take(given as int);
            let popped = self.reader.pop();
            let (sample, missed) = sample_or_silence(popped);
            batch[given] = sample;
            if missed {
                fell_behind = true;
            }
            proof {
                lemma_one_more_asked(gave.push(popped));
                assert(gave.push(popped).drop_last() =~= gave);
                assert(batch@.take(given + 1) =~= filled_so_far.push(sample));
                assert(batch@.take(given + 1) =~= slots(gave.push(popped)));
                gave = gave.push(popped);
            }
            given += 1;
        }
        proof {
            assert(batch@.take(given as int) =~= batch@);
            assert(output_came(old(self).taken(), self.taken(), batch@, fell_behind, gave));
            lemma_given(gave);
        }
        fell_behind
    }
}

/// One more sample offered adds it to what was stored if it was kept, and
/// a loss is one among those before or this one.
proof fn lemma_one_more_offered(batch: Seq<u32>, kept: Seq<bool>)
    requires
        batch.len() > 0,
        kept.len() == batch.len(),
    ensures
        kept.last() ==> stored(batch, kept)
            == stored(batch.drop_last(), kept.drop_last()).push(batch.last()),
        !kept.last() ==> stored(batch, kept) == stored(batch.drop_last(), kept.drop_last()),
        kept.contains(false) <==> kept.drop_last().contains(false) || !kept.last(),
{
    let front = kept.drop_last();
    if front.contains(false) {
        let i: int = choose|i: int| 0 <= i < front.len() && front[i] == false;
        assert(kept[i] == false);
    }
    if !kept.last() {
        assert(kept[kept.len() - 1] == false);
    }
    if kept.contains(false) && kept.last() {
        let i: int = choose|i: int| 0 <= i < kept.len() && kept[i] == false;
        assert(front[i] == false);
    }
}

/// What was stored of a batch is no longer than the batch, is the batch
/// where every sample was kept, and is shorter where one was not.
pub proof fn lemma_stored(batch: Seq<u32>, kept: Seq<bool>)
    requires
        kept.len() == batch.len(),
    ensures
        stored(batch, kept).len() <= batch.len(),
        !kept.contains(false) ==> stored(batch, kept) == batch,
        kept.contains(false) ==> stored(batch, kept).len() < batch.len(),
    decreases batch.len(),
{
    if batch.len() > 0 {
        lemma_stored(batch.drop_last(), kept.drop_last());
        lemma_one_more_offered(batch, kept);
        if !kept.contains(false) {
            assert(batch.drop_last().push(batch.last()) =~= batch);
        }
    }
}

/// One more pop adds its sample to those given if it gave one, and a pop
/// that gave none is one among those before or this one.
proof fn lemma_one_more_asked(gave: Seq<Option<u32>>)
    requires
        gave.len() > 0,
    ensures
        gave.contains(None) <==> gave.drop_last().contains(None) || gave.last() is None,
{
    let front = gave.drop_last();
    if front.contains(None) {
        let i: int = choose|i: int| 0 <= i < front.len() && front[i] == None::<u32>;
        assert(gave[i] == None::<u32>);
    }
    if gave.last() is None {
        assert(gave[gave.len() - 1] == None::<u32>);
    }
    if gave.contains(None) && gave.last() is Some {
        let i: int = choose|i: int| 0 <= i < gave.len() && gave[i] == None::<u32>;
        assert(front[i] == None::<u32>);
    }
}

/// The samples given are no more than the pops, fill the batch where every
/// pop gave one, and are fewer where one gave none.
pub proof fn lemma_given(gave: Seq<Option<u32>>)
    ensures
        samples_of(gave).len() <= gave.len(),
        !gave.contains(None) ==> samples_of(gave) == slots(gave),
        gave.contains(None) ==> samples_of(gave).len() < gave.len(),
    decreases gave.len(),
{
    if gave.len() > 0 {
        lemma_given(gave.drop_last());
        lemma_one_more_asked(gave);
        if !gave.contains(None) {
            assert(slots(gave.drop_last()).push(gave.last()->Some_0) =~= slots(gave));
        }
    }
}

/// A batch comes in as one push for each of its samples, in order.
pub proof fn law_input_is_pushed_in_order(samples: Seq<u32>, limit: nat, batch: Seq<u32>)
    requires
        samples.len() <= limit,
    ensures
        after_input(samples, limit, batch) == after_pushes(samples, limit, batch),
    decreases batch.len(),
{
    if batch.len() > 0 {
        let rest = batch.drop_first();
        if samples.len() < limit {
            let grown = samples.push(batch[0]);
            law_input_is_pushed_in_order(grown, limit, rest);
            if samples.len() + batch.len() > limit {
                assert(grown + rest.take(limit - grown.len()) =~= samples + batch.take(
                    limit - samples.len(),
                ));
            }
        } else {
            law_input_is_pushed_in_order(samples, limit, rest);
        }
    }
}

/// A batch goes out as one pop for each of its samples, in order, with
/// silence where a pop gave nothing.
pub proof fn law_output_is_popped_in_order(samples: Seq<u32>, count: nat)
    ensures
        output(samples, count) == pops(samples, count).map_values(
            |popped: Option<u32>| filled(popped).0,
        ),
        after_output(samples, count) == after_pops(samples, count),
{
    lemma_pops(samples, count);
    assert(output(samples, count) =~= pops(samples, count).map_values(
        |popped: Option<u32>| filled(popped).0,
    ));
}

/// Before any input has come, the first latency of output is silence, and
/// it uses up what the bridge started with.
pub proof fn law_silent_start(latency: nat)
    ensures
        output(silence(latency), latency) == silence(latency),
        after_output(silence(latency), latency) == Seq::<u32>::empty(),
{
}

/// While no sample is lost, what goes out is what the bridge held followed
/// by what came in, in that order: the input, delayed by what was held.
pub proof fn law_output_is_delayed_input(samples: Seq<u32>, limit: nat, batch: Seq<u32>)
    requires
        samples.len() + batch.len() <= limit,
    ensures
        output(after_input(samples, limit, batch), samples.len() + batch.len()) == samples + batch,
        after_output(after_input(samples, limit, batch), samples.len() + batch.len()).len() == 0,
{
}

/// A batch that finds the ring full is lost whole, and the ring keeps what
/// it held.
pub proof fn law_overrun_drops_input(samples: Seq<u32>, limit: nat, batch: Seq<u32>)
    requires
        samples.len() == limit,
    ensures
        after_input(samples, limit, batch) == samples,
{
}

/// A batch asked of an empty ring is silent.
pub proof fn law_underrun_gives_silence(count: nat)
    ensures
        output(Seq::empty(), count) == silence(count),
        after_output(Seq::empty(), count) == Seq::<u32>::empty(),
{
}

} // verus!
