//! A bounded first-in, first-out queue of audio samples.
//!
//! A sample is carried as the 32 bits of its encoding; silence is the word
//! zero. While one owner holds an [`AudioRing`], what it holds is known
//! exactly and every contract here is exact. [`AudioRing::split`] hands its two
//! ends to two threads. From then on each end knows the ring only in part,
//! and promises what holds whatever the other end does meanwhile: the reading
//! end finds the samples that it knows of, in their order, and the writing
//! end finds the room that it knows of.

use ringbuf::Rb;
use vstd::prelude::*;

verus! {

/// A `HeapRb` of `ringbuf` that holds samples.
#[verifier::external_body]
pub struct SampleStore {
    inner: ringbuf::HeapRb<u32>,
}

/// The writing end of a `HeapRb` that was split: a `HeapProducer` of `ringbuf`.
#[verifier::external_body]
pub struct StoreInlet {
    inner: ringbuf::HeapProducer<u32>,
}

/// The reading end of a `HeapRb` that was split: a `HeapConsumer` of `ringbuf`.
#[verifier::external_body]
pub struct StoreOutlet {
    inner: ringbuf::HeapConsumer<u32>,
}

/// The samples that a store holds, oldest first.
pub uninterp spec fn store_samples(store: SampleStore) -> Seq<u32>;

/// The number of samples that a store was made to hold.
pub uninterp spec fn store_limit(store: SampleStore) -> nat;

/// `HeapRb::try_new` of `ringbuf`: a store of the capacity asked for, with
/// nothing in it, or nothing where the memory could not be had.
#[verifier::external_body]
fn store_try_new(capacity: usize) -> (made: Option<SampleStore>)
    requires
        capacity > 0,
    ensures
        made is Some ==> store_samples(made->Some_0) == Seq::<u32>::empty(),
        made is Some ==> store_limit(made->Some_0) == capacity,
{
    match ringbuf::HeapRb::<u32>::try_new(capacity) {
        Ok(inner) => Some(SampleStore { inner }),
        Err(_) => None,
    }
}

/// `Rb::push` of `ringbuf`: a store with room takes the sample in as its
/// newest; a full store hands the sample back and keeps what it holds.
#[verifier::external_body]
fn store_push(store: &mut SampleStore, sample: u32) -> (pushed: Result<(), u32>)
    ensures
        store_limit(*final(store)) == store_limit(*old(store)),
        store_samples(*old(store)).len() < store_limit(*old(store)) ==> pushed is Ok
            && store_samples(*final(store)) == store_samples(*old(store)).push(sample),
        store_samples(*old(store)).len() >= store_limit(*old(store)) ==> pushed is Err
            && pushed->Err_0 == sample && store_samples(*final(store)) == store_samples(*old(store)),
{
    store.inner.push(sample)
}

/// `Rb::pop` of `ringbuf`: the oldest sample leaves the store; an empty store
/// gives nothing and stays empty.
#[verifier::external_body]
fn store_pop(store: &mut SampleStore) -> (popped: Option<u32>)
    ensures
        store_limit(*final(store)) == store_limit(*old(store)),
        store_samples(*old(store)).len() == 0 ==> popped is None && store_samples(*final(store))
            == store_samples(*old(store)),
        store_samples(*old(store)).len() > 0 ==> popped == Some(store_samples(*old(store))[0])
            && store_samples(*final(store)) == store_samples(*old(store)).drop_first(),
{
    store.inner.pop()
}

/// The room that the writing end is sure to find: the room that the store
/// had when it was split, less one for each sample written since. The reading
/// end makes more room and takes none away, so the true room is never less;
/// `ringbuf` says the same of `Producer::free_len`.
pub uninterp spec fn inlet_room(inlet: StoreInlet) -> nat;

/// The samples that the reading end is sure to find, oldest first: those
/// that the store held when it was split, less those read since. The writing
/// end puts more behind them and takes none away, so the store never holds
/// fewer; `ringbuf` says the same of `Consumer::len`.
pub uninterp spec fn outlet_front(outlet: StoreOutlet) -> Seq<u32>;

/// The samples that the store has taken in through its writing end since it
/// was split, in the order in which they went in.
pub uninterp spec fn inlet_sent(inlet: StoreInlet) -> Seq<u32>;

/// The samples that the store has given out through its reading end since it
/// was split, in the order in which they came out.
pub uninterp spec fn outlet_taken(outlet: StoreOutlet) -> Seq<u32>;

/// `HeapRb::split` of `ringbuf`: the two ends of the store. The reading end
/// starts with the samples that the store holds, the writing end with the
/// room that it has left; nothing has gone through either yet.
#[verifier::external_body]
fn store_split(store: SampleStore) -> (ends: (StoreInlet, StoreOutlet))
    requires
        store_samples(store).len() <= store_limit(store),
    ensures
        inlet_room(ends.0) == store_limit(store) - store_samples(store).len(),
        outlet_front(ends.1) == store_samples(store),
        inlet_sent(ends.0) == Seq::<u32>::empty(),
        outlet_taken(ends.1) == Seq::<u32>::empty(),
{
    let (producer, consumer) = store.inner.split();
    (StoreInlet { inner: producer }, StoreOutlet { inner: consumer })
}

/// `Producer::push` of `ringbuf`. While room is known of, the sample is
/// stored and uses one place of it. Beyond that the reading end decides:
/// the sample is stored if that end has read by then, else it comes back.
/// A sample that is stored is the newest that went in; one that comes back
/// did not go in.
#[verifier::external_body]
fn inlet_push(inlet: &mut StoreInlet, sample: u32) -> (pushed: Result<(), u32>)
    ensures
        inlet_room(*old(inlet)) > 0 ==> pushed is Ok,
        inlet_room(*old(inlet)) > 0 ==> inlet_room(*final(inlet)) == inlet_room(*old(inlet)) - 1,
        inlet_room(*old(inlet)) == 0 ==> inlet_room(*final(inlet)) == 0,
        pushed is Ok ==> inlet_sent(*final(inlet)) == inlet_sent(*old(inlet)).push(sample),
        pushed is Err ==> inlet_sent(*final(inlet)) == inlet_sent(*old(inlet)),
        pushed is Err ==> pushed->Err_0 == sample,
{
    inlet.inner.push(sample)
}

/// `Consumer::pop` of `ringbuf`. While samples are known of, the oldest of
/// them comes out. Beyond that the writing end decides: a sample comes out
/// if that end has written one by then, else nothing. A sample that comes
/// out is the newest that was given out; where nothing comes, nothing was.
#[verifier::external_body]
fn outlet_pop(outlet: &mut StoreOutlet) -> (popped: Option<u32>)
    ensures
        outlet_front(*old(outlet)).len() > 0 ==> popped == Some(outlet_front(*old(outlet))[0]),
        outlet_front(*old(outlet)).len() > 0 ==> outlet_front(*final(outlet))
            == outlet_front(*old(outlet)).drop_first(),
        outlet_front(*old(outlet)).len() == 0 ==> outlet_front(*final(outlet)).len() == 0,
        popped is Some ==> outlet_taken(*final(outlet))
            == outlet_taken(*old(outlet)).push(popped->Some_0),
        popped is None ==> outlet_taken(*final(outlet)) == outlet_taken(*old(outlet)),
{
    outlet.inner.pop()
}

/// The word that stands for a silent sample.
pub const SILENCE: u32 = 0;

/// `count` silent samples.
pub open spec fn silence(count: nat) -> Seq<u32> {
    Seq::new(count, |i: int| SILENCE)
}

/// What a ring of capacity `limit` holds after one push of `sample`.
pub open spec fn after_push(samples: Seq<u32>, limit: nat, sample: u32) -> Seq<u32> {
    if samples.len() < limit {
        samples.push(sample)
    } else {
        samples
    }
}

/// What one pop gives.
pub open spec fn front(samples: Seq<u32>) -> Option<u32> {
    if samples.len() > 0 {
        Some(samples[0])
    } else {
        None
    }
}

/// What a ring holds after one pop.
pub open spec fn after_pop(samples: Seq<u32>) -> Seq<u32> {
    if samples.len() > 0 {
        samples.drop_first()
    } else {
        samples
    }
}

/// The room that a writing end knows of after one push.
pub open spec fn after_write(room: nat) -> nat {
    if room > 0 {
        (room - 1) as nat
    } else {
        0
    }
}

/// What a ring of capacity `limit` holds after each of `batch` was pushed, in
/// order.
pub open spec fn after_pushes(samples: Seq<u32>, limit: nat, batch: Seq<u32>) -> Seq<u32>
    decreases batch.len(),
{
    if batch.len() == 0 {
        samples
    } else {
        after_pushes(after_push(samples, limit, batch[0]), limit, batch.drop_first())
    }
}

/// What `count` pops give, in order.
pub open spec fn pops(samples: Seq<u32>, count: nat) -> Seq<Option<u32>>
    decreases count,
{
    if count == 0 {
        Seq::empty()
    } else {
        seq![front(samples)] + pops(after_pop(samples), (count - 1) as nat)
    }
}

/// What a ring holds after `count` pops.
pub open spec fn after_pops(samples: Seq<u32>, count: nat) -> Seq<u32>
    decreases count,
{
    if count == 0 {
        samples
    } else {
        after_pops(after_pop(samples), (count - 1) as nat)
    }
}

/// Why a push did not store its sample.
#[derive(Debug, Clone, Copy, PartialEq, Eq)]
pub struct Full;

/// Why no ring was made.
#[derive(Debug, Clone, Copy, PartialEq, Eq)]
pub enum RingError {
    /// A latency of no samples was asked for.
    NoLatency,
    /// Twice the latency is more than a length can be.
    TooLong,
    /// The memory for the ring could not be had.
    OutOfMemory,
}

/// A queue of samples with a capacity of twice its latency, made holding one
/// latency of silence.
pub struct AudioRing {
    store: SampleStore,
    latency: usize,
    held: usize,
}

impl View for AudioRing {
    type V = Seq<u32>;

    closed spec fn view(&self) -> Seq<u32> {
        store_samples(self.store)
    }
}

impl AudioRing {
    /// The number of samples that the ring can hold.
    pub closed spec fn limit(&self) -> nat {
        store_limit(self.store)
    }

    /// The number of silent samples that the ring was made with.
    pub closed spec fn delay(&self) -> nat {
        self.latency as nat
    }

    /// The ring holds no more than its capacity, which is twice its latency,
    /// and keeps count of what it holds.
    pub closed spec fn wf(&self) -> bool {
        &&& self@.len() <= self.limit()
        &&& self.limit() == 2 * self.delay()
        &&& self.delay() > 0
        &&& self.limit() <= usize::MAX
        &&& self.held == self@.len()
    }

    /// A ring can hold twice its latency, and never holds more.
    pub proof fn law_capacity_is_twice_latency(&self)
        requires
            self.wf(),
        ensures
            self@.len() <= self.limit(),
            self.limit() == 2 * self.delay(),
            self.delay() > 0,
    {
    }

    /// Fills a store that was just made with one latency of silence.
    fn prefilled(store: SampleStore, latency: usize) -> (ring: AudioRing)
        requires
            0 < latency <= usize::MAX / 2,
            store_samples(store) == Seq::<u32>::empty(),
            store_limit(store) == 2 * latency,
        ensures
            ring.wf(),
            ring@ == silence(latency as nat),
            ring.delay() == latency,
    {
        let mut store = store;
        let mut filled: usize = 0;
        while filled < latency
            invariant
                filled <= latency,
                store_limit(store) == 2 * latency,
                store_samples(store) == silence(filled as nat),
            decreases latency - filled,
        {
            let _ = store_push(&mut store, SILENCE);
            filled += 1;
        }
        AudioRing { store, latency, held: latency }
    }

    /// A ring for a latency of `latency_samples`: its capacity is twice that,
    /// and it holds that many silent samples.
    pub fn new(latency_samples: usize) -> (made: Result<AudioRing, RingError>)
        ensures
            latency_samples == 0 <==> made is Err && made->Err_0 == RingError::NoLatency,
            2 * latency_samples > usize::MAX <==> made is Err && made->Err_0 == RingError::TooLong,
            made is Ok ==> made->Ok_0.wf() && made->Ok_0@ == silence(latency_samples as nat),
            made is Ok ==> made->Ok_0.delay() == latency_samples && made->Ok_0.limit() == 2
                * latency_samples,
    {
        if latency_samples == 0 {
            return Err(RingError::NoLatency);
        }
        if latency_samples > usize::MAX / 2 {
            return Err(RingError::TooLong);
        }
        match store_try_new(2 * latency_samples) {
            Some(store) => Ok(AudioRing::prefilled(store, latency_samples)),
            None => Err(RingError::OutOfMemory),
        }
    }

    /// Appends a sample. A full ring refuses it and keeps what it holds.
    pub fn push(&mut self, sample: u32) -> (pushed: Result<(), Full>)
        requires
            old(self).wf(),
        ensures
            final(self).wf(),
            final(self).limit() == old(self).limit(),
            final(self).delay() == old(self).delay(),
            final(self)@ == after_push(old(self)@, old(self).limit(), sample),
            pushed is Ok <==> old(self)@.len() < old(self).limit(),
            pushed is Err ==> final(self)@ == old(self)@,
    {
        match store_push(&mut self.store, sample) {
            Ok(()) => {
                self.held += 1;
                Ok(())
            },
            Err(_) => Err(Full),
        }
    }

    /// Takes the oldest sample out. An empty ring gives nothing.
    pub fn pop(&mut self) -> (popped: Option<u32>)
        requires
            old(self).wf(),
        ensures
            final(self).wf(),
            final(self).limit() == old(self).limit(),
            final(self).delay() == old(self).delay(),
            popped == front(old(self)@),
            final(self)@ == after_pop(old(self)@),
            old(self)@.len() == 0 ==> popped is None && final(self)@.len() == 0,
    {
        let popped = store_pop(&mut self.store);
        if popped.is_some() {
            self.held -= 1;
        }
        popped
    }

    /// The number of samples held.
    pub fn len(&self) -> (held: usize)
        requires
            self.wf(),
        ensures
            held == self@.len(),
    {
        self.held
    }

    /// The number of samples that the ring can hold.
    pub fn capacity(&self) -> (limit: usize)
        requires
            self.wf(),
        ensures
            limit == self.limit(),
    {
        2 * self.latency
    }

    /// The number of silent samples that the ring was made with.
    pub fn latency_samples(&self) -> (latency: usize)
        ensures
            latency == self.delay(),
    {
        self.latency
    }

    /// Whether the ring holds nothing.
    pub fn is_empty(&self) -> (empty: bool)
        requires
            self.wf(),
        ensures
            empty <==> self@.len() == 0,
    {
        self.held == 0
    }

    /// Whether the ring has no room left.
    pub fn is_full(&self) -> (full: bool)
        requires
            self.wf(),
        ensures
            full <==> self@.len() == self.limit(),
    {
        self.held == 2 * self.latency
    }

    /// Parts the ring into its writing and its reading end, for two threads.
    /// The reading end knows of every sample in the ring, the writing end of
    /// all the room that is left.
    pub fn split(self) -> (ends: (RingWriter, RingReader))
        requires
            self.wf(),
        ensures
            ends.0.room() == self.limit() - self@.len(),
            ends.0.sent() == Seq::<u32>::empty(),
            ends.1.known() == self@,
            ends.1.taken() == Seq::<u32>::empty(),
    {
        let (inlet, outlet) = store_split(self.store);
        (RingWriter { inlet }, RingReader { outlet })
    }
}

/// The writing end of a ring that was split.
pub struct RingWriter {
    inlet: StoreInlet,
}

impl RingWriter {
    /// The number of samples that are sure to find room, whatever the
    /// reading end does: the room at the split, less what was written since.
    pub closed spec fn room(&self) -> nat {
        inlet_room(self.inlet)
    }

    /// The samples that went in through this end, in their order.
    pub closed spec fn sent(&self) -> Seq<u32> {
        inlet_sent(self.inlet)
    }

    /// Offers a sample to the ring. While room is known of, it is stored.
    /// Beyond that it is stored if the reading end has made room by then.
    /// What went in is this sample where the answer is `Ok`, and nothing
    /// where it is not.
    pub fn push(&mut self, sample: u32) -> (pushed: Result<(), Full>)
        ensures
            old(self).room() > 0 ==> pushed is Ok,
            final(self).room() == after_write(old(self).room()),
            pushed is Ok ==> final(self).sent() == old(self).sent().push(sample),
            pushed is Err ==> final(self).sent() == old(self).sent(),
    {
        match inlet_push(&mut self.inlet, sample) {
            Ok(()) => Ok(()),
            Err(_) => Err(Full),
        }
    }
}

/// The reading end of a ring that was split.
pub struct RingReader {
    outlet: StoreOutlet,
}

impl RingReader {
    /// The samples that are sure to come out next, oldest first, whatever
    /// the writing end does: those in the ring at the split, less those read
    /// since.
    pub closed spec fn known(&self) -> Seq<u32> {
        outlet_front(self.outlet)
    }

    /// The samples that came out through this end, in their order.
    pub closed spec fn taken(&self) -> Seq<u32> {
        outlet_taken(self.outlet)
    }

    /// Asks the ring for its oldest sample. While samples are known of, the
    /// oldest of them comes out. Beyond that one comes out if the writing end
    /// has written it by then. What came out is the sample given, and nothing
    /// where none is given.
    pub fn pop(&mut self) -> (popped: Option<u32>)
        ensures
            old(self).known().len() > 0 ==> popped == front(old(self).known()),
            final(self).known() == after_pop(old(self).known()),
            popped is Some ==> final(self).taken() == old(self).taken().push(popped->Some_0),
            popped is None ==> final(self).taken() == old(self).taken(),
    {
        outlet_pop(&mut self.outlet)
    }
}

/// Pushes that all find room append the batch as it is.
pub proof fn lemma_pushes_with_room(samples: Seq<u32>, limit: nat, batch: Seq<u32>)
    requires
        samples.len() + batch.len() <= limit,
    ensures
        after_pushes(samples, limit, batch) == samples + batch,
    decreases batch.len(),
{
    if batch.len() > 0 {
        lemma_pushes_with_room(samples.push(batch[0]), limit, batch.drop_first());
    }
}

/// What the pop numbered `at` gives, counting from zero: the sample at that
/// place, or nothing beyond the last.
pub open spec fn pop_at(samples: Seq<u32>, at: int) -> Option<u32> {
    if 0 <= at < samples.len() {
        Some(samples[at])
    } else {
        None
    }
}

/// The samples without the `count` oldest; none where there are no more
/// than that.
pub open spec fn without_oldest(samples: Seq<u32>, count: nat) -> Seq<u32> {
    if count <= samples.len() {
        samples.skip(count as int)
    } else {
        Seq::empty()
    }
}

/// Pops give the samples from the oldest on, and nothing once the ring is
/// empty; what they gave is gone from the ring.
pub proof fn lemma_pops(samples: Seq<u32>, count: nat)
    ensures
        pops(samples, count).len() == count,
        forall|i: int| 0 <= i < count ==> #[trigger] pops(samples, count)[i] == pop_at(samples, i),
        after_pops(samples, count) == without_oldest(samples, count),
    decreases count,
{
    if count > 0 {
        lemma_pops(after_pop(samples), (count - 1) as nat);
    }
}

/// First in, first out: after a batch that fits was pushed into an empty
/// ring, as many pops give the batch in its order and leave the ring empty.
pub proof fn law_first_in_first_out(limit: nat, batch: Seq<u32>)
    requires
        batch.len() <= limit,
    ensures
        pops(after_pushes(Seq::empty(), limit, batch), batch.len()) == batch.map_values(
            |sample: u32| Some(sample),
        ),
        after_pops(after_pushes(Seq::empty(), limit, batch), batch.len()) == Seq::<u32>::empty(),
{
    law_order_is_kept(Seq::empty(), limit, batch);
}

/// Order is kept: samples pushed while there is room come out after those
/// that the ring held before, each in the order in which it went in.
pub proof fn law_order_is_kept(samples: Seq<u32>, limit: nat, batch: Seq<u32>)
    requires
        samples.len() + batch.len() <= limit,
    ensures
        pops(after_pushes(samples, limit, batch), samples.len() + batch.len()) == (samples
            + batch).map_values(|sample: u32| Some(sample)),
        after_pops(after_pushes(samples, limit, batch), samples.len() + batch.len()).len() == 0,
{
    let held = samples + batch;
    lemma_pushes_with_room(samples, limit, batch);
    lemma_pops(held, held.len());
}

/// A push into a full ring changes nothing.
pub proof fn law_full_ring_keeps_its_samples(samples: Seq<u32>, limit: nat, sample: u32)
    requires
        samples.len() >= limit,
    ensures
        after_push(samples, limit, sample) == samples,
{
}

/// A pop from an empty ring gives nothing and leaves it empty.
pub proof fn law_empty_ring_gives_nothing(samples: Seq<u32>)
    requires
        samples.len() == 0,
    ensures
        front(samples) == None::<u32>,
        after_pop(samples).len() == 0,
{
}

/// A ring that holds nothing but its first silence gives exactly that: as
/// many pops as its latency give one silent sample each and empty it.
pub proof fn law_prefill_is_silence(latency: nat)
    ensures
        pops(silence(latency), latency) == Seq::new(latency, |i: int| Some(SILENCE)),
        after_pops(silence(latency), latency) == Seq::<u32>::empty(),
{
    lemma_pops(silence(latency), latency);
}

} // verus!
