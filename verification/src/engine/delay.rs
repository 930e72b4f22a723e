//! The delay between the audio input and the audio output.
//!
//! The two devices need not be in step. A ring buffer between them starts out
//! half filled with silence, so that samples leave it a fixed time after they
//! entered and short hitches on either side go unheard.
use ringbuf::traits::{Consumer, Producer};
use vstd::prelude::*;

verus! {

/// The bit pattern of a silent sample.
pub const SILENCE: u32 = 0;

/// A ring buffer of samples, each by its bit pattern.
#[verifier::external_body]
pub struct Ring {
    buffer: ringbuf::HeapRb<u32>,
}

/// The samples in a ring buffer, the oldest first.
pub uninterp spec fn held(ring: Ring) -> Seq<u32>;

/// How many samples a ring buffer was made for.
pub uninterp spec fn room(ring: Ring) -> nat;

/// `ringbuf::HeapRb::new`: an empty ring buffer for as many items as asked.
///
/// It panics for none, and for more than can be allocated, which is at most
/// `isize::MAX` bytes.
#[verifier::external_body]
fn ring_new(capacity: usize) -> (ring: Ring)
    requires
        0 < capacity,
        4 * capacity <= isize::MAX,
    ensures
        held(ring) == Seq::<u32>::empty(),
        room(ring) == capacity,
{
    Ring { buffer: ringbuf::HeapRb::<u32>::new(capacity) }
}

/// `Producer::try_push`: the item is appended if there is room, and handed
/// back if there is none.
#[verifier::external_body]
fn ring_try_push(ring: &mut Ring, item: u32) -> (r: Result<(), u32>)
    ensures
        room(*final(ring)) == room(*old(ring)),
        if held(*old(ring)).len() < room(*old(ring)) {
            r == Ok::<(), u32>(()) && held(*final(ring)) == held(*old(ring)).push(item)
        } else {
            r == Err::<(), u32>(item) && held(*final(ring)) == held(*old(ring))
        },
{
    ring.buffer.try_push(item)
}

/// `Producer::push_slice`: as many items as there is room for are appended,
/// from the first on, and counted.
#[verifier::external_body]
fn ring_push_slice(ring: &mut Ring, items: &[u32]) -> (r: usize)
    requires
        held(*old(ring)).len() <= room(*old(ring)),
    ensures
        room(*final(ring)) == room(*old(ring)),
        r == fitting(room(*old(ring)), held(*old(ring)), items@),
        held(*final(ring)) == held(*old(ring)) + items@.take(r as int),
{
    ring.buffer.push_slice(items)
}

/// `Consumer::try_pop`: the oldest item is taken out, if there is one.
#[verifier::external_body]
fn ring_try_pop(ring: &mut Ring) -> (r: Option<u32>)
    ensures
        room(*final(ring)) == room(*old(ring)),
        if held(*old(ring)).len() > 0 {
            r == Some(held(*old(ring))[0]) && held(*final(ring)) == held(*old(ring)).drop_first()
        } else {
            r is None && held(*final(ring)) == held(*old(ring))
        },
{
    ring.buffer.try_pop()
}

/// How many of the items fit behind what is held.
pub open spec fn fitting(room: nat, held: Seq<u32>, items: Seq<u32>) -> int {
    if items.len() <= room - held.len() {
        items.len() as int
    } else {
        room - held.len()
    }
}

/// How many samples a line of the given delay has room for.
pub open spec fn capacity_for(latency: nat) -> nat {
    2 * latency
}

/// So many silent samples.
pub open spec fn silence(count: nat) -> Seq<u32> {
    Seq::new(count, |i: int| SILENCE)
}

/// What leaves a line of the given samples when `count` are wanted: the oldest
/// samples, and silence once they are used up.
pub open spec fn taken(line: Seq<u32>, count: nat) -> Seq<u32> {
    if count <= line.len() {
        line.take(count as int)
    } else {
        line + silence((count - line.len()) as nat)
    }
}

/// What remains of a line of the given samples when `count` were wanted.
pub open spec fn remaining(line: Seq<u32>, count: nat) -> Seq<u32> {
    if count <= line.len() {
        line.skip(count as int)
    } else {
        Seq::empty()
    }
}

/// A line of samples between input and output.
pub struct DelayLine {
    ring: Ring,
}

impl View for DelayLine {
    type V = Seq<u32>;

    closed spec fn view(&self) -> Seq<u32> {
        held(self.ring)
    }
}

impl DelayLine {
    /// How many samples the line has room for.
    pub closed spec fn capacity(&self) -> nat {
        room(self.ring)
    }

    /// Whether the line holds no more than it has room for.
    pub open spec fn wf(&self) -> bool {
        self@.len() <= self.capacity()
    }

    /// A line that delays by so many samples: silence for the delay, and room
    /// for as much again.
    pub fn new(latency_samples: usize) -> (r: DelayLine)
        requires
            0 < latency_samples,
            8 * latency_samples <= isize::MAX,
        ensures
            r.wf(),
            r@ == silence(latency_samples as nat),
            r.capacity() == capacity_for(latency_samples as nat),
    {
        let mut ring = ring_new(latency_samples * 2);
        let mut filled: usize = 0;
        while filled < latency_samples
            invariant
                filled <= latency_samples,
                room(ring) == 2 * latency_samples,
                held(ring) == silence(filled as nat),
            decreases latency_samples - filled,
        {
            let pushed = ring_try_push(&mut ring, SILENCE);
            assert(pushed is Ok);
            filled = filled + 1;
            assert(held(ring) =~= silence(filled as nat));
        }
        DelayLine { ring }
    }

    /// Appends as many of the samples as there is room for and counts them.
    pub fn push(&mut self, data: &[u32]) -> (r: usize)
        requires
            old(self).wf(),
        ensures
            final(self).wf(),
            final(self).capacity() == old(self).capacity(),
            r == fitting(old(self).capacity(), old(self)@, data@),
            final(self)@ == old(self)@ + data@.take(r as int),
    {
        ring_push_slice(&mut self.ring, data)
    }

    /// Takes out the oldest sample, or gives silence.
    pub fn pull(&mut self) -> (r: u32)
        requires
            old(self).wf(),
        ensures
            final(self).wf(),
            final(self).capacity() == old(self).capacity(),
            r == taken(old(self)@, 1)[0],
            final(self)@ == remaining(old(self)@, 1),
    {
        match ring_try_pop(&mut self.ring) {
            Some(sample) => sample,
            None => SILENCE,
        }
    }

    /// Takes out as many samples as are wanted, and silence once there are no
    /// more.
    pub fn fill(&mut self, count: usize) -> (r: Vec<u32>)
        requires
            old(self).wf(),
        ensures
            final(self).wf(),
            final(self).capacity() == old(self).capacity(),
            r@ == taken(old(self)@, count as nat),
            final(self)@ == remaining(old(self)@, count as nat),
    {
        let ghost line = self@;
        let mut samples: Vec<u32> = Vec::new();
        let mut i: usize = 0;
        while i < count
            invariant
                i <= count,
                self.wf(),
                self.capacity() == old(self).capacity(),
                samples@ == taken(line, i as nat),
                self@ == remaining(line, i as nat),
            decreases count - i,
        {
            let sample = self.pull();
            samples.push(sample);
            i = i + 1;
            assert(samples@ =~= taken(line, i as nat));
            assert(self@ =~= remaining(line, i as nat));
        }
        samples
    }
}

/// How many samples of the input are taken up: as many as fit into the line if
/// the output plays it, and all of them if not.
pub open spec fn taken_up(loopback: bool, room: nat, line: Seq<u32>, data: Seq<u32>) -> int {
    if loopback {
        fitting(room, line, data)
    } else {
        data.len() as int
    }
}

/// The line once the input was handed on, if the output plays it.
pub open spec fn handed_on(
    loopback: bool,
    room: nat,
    line: Seq<u32>,
    data: Seq<u32>,
) -> Seq<u32> {
    if loopback {
        line + data.take(fitting(room, line, data))
    } else {
        line
    }
}

/// Hands the input on to the line if the output plays it, and says how many
/// samples were taken up. Without an output all of them are.
pub fn pass_on(loopback: bool, line: &mut DelayLine, data: &[u32]) -> (r: usize)
    requires
        old(line).wf(),
    ensures
        final(line).wf(),
        final(line).capacity() == old(line).capacity(),
        r <= data@.len(),
        r == taken_up(loopback, old(line).capacity(), old(line)@, data@),
        final(line)@ == handed_on(loopback, old(line).capacity(), old(line)@, data@),
{
    if loopback {
        line.push(data)
    } else {
        data.len()
    }
}

/// How many samples so many frames of so many channels hold.
pub open spec fn samples_in(frames: nat, channels: nat) -> nat {
    frames * channels
}

/// A frame more is a sample more for each channel.
pub proof fn lemma_frames_hold_every_channel(frames: nat, channels: nat)
    ensures
        samples_in(0, channels) == 0,
        samples_in(frames + 1, channels) == samples_in(frames, channels) + channels,
{
    assert((frames + 1) * channels == frames * channels + channels) by (nonlinear_arith);
    assert(0 * channels == 0) by (nonlinear_arith);
}

/// How many samples a delay of so many frames is, a frame holding one sample
/// for each channel.
pub fn latency_samples(frames: usize, channels: u16) -> (r: usize)
    requires
        frames * channels <= usize::MAX,
    ensures
        r == samples_in(frames as nat, channels as nat),
{
    frames * channels as usize
}

/// As many items fit as there are, or as fill the room: never more than
/// either, and no item is left out while there is room for it.
pub proof fn lemma_as_many_as_fit(room: nat, line: Seq<u32>, items: Seq<u32>)
    requires
        line.len() <= room,
    ensures
        0 <= fitting(room, line, items) <= items.len(),
        line.len() + fitting(room, line, items) <= room,
        fitting(room, line, items) < items.len() ==> line.len() + fitting(room, line, items)
            == room,
{
}

/// Silence is so many samples of the number zero.
pub proof fn lemma_silence(count: nat, i: int)
    ensures
        silence(count).len() == count,
        0 <= i < count ==> silence(count)[i] == 0,
        SILENCE == 0,
        capacity_for(count) == count + count,
{
}

/// What is wanted comes out, the oldest first: every sample that waits before
/// any that is made up, as many as are wanted, and those that are not wanted
/// stay in their order.
pub proof fn lemma_oldest_come_out(line: Seq<u32>, count: nat, i: int)
    ensures
        taken(line, count).len() == count,
        0 <= i < count && i < line.len() ==> taken(line, count)[i] == line[i],
        0 <= i < count && i >= line.len() ==> taken(line, count)[i] == 0,
        remaining(line, count).len() == (if count <= line.len() {
            line.len() - count
        } else {
            0
        }),
        0 <= i < line.len() - count ==> remaining(line, count)[i] == line[i + count],
{
}

/// Without an output all of the input is taken up and the line stays as it is.
/// With one, what is taken up comes last in the line, from the first sample
/// on, and nothing is left out while there is room.
pub proof fn lemma_input_reaches_the_line(room: nat, line: Seq<u32>, data: Seq<u32>, i: int)
    requires
        line.len() <= room,
    ensures
        taken_up(false, room, line, data) == data.len(),
        handed_on(false, room, line, data) == line,
        ({
            let n = taken_up(true, room, line, data);
            let after = handed_on(true, room, line, data);
            &&& 0 <= n <= data.len()
            &&& n < data.len() ==> after.len() == room
            &&& after.len() == line.len() + n
            &&& after.len() <= room
            &&& 0 <= i < line.len() ==> after[i] == line[i]
            &&& 0 <= i < n ==> after[line.len() + i] == data[i]
        }),
{
}

// -- The delay

/// A use of the line.
pub enum Use {
    /// Samples were written.
    Write(Seq<u32>),
    /// So many samples were wanted.
    Read(nat),
}

/// A line after some uses: what it holds, and all that went in and came out.
#[verifier::ext_equal]
pub struct Passage {
    /// What the line holds.
    pub line: Seq<u32>,
    /// The samples that the line took up.
    pub written: Seq<u32>,
    /// The samples that came out.
    pub read: Seq<u32>,
    /// Of each of these, whether the line held it. Otherwise it was made up.
    pub genuine: Seq<bool>,
}

/// A line of the given delay after the given uses.
pub open spec fn passage(latency: nat, uses: Seq<Use>) -> Passage
    decreases uses.len(),
{
    if uses.len() == 0 {
        Passage {
            line: silence(latency),
            written: Seq::empty(),
            read: Seq::empty(),
            genuine: Seq::empty(),
        }
    } else {
        let before = passage(latency, uses.drop_last());
        match uses.last() {
            Use::Write(data) => {
                let kept = data.take(fitting(capacity_for(latency), before.line, data));
                Passage { line: before.line + kept, written: before.written + kept, ..before }
            },
            Use::Read(count) => Passage {
                line: remaining(before.line, count),
                read: before.read + taken(before.line, count),
                genuine: before.genuine + Seq::new(count, |i: int| i < before.line.len()),
                ..before
            },
        }
    }
}

/// The samples that came out of the line itself, in order: those that were
/// read without those that were made up.
pub open spec fn drawn(read: Seq<u32>, genuine: Seq<bool>) -> Seq<u32>
    decreases read.len(),
{
    if read.len() == 0 {
        Seq::empty()
    } else {
        let before = drawn(read.drop_last(), genuine.drop_last());
        if genuine.last() {
            before.push(read.last())
        } else {
            before
        }
    }
}

/// Whether the output never wanted more than the line held.
pub open spec fn never_starved(latency: nat, uses: Seq<Use>) -> bool
    decreases uses.len(),
{
    uses.len() > 0 ==> never_starved(latency, uses.drop_last()) && (uses.last() matches Use::Read(
        count,
    ) ==> count <= passage(latency, uses.drop_last()).line.len())
}

/// Reading more draws what the line held of it.
proof fn lemma_drawn_grows(read: Seq<u32>, genuine: Seq<bool>, line: Seq<u32>, count: nat)
    requires
        read.len() == genuine.len(),
    ensures
        drawn(
            read + taken(line, count),
            genuine + Seq::new(count, |i: int| i < line.len()),
        ) == drawn(read, genuine) + line.take(
            if count <= line.len() {
                count as int
            } else {
                line.len() as int
            },
        ),
    decreases count,
{
    let flags = Seq::new(count, |i: int| i < line.len());
    if count == 0 {
        assert(read + taken(line, count) =~= read);
        assert(genuine + flags =~= genuine);
        assert(drawn(read, genuine) + line.take(0) =~= drawn(read, genuine));
    } else {
        let less = (count - 1) as nat;
        lemma_drawn_grows(read, genuine, line, less);
        let all = read + taken(line, count);
        assert(all.drop_last() =~= read + taken(line, less));
        assert((genuine + flags).drop_last() =~= genuine + Seq::new(less, |i: int| i < line.len()));
        if count <= line.len() {
            assert(line.take(count as int) =~= line.take(less as int).push(line[less as int]));
            assert(all.last() == line[less as int]);
            assert(drawn(read, genuine) + line.take(count as int) =~= (drawn(read, genuine) + line.take(
                less as int,
            )).push(line[less as int]));
        }
    }
}

/// If all that was read is genuine, it is what was drawn.
proof fn lemma_all_drawn(read: Seq<u32>, genuine: Seq<bool>)
    requires
        read.len() == genuine.len(),
        forall|i: int| 0 <= i < genuine.len() ==> #[trigger] genuine[i],
    ensures
        drawn(read, genuine) == read,
    decreases read.len(),
{
    if read.len() > 0 {
        lemma_all_drawn(read.drop_last(), genuine.drop_last());
        assert(read.drop_last().push(read.last()) =~= read);
    }
}

/// The line delays, however it is used: what it gave out and what it holds are
/// the delay in silence and then all that it took up, in order and without
/// gaps, and it never holds more than twice the delay. Where nothing is waiting
/// silence is made up. If the output never runs dry, nothing is, and what comes
/// out is the delay in silence and then what went in.
pub proof fn lemma_line_delays(latency: nat, uses: Seq<Use>)
    ensures
        ({
            let now = passage(latency, uses);
            &&& drawn(now.read, now.genuine) + now.line == silence(latency) + now.written
            &&& now.line.len() <= 2 * latency
            &&& now.genuine.len() == now.read.len()
            &&& forall|i: int|
                0 <= i < now.read.len() && !now.genuine[i] ==> #[trigger] now.read[i] == SILENCE
            &&& never_starved(latency, uses) ==> forall|i: int|
                0 <= i < now.read.len() ==> #[trigger] now.read[i] == (if i < latency {
                    SILENCE
                } else {
                    now.written[i - latency]
                })
        }),
{
    lemma_line_keeps_all(latency, uses);
    let now = passage(latency, uses);
    if never_starved(latency, uses) {
        lemma_all_drawn(now.read, now.genuine);
        let whole = silence(latency) + now.written;
        assert(now.read + now.line == whole);
        assert forall|i: int| 0 <= i < now.read.len() implies #[trigger] now.read[i] == (if i
            < latency {
            SILENCE
        } else {
            now.written[i - latency]
        }) by {
            assert((now.read + now.line)[i] == now.read[i]);
            assert(whole.len() == now.read.len() + now.line.len());
            if i < latency {
                assert(whole[i] == silence(latency)[i]);
            } else {
                assert(whole[i] == now.written[i - latency]);
            }
        }
    }
}

proof fn lemma_line_keeps_all(latency: nat, uses: Seq<Use>)
    ensures
        ({
            let now = passage(latency, uses);
            &&& drawn(now.read, now.genuine) + now.line == silence(latency) + now.written
            &&& now.line.len() <= 2 * latency
            &&& now.genuine.len() == now.read.len()
            &&& forall|i: int|
                0 <= i < now.read.len() && !now.genuine[i] ==> #[trigger] now.read[i] == SILENCE
            &&& never_starved(latency, uses) ==> forall|i: int|
                0 <= i < now.genuine.len() ==> #[trigger] now.genuine[i]
        }),
    decreases uses.len(),
{
    let now = passage(latency, uses);
    if uses.len() == 0 {
        assert(drawn(now.read, now.genuine) + now.line =~= silence(latency) + now.written);
    } else {
        let before = passage(latency, uses.drop_last());
        lemma_line_keeps_all(latency, uses.drop_last());
        match uses.last() {
            Use::Write(data) => {
                let kept = data.take(fitting(capacity_for(latency), before.line, data));
                assert(drawn(now.read, now.genuine) + now.line =~= (drawn(before.read, before.genuine)
                    + before.line) + kept);
                assert(silence(latency) + now.written =~= (silence(latency) + before.written)
                    + kept);
            },
            Use::Read(count) => {
                lemma_drawn_grows(before.read, before.genuine, before.line, count);
                let n = if count <= before.line.len() {
                    count as int
                } else {
                    before.line.len() as int
                };
                assert(before.line =~= before.line.take(n) + now.line);
                assert(drawn(now.read, now.genuine) + now.line =~= drawn(before.read, before.genuine)
                    + before.line);
                assert forall|i: int| 0 <= i < now.read.len() && !now.genuine[i] implies
                    #[trigger] now.read[i] == SILENCE by {
                    if i < before.read.len() {
                        assert(now.read[i] == before.read[i]);
                        assert(now.genuine[i] == before.genuine[i]);
                    }
                }
            },
        }
    }
}

} // verus!
