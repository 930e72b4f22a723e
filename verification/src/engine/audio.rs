//! Audio devices and the analysis of the input.
use vstd::prelude::*;

use super::config::Config;
use super::delay::{pass_on, DelayLine};
use crate::number::Single;
use crate::text::same_text;

verus! {

// -- Devices

/// A device as it is listed.
#[derive(Debug)]
pub struct DeviceInfo {
    pub name: String,
    pub selected: bool,
}

impl View for DeviceInfo {
    type V = (Seq<char>, bool);

    open spec fn view(&self) -> (Seq<char>, bool) {
        (self.name@, self.selected)
    }
}

impl DeviceInfo {
    /// The name of the device.
    pub fn to_string(&self) -> (r: String)
        ensures
            r@ == self@.0,
    {
        self.name.clone()
    }
}

/// The model of a list of devices.
pub open spec fn devices_view(devices: Seq<DeviceInfo>) -> Seq<(Seq<char>, bool)> {
    devices.map_values(|d: DeviceInfo| d@)
}

/// The model of a list of names.
pub open spec fn names_view(names: Seq<String>) -> Seq<Seq<char>> {
    names.map_values(|n: String| n@)
}

/// The model of an optional text.
pub open spec fn str_view(t: Option<&str>) -> Option<Seq<char>> {
    match t {
        Some(s) => Some(s@),
        None => None,
    }
}

/// The listing of devices: each of the names, those that are the current one
/// marked as selected.
pub open spec fn device_listing(
    names: Seq<Seq<char>>,
    current: Option<Seq<char>>,
) -> Seq<(Seq<char>, bool)> {
    names.map_values(|name: Seq<char>| (name, current == Some(name)))
}

/// Whether any device of a listing is selected.
pub open spec fn any_selected(devices: Seq<(Seq<char>, bool)>) -> bool {
    exists|i: int| 0 <= i < devices.len() && (#[trigger] devices[i]).1
}

/// Whether the first device of the given name is the one at `i`.
pub open spec fn first_named(names: Seq<Seq<char>>, name: Seq<char>, i: int) -> bool {
    &&& 0 <= i < names.len()
    &&& names[i] == name
    &&& forall|k: int| 0 <= k < i ==> names[k] != name
}

fn mark_devices(names: &Vec<String>, current: Option<&str>) -> (r: Vec<DeviceInfo>)
    ensures
        devices_view(r@) == device_listing(names_view(names@), str_view(current)),
{
    let mut info: Vec<DeviceInfo> = Vec::new();
    let mut i: usize = 0;
    while i < names.len()
        invariant
            i <= names.len(),
            info@.len() == i,
            forall|k: int|
                0 <= k < i ==> (#[trigger] info@[k])@ == (names@[k]@, str_view(current) == Some(
                    names@[k]@,
                )),
        decreases names.len() - i,
    {
        let name = names[i].clone();
        let selected = match current {
            Some(current_name) => same_text(current_name, name.as_str()),
            None => false,
        };
        info.push(DeviceInfo { name, selected });
        i = i + 1;
    }
    assert(devices_view(info@) =~= device_listing(names_view(names@), str_view(current)));
    info
}

/// Lists the input devices of the given names.
pub fn input_device_info(names: &Vec<String>, current_input_device: Option<&str>) -> (r: Vec<
    DeviceInfo,
>)
    ensures
        devices_view(r@) == device_listing(names_view(names@), str_view(current_input_device)),
{
    mark_devices(names, current_input_device)
}

/// Lists the output devices of the given names.
pub fn output_device_info(names: &Vec<String>, current_output_device: Option<&str>) -> (r: Vec<
    DeviceInfo,
>)
    ensures
        devices_view(r@) == device_listing(names_view(names@), str_view(current_output_device)),
{
    mark_devices(names, current_output_device)
}

/// Whether any device of a listing is selected.
pub fn has_selected(devices: &Vec<DeviceInfo>) -> (r: bool)
    ensures
        r == any_selected(devices_view(devices@)),
{
    let ghost listing = devices_view(devices@);
    let mut i: usize = 0;
    while i < devices.len()
        invariant
            i <= devices.len(),
            listing == devices_view(devices@),
            forall|k: int| 0 <= k < i ==> !(#[trigger] listing[k]).1,
        decreases devices.len() - i,
    {
        assert(listing[i as int] == devices@[i as int]@);
        if devices[i].selected {
            return true;
        }
        i = i + 1;
    }
    false
}

/// Where the first device of the given name stands.
pub fn find_device(names: &Vec<String>, name: &str) -> (r: Option<usize>)
    ensures
        match r {
            Some(i) => first_named(names_view(names@), name@, i as int),
            None => !names_view(names@).contains(name@),
        },
{
    let ghost all = names_view(names@);
    let mut i: usize = 0;
    while i < names.len()
        invariant
            i <= names.len(),
            all == names_view(names@),
            forall|k: int| 0 <= k < i ==> all[k] != name@,
        decreases names.len() - i,
    {
        assert(all[i as int] == names@[i as int]@);
        if same_text(names[i].as_str(), name) {
            return Some(i);
        }
        i = i + 1;
    }
    None
}

/// The buffer size to ask of the input stream, in frames, where the device
/// offers a range of them: as small as the device allows, but no less than
/// this. A large buffer would have the operating system wait for audio that
/// the lights could already follow.
pub const SMALLEST_BUFFER: u32 = 256;

/// The buffer size to ask of the streams.
pub open spec fn buffer_request(least: Option<u32>) -> Option<u32> {
    match least {
        Some(min) => Some(if min >= SMALLEST_BUFFER {
            min
        } else {
            SMALLEST_BUFFER
        }),
        None => None,
    }
}

/// The size that is asked for is the smallest that the device offers and that
/// is not below 256. Without a range none is asked for.
pub proof fn lemma_small_buffers(least: u32, other: u32)
    ensures
        buffer_request(None) is None,
        buffer_request(Some(least)) is Some,
        buffer_request(Some(least))->0 >= least,
        buffer_request(Some(least))->0 >= 256,
        other >= least && other >= 256 ==> buffer_request(Some(least))->0 <= other,
{
}

/// A listing holds every name in its place, selected exactly if it is the
/// current one.
pub proof fn lemma_listing_marks_current(
    names: Seq<Seq<char>>,
    current: Option<Seq<char>>,
    i: int,
)
    requires
        0 <= i < names.len(),
    ensures
        device_listing(names, current).len() == names.len(),
        device_listing(names, current)[i].0 == names[i],
        device_listing(names, current)[i].1 <==> current is Some && current->0 == names[i],
        any_selected(device_listing(names, current)) <==> current is Some && names.contains(
            current->0,
        ),
{
    let list = device_listing(names, current);
    if any_selected(list) {
        let k = choose|k: int| 0 <= k < list.len() && (#[trigger] list[k]).1;
        assert(names[k] == current->0);
    }
    if current is Some && names.contains(current->0) {
        let k = choose|k: int| 0 <= k < names.len() && names[k] == current->0;
        assert(list[k].1);
    }
}

/// A device is listed under its name and mark, a name as it is.
pub proof fn lemma_device_models(devices: Seq<DeviceInfo>, names: Seq<String>, s: &str, i: int)
    ensures
        devices_view(devices).len() == devices.len(),
        0 <= i < devices.len() ==> devices_view(devices)[i] == (
            devices[i].name@,
            devices[i].selected,
        ),
        names_view(names).len() == names.len(),
        0 <= i < names.len() ==> names_view(names)[i] == names[i]@,
        str_view(Some(s)) == Some(s@),
        str_view(None) is None,
{
}

/// The buffer size to ask of the streams, given the least that the device
/// offers, if it offers a range.
pub fn stream_buffer_size(least: Option<u32>) -> (r: Option<u32>)
    ensures
        r == buffer_request(least),
{
    match least {
        Some(min) => {
            if min >= SMALLEST_BUFFER {
                Some(min)
            } else {
                Some(SMALLEST_BUFFER)
            }
        },
        None => None,
    }
}

// -- Analysis

/// The state of the input analysis. Times are in nanoseconds on one clock.
#[verifier::ext_equal]
pub struct AnalyserView {
    /// How many samples are analysed at once.
    pub size: nat,
    /// The least time between two analyses.
    pub min_period: nat,
    /// The samples to be analysed next.
    pub buffer: Seq<u32>,
    /// The frequency of the last analysis.
    pub freq: Single,
    /// The frequency of the analysis before.
    pub old_freq: Single,
    /// The time between the last two analyses.
    pub period: nat,
    /// When the last analysis was made.
    pub last: nat,
}

/// Collects input until there is enough to analyse.
pub struct Analyser {
    size: usize,
    min_period: u128,
    buffer: Vec<u32>,
    freq: Single,
    old_freq: Single,
    period: u128,
    last: u128,
}

/// The time from one instant to another, none if the other is earlier.
pub open spec fn time_since(now: nat, then: nat) -> nat {
    if now >= then {
        (now - then) as nat
    } else {
        0
    }
}

fn nanos_since(now: u128, then: u128) -> (r: u128)
    ensures
        r == time_since(now as nat, then as nat),
{
    if now >= then {
        now - then
    } else {
        0
    }
}

/// The state in which nothing was heard yet.
pub open spec fn fresh(size: nat, min_period: nat, now: nat) -> AnalyserView {
    AnalyserView {
        size,
        min_period,
        buffer: Seq::empty(),
        freq: Single::spec_zero(),
        old_freq: Single::spec_zero(),
        period: 0,
        last: now,
    }
}

/// Whether input is kept: some was taken up, and the buffer is not full.
pub open spec fn collects(v: AnalyserView, written: nat) -> bool {
    written > 0 && v.buffer.len() < v.size
}

/// Whether the buffer is analysed: some input was taken up, the buffer is
/// full, and the last analysis is more than the least time ago.
pub open spec fn analyses(v: AnalyserView, written: nat, now: nat) -> bool {
    written > 0 && v.buffer.len() >= v.size && time_since(now, v.last) > v.min_period
}

/// The state after input of which `written` samples were taken up.
pub open spec fn accepted(v: AnalyserView, data: Seq<u32>, written: nat, now: nat) -> AnalyserView {
    if collects(v, written) {
        let capacity = v.size - v.buffer.len();
        let kept = if written <= capacity {
            written as int
        } else {
            capacity
        };
        AnalyserView { buffer: v.buffer + data.take(kept), ..v }
    } else if analyses(v, written, now) {
        AnalyserView { period: time_since(now, v.last), last: now, ..v }
    } else {
        v
    }
}

/// The state after an analysis that found the given frequency.
pub open spec fn analysed(v: AnalyserView, freq: Single) -> AnalyserView {
    AnalyserView { buffer: Seq::empty(), old_freq: v.freq, freq, ..v }
}

/// The buffer as frames of two samples, left and right. A sample that is left
/// over is dropped.
pub open spec fn stereo(buffer: Seq<u32>) -> Seq<(Single, Single)> {
    Seq::new(
        buffer.len() / 2,
        |i: int| (Single { bits: buffer[2 * i] }, Single { bits: buffer[2 * i + 1] }),
    )
}

impl View for Analyser {
    type V = AnalyserView;

    closed spec fn view(&self) -> AnalyserView {
        AnalyserView {
            size: self.size as nat,
            min_period: self.min_period as nat,
            buffer: self.buffer@,
            freq: self.freq,
            old_freq: self.old_freq,
            period: self.period as nat,
            last: self.last as nat,
        }
    }
}

impl Analyser {
    /// Whether the buffer holds no more than is analysed at once.
    pub open spec fn wf(&self) -> bool {
        self@.buffer.len() <= self@.size
    }

    /// An analyser that has heard nothing yet.
    pub fn new(config: &Config, now: u128) -> (r: Analyser)
        ensures
            r.wf(),
            r@ == fresh(config.buffer_size as nat, config.min_period as nat, now as nat),
    {
        Analyser {
            size: config.buffer_size,
            min_period: config.min_period,
            buffer: Vec::new(),
            freq: Single::zero(),
            old_freq: Single::zero(),
            period: 0,
            last: now,
        }
    }

    /// Takes in input of which `written` samples were taken up, and says
    /// whether the buffer is to be analysed now.
    ///
    /// Input is collected until the buffer is full. Once it is, input is
    /// dropped until the least time between two analyses is over.
    pub fn accept(&mut self, data: &[u32], written: usize, now: u128) -> (r: bool)
        requires
            old(self).wf(),
            written <= data@.len(),
        ensures
            final(self).wf(),
            r == analyses(old(self)@, written as nat, now as nat),
            final(self)@ == accepted(old(self)@, data@, written as nat, now as nat),
    {
        if written == 0 {
            return false;
        }
        if self.buffer.len() < self.size {
            let capacity: usize = self.size - self.buffer.len();
            let kept: usize = if written <= capacity { written } else { capacity };
            let ghost before = self.buffer@;
            let mut i: usize = 0;
            assert(before + data@.take(0) =~= before);
            while i < kept
                invariant
                    i <= kept <= data@.len(),
                    self.buffer@ == before + data@.take(i as int),
                    self.size == old(self).size,
                    self.min_period == old(self).min_period,
                    self.freq == old(self).freq,
                    self.old_freq == old(self).old_freq,
                    self.period == old(self).period,
                    self.last == old(self).last,
                decreases kept - i,
            {
                self.buffer.push(data[i]);
                i = i + 1;
                assert(self.buffer@ =~= before + data@.take(i as int));
            }
            false
        } else if nanos_since(now, self.last) > self.min_period {
            self.period = nanos_since(now, self.last);
            self.last = now;
            true
        } else {
            false
        }
    }

    /// Handles a block of input: hands it on to the delay line if the output
    /// plays it, takes it in, and says whether the buffer is to be analysed
    /// now.
    pub fn hear(
        &mut self,
        loopback: bool,
        line: &mut DelayLine,
        data: &[u32],
        now: u128,
    ) -> (r: bool)
        requires
            old(self).wf(),
            old(line).wf(),
        ensures
            final(self).wf(),
            final(line).wf(),
            final(line).capacity() == old(line).capacity(),
            ({
                let written = super::delay::taken_up(
                    loopback,
                    old(line).capacity(),
                    old(line)@,
                    data@,
                );
                &&& final(line)@ == super::delay::handed_on(
                    loopback,
                    old(line).capacity(),
                    old(line)@,
                    data@,
                )
                &&& r == analyses(old(self)@, written as nat, now as nat)
                &&& final(self)@ == accepted(old(self)@, data@, written as nat, now as nat)
            }),
    {
        let written = pass_on(loopback, line, data);
        self.accept(data, written, now)
    }

    /// The buffer as frames of two samples, left and right.
    pub fn frames(&self) -> (r: Vec<(Single, Single)>)
        ensures
            r@ == stereo(self@.buffer),
    {
        let len: usize = self.buffer.len();
        let count: usize = len / 2;
        let mut frames: Vec<(Single, Single)> = Vec::new();
        let mut i: usize = 0;
        while i < count
            invariant
                i <= count,
                len == self.buffer@.len(),
                count == len / 2,
                frames@ == stereo(self.buffer@).take(i as int),
            decreases count - i,
        {
            let left = Single { bits: self.buffer[2 * i] };
            let right = Single { bits: self.buffer[2 * i + 1] };
            frames.push((left, right));
            i = i + 1;
            assert(frames@ =~= stereo(self.buffer@).take(i as int));
        }
        assert(frames@ =~= stereo(self.buffer@));
        frames
    }

    /// Takes note of the frequency that an analysis found, and starts over
    /// with an empty buffer.
    pub fn record(&mut self, freq: Single)
        requires
            old(self).wf(),
        ensures
            final(self).wf(),
            final(self)@ == analysed(old(self)@, freq),
    {
        self.old_freq = self.freq;
        self.freq = freq;
        self.buffer.clear();
    }

    /// The frequencies of the last analysis and the one before it.
    pub fn frequencies(&self) -> (r: (Single, Single))
        ensures
            r == (self@.freq, self@.old_freq),
    {
        (self.freq, self.old_freq)
    }

    /// How long ago the last analysis was, and how long it came after the one
    /// before.
    pub fn progress(&self, now: u128) -> (r: (u128, u128))
        ensures
            r.0 == time_since(now as nat, self@.last),
            r.1 == self@.period,
    {
        (nanos_since(now, self.last), self.period)
    }
}

/// Whether `bin` is where the spectrum is loudest: the first of its loudest
/// bins, or the first of all if none is above zero.
pub open spec fn loudest(norms: Seq<Single>, bin: int) -> bool {
    if forall|i: int| 0 <= i < norms.len() ==> !Single::spec_zero().below(#[trigger] norms[i]) {
        bin == 0
    } else {
        &&& 0 <= bin < norms.len()
        &&& Single::spec_zero().below(norms[bin])
        &&& forall|i: int| 0 <= i < norms.len() ==> !norms[bin].below(#[trigger] norms[i])
        &&& forall|i: int| 0 <= i < bin ==> !norms[bin].at_most(#[trigger] norms[i])
    }
}

/// The first half of a spectrum.
pub open spec fn first_half(norms: Seq<Single>) -> Seq<Single> {
    norms.take(norms.len() as int / 2)
}

/// Finds the bin of a spectrum that is loudest, given the magnitude of each.
/// Only the first half counts: the second mirrors it.
pub fn loudest_bin(norms: &Vec<Single>) -> (r: usize)
    ensures
        loudest(first_half(norms@), r as int),
{
    let half: usize = norms.len() / 2;
    let ghost first = norms@.take(half as int);
    let mut max: Single = Single::zero();
    let mut index: usize = 0;
    let mut i: usize = 0;
    while i < half
        invariant
            i <= half <= norms@.len(),
            first == norms@.take(half as int),
            max == Single::spec_zero() ==> index == 0 && forall|k: int|
                0 <= k < i ==> !Single::spec_zero().below(#[trigger] first[k]),
            max != Single::spec_zero() ==> index < i && max == first[index as int]
                && Single::spec_zero().below(max),
            !max.nan(),
            forall|k: int| 0 <= k < i ==> !max.below(#[trigger] first[k]),
            forall|k: int| 0 <= k < index ==> !max.at_most(#[trigger] first[k]),
        decreases half - i,
    {
        let norm = norms[i];
        assert(first[i as int] == norm);
        if max.lt(norm) {
            max = norm;
            index = i;
        }
        i = i + 1;
    }
    index
}

/// No bin is louder than the loudest, none before it is as loud, and it is
/// above zero if any is.
pub proof fn lemma_loudest_is_first_maximum(norms: Seq<Single>, bin: int, i: int)
    requires
        loudest(norms, bin),
        0 <= i < norms.len(),
    ensures
        norms[i].bits > 0 && norms[i].bits <= 0x7f80_0000 ==> {
            &&& 0 <= bin < norms.len()
            &&& 0 < norms[bin].bits <= 0x7f80_0000
            &&& norms[i].bits <= norms[bin].bits
            &&& i < bin ==> norms[i].bits < norms[bin].bits
        },
        (forall|k: int|
            0 <= k < norms.len() ==> !Single::spec_zero().below(#[trigger] norms[k])) ==> bin == 0,
{
    if norms[i].bits > 0 && norms[i].bits <= 0x7f80_0000 {
        assert(Single::spec_zero().below(norms[i]));
    }
}

/// The first half of a spectrum is its bins from the first on, half as many,
/// rounded down.
pub proof fn lemma_first_half(norms: Seq<Single>, i: int)
    ensures
        first_half(norms).len() <= norms.len() - first_half(norms).len() <= first_half(norms).len()
            + 1,
        0 <= i < first_half(norms).len() ==> first_half(norms)[i] == norms[i],
{
}

/// A spectrum has one loudest bin.
pub proof fn lemma_loudest_is_determined(norms: Seq<Single>, a: int, b: int)
    requires
        loudest(norms, a),
        loudest(norms, b),
    ensures
        a == b,
{
    if a < b && !norms[b].at_most(norms[a]) {
        assert(!norms[a].below(norms[b]));
    }
    if b < a && !norms[a].at_most(norms[b]) {
        assert(!norms[b].below(norms[a]));
    }
}

/// The time since an earlier instant is what has to be added to it; since a
/// later one no time has passed.
pub proof fn lemma_time_passes(now: nat, then: nat)
    ensures
        then <= now ==> then + time_since(now, then) == now,
        now <= then ==> time_since(now, then) == 0,
{
}

/// A new analyser has heard nothing: its buffer is empty, and both frequencies
/// are zero.
pub proof fn lemma_fresh_analyser(size: nat, min_period: nat, now: nat)
    ensures
        fresh(size, min_period, now).size == size,
        fresh(size, min_period, now).min_period == min_period,
        fresh(size, min_period, now).buffer.len() == 0,
        fresh(size, min_period, now).freq.bits == 0,
        fresh(size, min_period, now).old_freq.bits == 0,
        fresh(size, min_period, now).period == 0,
        fresh(size, min_period, now).last == now,
{
}

/// While the buffer is not full, a block of input makes it longer by all that
/// was taken up, or by as much as there is room for. What it held stays, the
/// new samples are the first of the block, in their order, and nothing is
/// analysed.
pub proof fn lemma_input_is_collected(
    v: AnalyserView,
    data: Seq<u32>,
    written: nat,
    now: nat,
    i: int,
)
    requires
        v.buffer.len() < v.size,
        written <= data.len(),
    ensures
        ({
            let w = accepted(v, data, written, now);
            let free = v.size - v.buffer.len();
            &&& !analyses(v, written, now)
            &&& written <= free ==> w.buffer.len() == v.buffer.len() + written
            &&& written >= free ==> w.buffer.len() == v.size
            &&& 0 <= i < v.buffer.len() ==> w.buffer[i] == v.buffer[i]
            &&& v.buffer.len() <= i < w.buffer.len() ==> w.buffer[i] == data[i - v.buffer.len()]
            &&& w == (AnalyserView { buffer: w.buffer, ..v })
        }),
{
    let w = accepted(v, data, written, now);
    assert(w =~= (AnalyserView { buffer: w.buffer, ..v }));
}

/// The state after some blocks of input, all of which were taken up, while
/// nothing was analysed.
pub open spec fn after_blocks(v: AnalyserView, blocks: Seq<Seq<u32>>, now: nat) -> AnalyserView
    decreases blocks.len(),
{
    if blocks.len() == 0 {
        v
    } else {
        let before = after_blocks(v, blocks.drop_last(), now);
        accepted(before, blocks.last(), blocks.last().len(), now)
    }
}

/// The buffer has no gaps: after any blocks of input it holds them one behind
/// the other, cut at its size.
pub proof fn lemma_blocks_are_joined(v: AnalyserView, blocks: Seq<Seq<u32>>, now: nat)
    requires
        v.buffer.len() == 0,
    ensures
        after_blocks(v, blocks, now).buffer == blocks.flatten().take(
            if blocks.flatten().len() <= v.size {
                blocks.flatten().len() as int
            } else {
                v.size as int
            },
        ),
        after_blocks(v, blocks, now).size == v.size,
    decreases blocks.len(),
{
    if blocks.len() == 0 {
        blocks.lemma_flatten_and_flatten_alt_are_equivalent();
        assert(blocks.flatten().len() == 0);
        assert(v.buffer =~= blocks.flatten().take(0));
    } else {
        let rest = blocks.drop_last();
        let block = blocks.last();
        lemma_blocks_are_joined(v, rest, now);
        blocks.lemma_flatten_and_flatten_alt_are_equivalent();
        rest.lemma_flatten_and_flatten_alt_are_equivalent();
        assert(blocks.flatten() == rest.flatten() + block);
        let before = after_blocks(v, rest, now);
        let w = accepted(before, block, block.len(), now);
        if before.buffer.len() < before.size {
            assert(before.buffer =~= rest.flatten());
        }
        assert(w.buffer =~= blocks.flatten().take(
            if blocks.flatten().len() <= v.size {
                blocks.flatten().len() as int
            } else {
                v.size as int
            },
        ));
    }
}

/// The buffer is analysed exactly if it is full, more than the least time has
/// passed since the last analysis, and some input was taken up. Otherwise input
/// that comes to a full buffer is dropped and nothing changes.
pub proof fn lemma_analysis_is_due(v: AnalyserView, data: Seq<u32>, written: nat, now: nat)
    requires
        v.buffer.len() <= v.size,
        written <= data.len(),
    ensures
        analyses(v, written, now) <==> written > 0 && v.buffer.len() == v.size && now > v.last
            + v.min_period,
        v.buffer.len() == v.size && !analyses(v, written, now) ==> accepted(v, data, written, now)
            == v,
        written == 0 ==> accepted(v, data, written, now) == v,
        analyses(v, written, now) ==> accepted(v, data, written, now) == (AnalyserView {
            period: (now - v.last) as nat,
            last: now,
            ..v
        }),
{
}

/// An analysis notes the frequency that it found and the one before it, empties
/// the buffer, and changes nothing else.
pub proof fn lemma_analysis_is_noted(v: AnalyserView, first: Single, second: Single)
    ensures
        ({
            let w = analysed(v, first);
            let x = analysed(w, second);
            &&& w.buffer.len() == 0 && x.buffer.len() == 0
            &&& w.freq == first && w.old_freq == v.freq
            &&& x.freq == second && x.old_freq == first
            &&& w == (AnalyserView {
                buffer: w.buffer,
                freq: w.freq,
                old_freq: w.old_freq,
                ..v
            })
        }),
{
}

/// The frames are the samples of the buffer two by two, in their order, left
/// before right: one behind the other they are the buffer again, but for a
/// sample that is left over.
pub proof fn lemma_frames_are_the_buffer(buffer: Seq<u32>, i: int)
    ensures
        2 * stereo(buffer).len() <= buffer.len() <= 2 * stereo(buffer).len() + 1,
        0 <= i < 2 * stereo(buffer).len() ==> buffer[i] == (if i % 2 == 0 {
            stereo(buffer)[i / 2].0.bits
        } else {
            stereo(buffer)[i / 2].1.bits
        }),
{
    if 0 <= i < 2 * stereo(buffer).len() {
        assert(i == 2 * (i / 2) + i % 2);
    }
}

/// An analysis is made of a full buffer only, and never sooner after the last
/// than the least time allows; then the buffer starts out empty.
pub proof fn lemma_analysis_is_paced(
    v: AnalyserView,
    data: Seq<u32>,
    written: nat,
    now: nat,
    freq: Single,
)
    requires
        v.buffer.len() <= v.size,
        analyses(v, written, now),
    ensures
        accepted(v, data, written, now).buffer == v.buffer,
        v.buffer.len() == v.size,
        accepted(v, data, written, now).period > v.min_period,
        accepted(v, data, written, now).last == v.last + accepted(v, data, written, now).period,
        analysed(accepted(v, data, written, now), freq).buffer.len() == 0,
        analysed(accepted(v, data, written, now), freq).old_freq == v.freq,
{
}

} // verus!
