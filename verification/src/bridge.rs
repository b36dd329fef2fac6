//! The streaming bridge, seen from its consumer: messages arrive in order
//! from the audio source, sample data is accumulated, and the terminal
//! message ends the stream.

use vstd::prelude::*;

verus! {

/// A message of the audio source.
#[derive(Debug, Clone, PartialEq, Eq)]
pub enum SinkEvent {
    /// Decoded samples, with the bytes delivered so far and the expected
    /// total. The total is an estimate and only serves the progress display.
    Write { bytes: usize, total: usize, content: Vec<i32> },
    /// The stream is complete; no message follows.
    Finished,
}

/// Mathematical model of [`SinkEvent`].
pub enum SinkEventView {
    Write { bytes: nat, total: nat, content: Seq<i32> },
    Finished,
}

impl View for SinkEvent {
    type V = SinkEventView;

    open spec fn view(&self) -> SinkEventView {
        match self {
            SinkEvent::Write { bytes, total, content } => SinkEventView::Write {
                bytes: *bytes as nat,
                total: *total as nat,
                content: content@,
            },
            SinkEvent::Finished => SinkEventView::Finished,
        }
    }
}

/// The decoded audio of one track, ready for the encoder.
#[derive(Debug, Clone, PartialEq, Eq)]
pub struct SampleBuffer {
    pub samples: Vec<i32>,
    pub sample_rate: u32,
    pub channels: u32,
    pub bits_per_sample: u32,
}

/// Sample rate at which the audio source decodes.
pub const SAMPLE_RATE: u32 = 44100;

/// Number of channels that the audio source decodes.
pub const CHANNELS: u32 = 2;

/// Bit depth at which the audio source decodes.
pub const BITS_PER_SAMPLE: u32 = 16;

/// Mathematical model of the consumer's state.
pub struct BridgeView {
    /// The sample data received so far, in order of receipt.
    pub samples: Seq<i32>,
    /// Bytes delivered so far, as the last message reported them.
    pub position: nat,
    /// Expected total, as the last message reported it.
    pub total: nat,
    /// Whether the terminal message has arrived.
    pub finished: bool,
}

impl BridgeView {
    /// The consumer before any message.
    pub open spec fn start() -> BridgeView {
        BridgeView { samples: Seq::empty(), position: 0, total: 0, finished: false }
    }

    /// The consumer after one more message. Once finished it takes nothing.
    pub open spec fn receive(self, event: SinkEventView) -> BridgeView {
        if self.finished {
            self
        } else {
            match event {
                SinkEventView::Write { bytes, total, content } => BridgeView {
                    samples: self.samples + content,
                    position: bytes,
                    total: total,
                    finished: false,
                },
                SinkEventView::Finished => BridgeView { finished: true, ..self },
            }
        }
    }

    /// The consumer after a sequence of messages, taken in order.
    pub open spec fn receive_all(self, events: Seq<SinkEventView>) -> BridgeView
        decreases events.len(),
    {
        if events.len() == 0 {
            self
        } else {
            self.receive_all(events.drop_last()).receive(events.last())
        }
    }
}

/// The sample data of a sequence of messages, message by message; the
/// terminal message carries none.
pub open spec fn contents(events: Seq<SinkEventView>) -> Seq<Seq<i32>> {
    events.map_values(
        |e: SinkEventView|
            match e {
                SinkEventView::Write { bytes, total, content } => content,
                SinkEventView::Finished => Seq::empty(),
            },
    )
}

/// Whether every message of the sequence delivers data.
pub open spec fn all_writes(events: Seq<SinkEventView>) -> bool {
    forall|i: int| 0 <= i < events.len() ==> #[trigger] events[i] is Write
}

/// The consumer of one track's stream. It owns the samples until they are
/// handed to the encoder.
#[derive(Debug)]
pub struct Bridge {
    samples: Vec<i32>,
    position: usize,
    total: usize,
    finished: bool,
}

impl View for Bridge {
    type V = BridgeView;

    closed spec fn view(&self) -> BridgeView {
        BridgeView {
            samples: self.samples@,
            position: self.position as nat,
            total: self.total as nat,
            finished: self.finished,
        }
    }
}

impl Bridge {
    /// A consumer that has received nothing.
    pub fn new() -> (bridge: Bridge)
        ensures
            bridge@ == BridgeView::start(),
    {
        Bridge { samples: Vec::new(), position: 0, total: 0, finished: false }
    }

    /// Takes the next message: data is appended behind what was received
    /// before, the terminal message ends the stream, and whatever comes
    /// after the terminal message is dropped.
    pub fn receive(&mut self, event: SinkEvent)
        ensures
            final(self)@ == old(self)@.receive(event@),
    {
        if self.finished {
            return ;
        }
        match event {
            SinkEvent::Write { bytes, total, content } => {
                let mut content = content;
                self.samples.append(&mut content);
                self.position = bytes;
                self.total = total;
            },
            SinkEvent::Finished => {
                self.finished = true;
            },
        }
    }

    /// Whether the terminal message has arrived.
    pub fn is_finished(&self) -> (finished: bool)
        ensures
            finished == self@.finished,
    {
        self.finished
    }

    /// Bytes delivered so far, as the last message reported them.
    pub fn position(&self) -> (position: usize)
        ensures
            position == self@.position,
    {
        self.position
    }

    /// Expected total, as the last message reported it.
    pub fn total(&self) -> (total: usize)
        ensures
            total == self@.total,
    {
        self.total
    }

    /// Number of samples received so far.
    pub fn sample_count(&self) -> (count: usize)
        ensures
            count == self@.samples.len(),
    {
        self.samples.len()
    }

    /// Hands out what was received, in order of receipt, and keeps nothing.
    pub fn take_samples(&mut self) -> (buffer: SampleBuffer)
        ensures
            buffer.samples@ == old(self)@.samples,
            buffer.sample_rate == SAMPLE_RATE,
            buffer.channels == CHANNELS,
            buffer.bits_per_sample == BITS_PER_SAMPLE,
            final(self)@ == (BridgeView { samples: Seq::empty(), ..old(self)@ }),
    {
        let mut samples: Vec<i32> = Vec::new();
        samples.append(&mut self.samples);
        assert(samples@ =~= old(self)@.samples);
        SampleBuffer {
            samples,
            sample_rate: SAMPLE_RATE,
            channels: CHANNELS,
            bits_per_sample: BITS_PER_SAMPLE,
        }
    }
}

/// Receiving two sequences in turn is receiving their concatenation.
pub proof fn lemma_receive_all_concat(
    state: BridgeView,
    first: Seq<SinkEventView>,
    second: Seq<SinkEventView>,
)
    ensures
        state.receive_all(first + second) == state.receive_all(first).receive_all(second),
    decreases second.len(),
{
    if second.len() == 0 {
        assert(first + second =~= first);
    } else {
        assert((first + second).drop_last() =~= first + second.drop_last());
        assert((first + second).last() == second.last());
        lemma_receive_all_concat(state, first, second.drop_last());
    }
}

/// Nothing is processed after the terminal message: a finished consumer is
/// the same after any further messages.
pub proof fn lemma_finished_is_final(state: BridgeView, events: Seq<SinkEventView>)
    requires
        state.finished,
    ensures
        state.receive_all(events) == state,
    decreases events.len(),
{
    if events.len() > 0 {
        lemma_finished_is_final(state, events.drop_last());
    }
}

/// After a sequence of data messages the consumer holds their data,
/// concatenated in order of receipt, and is not finished.
pub proof fn lemma_writes_accumulate(state: BridgeView, writes: Seq<SinkEventView>)
    requires
        !state.finished,
        all_writes(writes),
    ensures
        state.receive_all(writes).samples == state.samples + contents(writes).flatten(),
        !state.receive_all(writes).finished,
        writes.len() > 0 ==> state.receive_all(writes).position == writes.last()->bytes,
    decreases writes.len(),
{
    if writes.len() == 0 {
        assert(contents(writes) =~= Seq::<Seq<i32>>::empty());
        assert(state.samples + contents(writes).flatten() =~= state.samples);
    } else {
        let before = writes.drop_last();
        let last = writes.last();
        assert(last is Write);
        assert forall|i: int| 0 <= i < before.len() implies #[trigger] before[i] is Write by {
            assert(before[i] == writes[i]);
        }
        lemma_writes_accumulate(state, before);
        assert(contents(writes) =~= contents(before).push(last->content));
        contents(before).lemma_flatten_push(last->content);
        let mid = state.receive_all(before);
        assert(mid.samples + last->content =~= state.samples + (contents(before).flatten()
            + last->content));
    }
}

/// Ordering of the bridge: after data messages followed by the terminal
/// message, the accumulated buffer is the concatenation of all chunks in
/// order of receipt, and whatever follows the terminal message changes
/// nothing.
pub proof fn lemma_bridge_order(writes: Seq<SinkEventView>, rest: Seq<SinkEventView>)
    requires
        all_writes(writes),
    ensures
        ({
            let end = BridgeView::start().receive_all(
                writes.push(SinkEventView::Finished) + rest,
            );
            &&& end.finished
            &&& end.samples == contents(writes).flatten()
            &&& end == BridgeView::start().receive_all(writes.push(SinkEventView::Finished))
        }),
{
    let start = BridgeView::start();
    let stream = writes.push(SinkEventView::Finished);
    lemma_writes_accumulate(start, writes);
    assert(stream.drop_last() =~= writes);
    let done = start.receive_all(stream);
    assert(done == start.receive_all(writes).receive(SinkEventView::Finished));
    assert(Seq::<i32>::empty() + contents(writes).flatten() =~= contents(writes).flatten());
    lemma_receive_all_concat(start, stream, rest);
    lemma_finished_is_final(done, rest);
}

} // verus!
