//! The detection lifecycle state machine.
//!
//! A `Context` consumes one classification result and one clock reading per
//! cycle and decides whether to keep scanning, debounce a detection, stream
//! encoded frames, or pause in a cooldown window. Timestamps are ticks of a
//! monotonic clock; the unit is the caller's choice, as long as the
//! configured durations use the same unit.

use vstd::prelude::*;

verus! {

/// The five phases of the detection lifecycle.
#[derive(Debug, Clone, Copy, PartialEq, Eq, Structural)]
pub enum DetectionState {
    /// Actively classifying frames.
    Running,
    /// The streaming window has elapsed; the next tick enters the pause.
    StreamEnd,
    /// A positive classification is pending debounce evaluation; the value
    /// is the tick at which it was observed.
    Detected(u64),
    /// Scanning and streaming are suppressed since the given tick.
    Paused(u64),
    /// Encoded frames are being emitted since the given tick.
    Streaming(u64),
}

/// The detection lifecycle: the current state plus its debounce and
/// duration configuration.
#[derive(Debug, Clone, Copy, PartialEq, Eq, Structural)]
pub struct Context {
    /// How many ticks the streaming phase lasts.
    pub stream_duration: u64,
    /// The current lifecycle phase.
    pub state: DetectionState,
    /// How many consecutive positive classifications have been seen.
    pub detected_count: u8,
    /// How many consecutive positives beyond the first are needed before
    /// streaming begins: streaming starts on positive `threshold + 1`.
    pub detected_threshold: u8,
    /// How many ticks the cooldown phase lasts.
    pub pause_duration: u64,
}

/// The outcome of one positive classification while scanning or debouncing:
/// cross into streaming once the counter has reached the threshold, else
/// keep debouncing. The crossing positive refreshes the pending detection's
/// timestamp before streaming inherits it, so the streaming phase starts at
/// the tick of the positive that confirmed the detection.
pub open spec fn step_positive(c: Context, now: u64) -> Context {
    if c.detected_count >= c.detected_threshold {
        Context { state: DetectionState::Streaming(now), detected_count: 0, ..c }
    } else {
        Context {
            state: DetectionState::Detected(now),
            detected_count: (c.detected_count + 1) as u8,
            ..c
        }
    }
}

/// The transition relation of the lifecycle: the context after one call of
/// [`Context::next`] with clock reading `now` and classification result
/// `classified`. It is a total function; `classified` is ignored in the
/// phases where the caller contract suppresses classification.
pub open spec fn stepped(c: Context, now: u64, classified: bool) -> Context {
    match c.state {
        DetectionState::Running => {
            if classified {
                step_positive(c, now)
            } else {
                Context { state: DetectionState::Running, detected_count: 0, ..c }
            }
        }
        DetectionState::Detected(_) => {
            if classified {
                step_positive(c, now)
            } else {
                Context { state: DetectionState::Running, detected_count: 0, ..c }
            }
        }
        DetectionState::Streaming(since) => {
            if now > since + c.stream_duration {
                Context { state: DetectionState::StreamEnd, ..c }
            } else {
                c
            }
        }
        DetectionState::StreamEnd => {
            Context { state: DetectionState::Paused(now), ..c }
        }
        DetectionState::Paused(since) => {
            if now > since + c.pause_duration {
                Context { state: DetectionState::Running, detected_count: 0, ..c }
            } else {
                c
            }
        }
    }
}

impl Context {
    /// The lifecycle invariant: the debounce counter never exceeds the
    /// threshold, counts only while a detection is pending, and a pending
    /// detection has counted at least its own positive.
    pub open spec fn wf(self) -> bool {
        &&& self.detected_count <= self.detected_threshold
        &&& (self.state is Detected ==> self.detected_count >= 1)
        &&& (!(self.state is Detected) ==> self.detected_count == 0)
    }

    /// Creates a lifecycle in the scanning phase with a cleared counter.
    pub fn new(stream_duration: u64, pause_duration: u64, detected_threshold: u8) -> (r: Context)
        ensures
            r == (Context {
                stream_duration,
                state: DetectionState::Running,
                detected_count: 0,
                detected_threshold,
                pause_duration,
            }),
            r.wf(),
    {
        Context {
            stream_duration,
            pause_duration,
            detected_threshold,
            detected_count: 0,
            state: DetectionState::Running,
        }
    }

    /// Whether the debounce counter has reached the threshold, so that the
    /// next positive classification crosses into streaming.
    pub fn is_detected(&self) -> (r: bool)
        ensures
            r == (self.detected_count >= self.detected_threshold),
    {
        self.detected_count >= self.detected_threshold
    }

    /// Advances the lifecycle by one cycle: `now` is the current reading of
    /// a monotonic clock and `classified` the classifier's verdict for this
    /// cycle. Returns the state after the transition. A clock reading that
    /// lies before a stored timestamp never moves the machine backward.
    pub fn next(&mut self, now: u64, classified: bool) -> (r: DetectionState)
        ensures
            *final(self) == stepped(*old(self), now, classified),
            r == final(self).state,
            old(self).wf() ==> final(self).wf(),
    {
        match self.state {
            DetectionState::Running => {
                if classified {
                    self.positive(now);
                } else {
                    self.detected_count = 0;
                }
            }
            DetectionState::Detected(_) => {
                if classified {
                    self.positive(now);
                } else {
                    self.state = DetectionState::Running;
                    self.detected_count = 0;
                }
            }
            DetectionState::Streaming(since) => {
                if now >= since && now - since > self.stream_duration {
                    self.state = DetectionState::StreamEnd;
                }
            }
            DetectionState::StreamEnd => {
                self.state = DetectionState::Paused(now);
            }
            DetectionState::Paused(since) => {
                if now >= since && now - since > self.pause_duration {
                    self.state = DetectionState::Running;
                    self.detected_count = 0;
                }
            }
        }
        self.state
    }

    /// One positive classification: cross into streaming or keep counting.
    fn positive(&mut self, now: u64)
        ensures
            *final(self) == step_positive(*old(self), now),
    {
        if self.detected_count >= self.detected_threshold {
            self.detected_count = 0;
            self.state = DetectionState::Streaming(now);
        } else {
            self.detected_count = self.detected_count + 1;
            self.state = DetectionState::Detected(now);
        }
    }

    /// One lifecycle step keeps the invariant, whatever the clock reading
    /// and the classification result.
    pub proof fn lemma_step_preserves_wf(self, now: u64, classified: bool)
        requires
            self.wf(),
        ensures
            stepped(self, now, classified).wf(),
    {
    }

    /// The external acknowledgment override: clears the debounce counter and
    /// forces the cooldown phase at once, whatever the current phase and
    /// however much of a streaming window has elapsed.
    pub fn acknowledge(&mut self, now: u64)
        ensures
            *final(self) == (Context {
                state: DetectionState::Paused(now),
                detected_count: 0,
                ..*old(self)
            }),
            final(self).wf(),
    {
        self.detected_count = 0;
        self.state = DetectionState::Paused(now);
    }
}

/// The context after a whole sequence of lifecycle steps, each a pair of a
/// clock reading and a classification result, applied in order.
pub open spec fn feed(c: Context, inputs: Seq<(u64, bool)>) -> Context
    decreases inputs.len(),
{
    if inputs.len() == 0 {
        c
    } else {
        stepped(feed(c, inputs.drop_last()), inputs.last().0, inputs.last().1)
    }
}

/// A sequence of lifecycle steps never leaves the five defined states in a
/// context that breaks the invariant, and never touches the configuration.
pub proof fn lemma_feed_preserves_wf(c: Context, inputs: Seq<(u64, bool)>)
    requires
        c.wf(),
    ensures
        feed(c, inputs).wf(),
        feed(c, inputs).detected_threshold == c.detected_threshold,
        feed(c, inputs).stream_duration == c.stream_duration,
        feed(c, inputs).pause_duration == c.pause_duration,
    decreases inputs.len(),
{
    if inputs.len() > 0 {
        lemma_feed_preserves_wf(c, inputs.drop_last());
        feed(c, inputs.drop_last()).lemma_step_preserves_wf(inputs.last().0, inputs.last().1);
    }
}

/// Debounce: from the scanning state with a cleared counter, a run of
/// positive classifications up to the threshold leaves a pending detection
/// with the counter at the run's length and does not reach streaming; a run
/// of exactly `threshold + 1` positives reaches streaming with the counter
/// cleared. Applied to every prefix of a run, this also shows streaming is
/// reached exactly once, at the final step (see
/// [`lemma_debounce_no_early_stream`]).
pub proof fn lemma_debounce(c: Context, inputs: Seq<(u64, bool)>)
    requires
        c.state is Running,
        c.detected_count == 0,
        forall|i: int| 0 <= i < inputs.len() ==> (#[trigger] inputs[i]).1,
        inputs.len() <= c.detected_threshold + 1,
    ensures
        feed(c, inputs).detected_threshold == c.detected_threshold,
        1 <= inputs.len() <= c.detected_threshold ==> feed(c, inputs).state is Detected && feed(
            c,
            inputs,
        ).detected_count == inputs.len(),
        inputs.len() == c.detected_threshold + 1 ==> feed(c, inputs).state is Streaming && feed(
            c,
            inputs,
        ).detected_count == 0,
    decreases inputs.len(),
{
    if inputs.len() > 0 {
        lemma_debounce(c, inputs.drop_last());
        assert(inputs.last().1);
    }
}

/// No prefix of a positive run that stays at or below the threshold reaches
/// the streaming state.
pub proof fn lemma_debounce_no_early_stream(c: Context, inputs: Seq<(u64, bool)>)
    requires
        c.state is Running,
        c.detected_count == 0,
        forall|i: int| 0 <= i < inputs.len() ==> (#[trigger] inputs[i]).1,
    ensures
        forall|k: int|
            0 <= k <= inputs.len() && k <= c.detected_threshold ==> !(#[trigger] feed(
                c,
                inputs.take(k),
            ).state is Streaming),
{
    assert forall|k: int| 0 <= k <= inputs.len() && k <= c.detected_threshold implies !(
    #[trigger] feed(c, inputs.take(k)).state is Streaming) by {
        lemma_debounce(c, inputs.take(k));
    }
}

/// A single negative classification while scanning or debouncing returns
/// the machine to scanning and clears the counter: the debounce run must
/// start over.
pub proof fn lemma_negative_resets(c: Context, now: u64)
    requires
        c.state is Running || c.state is Detected,
    ensures
        stepped(c, now, false).state is Running,
        stepped(c, now, false).detected_count == 0,
{
}

/// Streaming self-terminates: once the clock has advanced past the
/// streaming window, the next step ends the stream and the step after that
/// begins the cooldown, whatever the classification inputs.
pub proof fn lemma_streaming_self_terminates(
    c: Context,
    now1: u64,
    b1: bool,
    now2: u64,
    b2: bool,
)
    requires
        c.state matches DetectionState::Streaming(since) && now1 > since + c.stream_duration,
    ensures
        stepped(c, now1, b1).state is StreamEnd,
        stepped(stepped(c, now1, b1), now2, b2).state == DetectionState::Paused(now2),
{
}

/// Cooldown self-terminates: once the clock has advanced past the cooldown
/// window, the next step returns the machine to scanning with a cleared
/// counter, whatever the classification input.
pub proof fn lemma_cooldown_self_terminates(c: Context, now: u64, b: bool)
    requires
        c.state matches DetectionState::Paused(since) && now > since + c.pause_duration,
    ensures
        stepped(c, now, b).state is Running,
        stepped(c, now, b).detected_count == 0,
{
}


} // verus!
