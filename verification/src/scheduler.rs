//! The pacing scheduler: decides when advance signals are due and emits
//! them in pairs, since the crawl latch consumes two tokens per advance.
//! The caller owns the channel and the timer; it drains the emitted tokens
//! into the channel and sleeps for the interval the plan names.
use vstd::prelude::*;

verus! {

/// An opaque pacing token; its arrival, not its payload, is the event.
#[derive(Debug, Clone, Copy, PartialEq, Eq, Structural)]
pub struct PacingSignal;

/// What the scheduler asks its host to do: whether to emit an advance right
/// away, and at which interval (in milliseconds) to keep emitting while
/// auto-play stays on.
#[derive(Debug, Clone, Copy, PartialEq, Eq, Structural)]
pub struct SchedulePlan {
    pub send_now: bool,
    pub repeat_millis: Option<u64>,
}

/// The pacing configuration: an immediate manual advance, an auto-play
/// flag, and the auto-play interval in milliseconds.
#[derive(Debug, Clone, Copy, PartialEq, Eq, Structural)]
pub struct PhotoScheduler {
    pub auto_play: bool,
    pub play_next: bool,
    pub timeout: u64,
}

impl PhotoScheduler {
    /// A scheduler with the given flags and interval, in milliseconds.
    pub fn new(auto_play: bool, play_next: bool, timeout_millis: u64) -> (s: Self)
        ensures
            s.auto_play == auto_play,
            s.play_next == play_next,
            s.timeout == timeout_millis,
    {
        PhotoScheduler { auto_play, play_next, timeout: timeout_millis }
    }

    /// The schedule this configuration calls for: one immediate advance
    /// when a manual advance is requested, and a repeating advance at the
    /// configured interval while auto-play is on.
    pub fn schedule(&self) -> (p: SchedulePlan)
        ensures
            p.send_now == self.play_next,
            p.repeat_millis == if self.auto_play {
                Some(self.timeout)
            } else {
                None::<u64>
            },
    {
        SchedulePlan {
            send_now: self.play_next,
            repeat_millis: if self.auto_play {
                Some(self.timeout)
            } else {
                None
            },
        }
    }

    /// Emits one logical advance: exactly two pacing tokens, appended in
    /// order, so that the crawl latch can insist on a fully formed pair.
    pub fn emit_advance(&self, signals: &mut Vec<PacingSignal>)
        ensures
            final(signals)@ == old(signals)@ + seq![PacingSignal, PacingSignal],
    {
        signals.push(PacingSignal);
        signals.push(PacingSignal);
        assert(signals@ =~= old(signals)@ + seq![PacingSignal, PacingSignal]);
    }
}

} // verus!
