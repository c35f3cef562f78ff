//! The milestones of a run, as they are told to whoever watches it.

use vstd::prelude::*;

verus! {

/// One milestone of a run.
#[derive(Debug, Clone, Copy, PartialEq, Eq, Structural)]
pub enum ProgressEvent {
    /// The scan of the roots has started; `count` is the number of roots.
    WalkStart { count: usize },
    /// The scan has found `count` more paths to load.
    WalkAddPaths { count: usize },
    /// One batch of paths was loaded.
    WalkAdvance,
    /// The scan has finished.
    WalkFinished,
    /// Discovery has started; `count` is the number of detectors.
    DiscoveryStart { count: usize },
    /// One part of discovery has finished.
    DiscoveryAdvance,
    /// Discovery has finished.
    DiscoveryFinished,
}

/// Someone who is told the milestones of a run, one by one. Nothing is asked of a reporter:
/// it may show what it is told, hand it on, or let it pass.
pub trait ProgressReporter: Send + Sync + Clone + 'static {
    /// Takes note of one milestone.
    fn report(&self, event: ProgressEvent);
}

/// A reporter together with the record of what it was told through this stream.
pub struct ProgressStream<R: ProgressReporter> {
    reporter: R,
    told: Ghost<Seq<ProgressEvent>>,
}

impl<R: ProgressReporter> ProgressStream<R> {
    /// Everything that the reporter was told through this stream, in order.
    pub closed spec fn reported(&self) -> Seq<ProgressEvent> {
        self.told@
    }

    /// The reporter that is told.
    pub closed spec fn inner(&self) -> R {
        self.reporter
    }

    /// A stream to `reporter` through which nothing was told yet.
    pub fn new(reporter: R) -> (stream: Self)
        ensures
            stream.reported() == Seq::<ProgressEvent>::empty(),
            stream.inner() == reporter,
    {
        ProgressStream { reporter, told: Ghost(Seq::empty()) }
    }

    /// Tells the reporter one milestone.
    pub fn report(&mut self, event: ProgressEvent)
        ensures
            final(self).reported() == old(self).reported().push(event),
            final(self).inner() == old(self).inner(),
    {
        self.reporter.report(event);
        self.told = Ghost(self.told@.push(event));
    }

    /// The reporter of the stream.
    pub fn reporter(&self) -> (reporter: &R)
        ensures
            *reporter == self.inner(),
    {
        &self.reporter
    }

    /// Gives the reporter back.
    pub fn into_reporter(self) -> (reporter: R)
        ensures
            reporter == self.inner(),
    {
        self.reporter
    }
}

/// How many of `events` are as `wanted` asks.
pub open spec fn count_of(events: Seq<ProgressEvent>, wanted: spec_fn(ProgressEvent) -> bool) -> nat
    decreases events.len(),
{
    if events.len() == 0 {
        0
    } else {
        count_of(events.drop_last(), wanted) + if wanted(events.last()) {
            1nat
        } else {
            0nat
        }
    }
}

/// One more event counts where it is as `wanted` asks.
pub proof fn lemma_count_of_push(
    events: Seq<ProgressEvent>,
    event: ProgressEvent,
    wanted: spec_fn(ProgressEvent) -> bool,
)
    ensures
        count_of(events.push(event), wanted) == count_of(events, wanted) + if wanted(event) {
            1nat
        } else {
            0nat
        },
{
    assert(events.push(event).drop_last() =~= events);
}

} // verus!
