use vstd::prelude::*;
use crate::aggregate::{par_aggregate, sums_fit, vwap_sample, window_fits};
use crate::types::{Event, Exchange, Pair, PriceTick};

verus! {

/// The decisions of one ingestion task: it gathers the events of a venue
/// stream into a window, and at each tick turns the window into a sample.
///
/// The task that drives it races the stream against a timer, hands each
/// event to [`IngestionWorker::on_event`] and each tick to
/// [`IngestionWorker::on_tick`], sends what the tick returns, and reports the
/// outcome of the send to [`IngestionWorker::on_send_result`].
pub struct IngestionWorker {
    pub exchange: Exchange,
    pub pair: Pair,
    /// A soft cap on the window's length: passing it is reported, nothing is dropped.
    pub buffer_size: usize,
    /// The events gathered since the last tick, in arrival order.
    pub buffer: Vec<Event>,
    /// Set once the receiver of the samples is gone.
    pub stopped: bool,
}

impl IngestionWorker {
    /// A worker with an empty window.
    pub fn new(exchange: Exchange, pair: Pair, buffer_size: usize) -> (r: IngestionWorker)
        ensures
            r.exchange == exchange,
            r.pair == pair,
            r.buffer_size == buffer_size,
            r.buffer@ == Seq::<Event>::empty(),
            !r.stopped,
    {
        IngestionWorker { exchange, pair, buffer_size, buffer: Vec::new(), stopped: false }
    }

    /// Appends an event to the window. Returns whether the window is now
    /// longer than the soft cap.
    pub fn on_event(&mut self, event: Event) -> (over_cap: bool)
        ensures
            final(self).buffer@ == old(self).buffer@.push(event),
            final(self).exchange == old(self).exchange,
            final(self).pair == old(self).pair,
            final(self).buffer_size == old(self).buffer_size,
            final(self).stopped == old(self).stopped,
            over_cap == (final(self).buffer@.len() > old(self).buffer_size),
    {
        self.buffer.push(event);
        self.buffer.len() > self.buffer_size
    }

    /// Closes the window at `window_end`: the window is replaced by an empty
    /// one, and its sample is returned where there is one to send. A stopped
    /// worker sends nothing more; a window whose sums do not fit the
    /// accumulators is dropped without a sample.
    pub fn on_tick(&mut self, window_end: i64) -> (r: Option<PriceTick>)
        ensures
            final(self).buffer@ == Seq::<Event>::empty(),
            final(self).exchange == old(self).exchange,
            final(self).pair == old(self).pair,
            final(self).buffer_size == old(self).buffer_size,
            final(self).stopped == old(self).stopped,
            old(self).stopped ==> r is None,
            !old(self).stopped && sums_fit(old(self).buffer@) ==> r == vwap_sample(
                old(self).exchange,
                old(self).pair,
                window_end,
                old(self).buffer@,
            ),
            !sums_fit(old(self).buffer@) ==> r is None,
    {
        let mut events: Vec<Event> = Vec::new();
        std::mem::swap(&mut self.buffer, &mut events);
        if self.stopped || !window_fits(&events) {
            None
        } else {
            par_aggregate(self.exchange, self.pair, window_end, events)
        }
    }

    /// Takes in the outcome of sending a sample. A send that failed means the
    /// receiver is gone: the worker stops, which is a normal end and no
    /// error. Returns whether the worker goes on.
    pub fn on_send_result(&mut self, delivered: bool) -> (keep_running: bool)
        ensures
            final(self).stopped == (old(self).stopped || !delivered),
            final(self).buffer@ == old(self).buffer@,
            final(self).exchange == old(self).exchange,
            final(self).pair == old(self).pair,
            final(self).buffer_size == old(self).buffer_size,
            keep_running == !final(self).stopped,
    {
        if !delivered {
            self.stopped = true;
        }
        !self.stopped
    }
}

} // verus!
