//! Gathering alerts into batches: one batch to an interval, and a last one when
//! no more alerts can come.
use vstd::prelude::*;

use crate::alert::{Alert, AlertConfig, ConfigView};
use crate::delivery;
use crate::delivery::Delivery;

verus! {

/// What happens to the flusher.
pub enum Input {
    /// An interval is over.
    Tick,
    /// An alert comes in.
    Received(Alert),
    /// No more alerts can come.
    Closed,
}

/// What the flusher answers: what is done with a batch, if one is due, and
/// whether the flusher is finished.
#[derive(Debug)]
pub struct Step {
    pub delivery: Option<Delivery>,
    pub finished: bool,
}

/// Holds the alerts that wait for the end of the interval.
pub struct Flusher {
    config: AlertConfig,
    pending: Vec<Alert>,
}

/// A flusher by what it holds.
pub struct FlusherView {
    pub config: ConfigView,
    pub pending: Seq<Alert>,
}

impl View for Flusher {
    type V = FlusherView;

    closed spec fn view(&self) -> FlusherView {
        FlusherView { config: self.config@, pending: self.pending@ }
    }
}

/// The alerts that wait after an input. Where alerts go nowhere, none waits.
pub open spec fn waiting_after(config: ConfigView, pending: Seq<Alert>, input: Input) -> Seq<Alert> {
    match input {
        Input::Received(alert) => if config.enabled() {
            pending.push(alert)
        } else {
            pending
        },
        _ => Seq::empty(),
    }
}

/// The batch that is due on an input; an empty one is none.
pub open spec fn batch_due(config: ConfigView, pending: Seq<Alert>, input: Input) -> Seq<Alert> {
    match input {
        Input::Received(_) => Seq::empty(),
        _ => if config.enabled() {
            pending
        } else {
            Seq::empty()
        },
    }
}

impl Flusher {
    /// A flusher on which nothing waits.
    pub fn new(config: AlertConfig) -> (r: Self)
        ensures
            r@.config == config@,
            r@.pending == Seq::<Alert>::empty(),
    {
        let pending: Vec<Alert> = Vec::new();
        assert(pending@ =~= Seq::empty());
        Flusher { config, pending }
    }

    /// Takes one input. Alerts wait until a tick, or the end, and then leave
    /// together; without alerts a tick does nothing.
    pub fn step(&mut self, input: Input) -> (r: Step)
        ensures
            final(self)@.config == old(self)@.config,
            final(self)@.pending == waiting_after(old(self)@.config, old(self)@.pending, input),
            r.finished == (input is Closed),
            r.delivery is Some <==> batch_due(old(self)@.config, old(self)@.pending, input).len()
                > 0,
            r.delivery matches Some(d) ==> d@ == delivery::delivery_for(
                old(self)@.config,
                delivery::alert_views(
                    batch_due(old(self)@.config, old(self)@.pending, input),
                ),
            ),
            match input {
                Input::Received(alert) => {
                    &&& r.delivery is None
                    &&& final(self)@.pending == (if old(self)@.config.dry_run || old(
                        self,
                    )@.config.wecom_key is Some || old(self)@.config.serverchan_key is Some {
                        old(self)@.pending.push(alert)
                    } else {
                        old(self)@.pending
                    })
                },
                _ => {
                    &&& final(self)@.pending.len() == 0
                    &&& r.delivery is Some <==> old(self)@.pending.len() > 0 && (old(
                        self,
                    )@.config.dry_run || old(self)@.config.wecom_key is Some || old(
                        self,
                    )@.config.serverchan_key is Some)
                    &&& r.delivery matches Some(d) ==> d@ == delivery::delivery_for(
                        old(self)@.config,
                        delivery::alert_views(old(self)@.pending),
                    )
                },
            },
    {
        match input {
            Input::Received(alert) => {
                if self.config.enabled() {
                    self.pending.push(alert);
                }
                Step { delivery: None, finished: false }
            },
            Input::Tick => { Step { delivery: self.flush(), finished: false } },
            Input::Closed => { Step { delivery: self.flush(), finished: true } },
        }
    }

    /// Empties the flusher, and says what is done with what waited.
    fn flush(&mut self) -> (r: Option<Delivery>)
        ensures
            final(self)@.config == old(self)@.config,
            final(self)@.pending == Seq::<Alert>::empty(),
            r is Some <==> old(self)@.config.enabled() && old(self)@.pending.len() > 0,
            r matches Some(d) ==> d@ == delivery::delivery_for(
                old(self)@.config,
                delivery::alert_views(old(self)@.pending),
            ),
    {
        let due = if self.config.enabled() && self.pending.len() > 0 {
            Some(delivery::flush_alerts(&self.config, self.pending.as_slice()))
        } else {
            None
        };
        self.pending.clear();
        assert(self.pending@ =~= Seq::empty());
        due
    }
}

// ---------------------------------------------------------------------------
// Runs
// ---------------------------------------------------------------------------

/// The alerts that wait after a run of inputs from the start.
pub open spec fn waiting(config: ConfigView, inputs: Seq<Input>) -> Seq<Alert>
    decreases inputs.len(),
{
    if inputs.len() == 0 {
        Seq::empty()
    } else {
        waiting_after(config, waiting(config, inputs.drop_last()), inputs.last())
    }
}

/// The batches that leave in a run of inputs from the start.
pub open spec fn batches(config: ConfigView, inputs: Seq<Input>) -> Seq<Seq<Alert>>
    decreases inputs.len(),
{
    if inputs.len() == 0 {
        Seq::empty()
    } else {
        let before = batches(config, inputs.drop_last());
        let due = batch_due(config, waiting(config, inputs.drop_last()), inputs.last());
        if due.len() > 0 {
            before.push(due)
        } else {
            before
        }
    }
}

/// The alerts that come in during a run of inputs.
pub open spec fn received(inputs: Seq<Input>) -> Seq<Alert>
    decreases inputs.len(),
{
    if inputs.len() == 0 {
        Seq::empty()
    } else {
        match inputs.last() {
            Input::Received(alert) => received(inputs.drop_last()).push(alert),
            _ => received(inputs.drop_last()),
        }
    }
}

/// The alerts of some batches, one batch after the other.
pub open spec fn all_of(batches: Seq<Seq<Alert>>) -> Seq<Alert>
    decreases batches.len(),
{
    if batches.len() == 0 {
        Seq::empty()
    } else {
        all_of(batches.drop_last()) + batches.last()
    }
}

/// Where alerts go anywhere, each one that came in has left in exactly one batch
/// or waits, and the order is kept.
pub proof fn law_no_alert_lost(config: ConfigView, inputs: Seq<Input>)
    requires
        config.enabled(),
    ensures
        all_of(batches(config, inputs)) + waiting(config, inputs) == received(inputs),
    decreases inputs.len(),
{
    if inputs.len() > 0 {
        let earlier = inputs.drop_last();
        law_no_alert_lost(config, earlier);
        let before = batches(config, earlier);
        let pending = waiting(config, earlier);
        match inputs.last() {
            Input::Received(alert) => {
                assert(all_of(before) + pending.push(alert) =~= (all_of(before) + pending).push(
                    alert,
                ));
            },
            _ => {
                if pending.len() > 0 {
                    assert(before.push(pending).drop_last() =~= before);
                    assert(all_of(before) + pending + Seq::<Alert>::empty() =~= all_of(before)
                        + pending);
                } else {
                    assert(pending =~= Seq::empty());
                }
            },
        }
    } else {
        assert(all_of(batches(config, inputs)) + waiting(config, inputs) =~= Seq::empty());
    }
}

/// Once no more alerts can come, every alert that came in has left, in order.
pub proof fn law_end_sends_everything(config: ConfigView, inputs: Seq<Input>)
    requires
        config.enabled(),
        inputs.len() > 0,
        inputs.last() is Closed,
    ensures
        all_of(batches(config, inputs)) == received(inputs),
        waiting(config, inputs) == Seq::<Alert>::empty(),
{
    law_no_alert_lost(config, inputs);
    assert(all_of(batches(config, inputs)) + waiting(config, inputs) =~= all_of(
        batches(config, inputs),
    ));
}

/// The end of an interval leaves nothing waiting.
pub proof fn law_tick_empties(config: ConfigView, inputs: Seq<Input>)
    requires
        inputs.len() > 0,
        inputs.last() is Tick,
    ensures
        waiting(config, inputs) == Seq::<Alert>::empty(),
{
}

/// No batch is empty, and an interval gives one batch at the most: there are no
/// more batches than inputs that are no alerts.
pub proof fn law_one_batch_to_an_interval(config: ConfigView, inputs: Seq<Input>)
    ensures
        forall|i: int|
            0 <= i < batches(config, inputs).len() ==> (#[trigger] batches(config, inputs)[i]).len()
                > 0,
        batches(config, inputs).len() + received(inputs).len() <= inputs.len(),
    decreases inputs.len(),
{
    if inputs.len() > 0 {
        law_one_batch_to_an_interval(config, inputs.drop_last());
    }
}

/// Where alerts go nowhere, nothing ever waits and nothing ever leaves.
pub proof fn law_disabled_does_nothing(config: ConfigView, inputs: Seq<Input>)
    requires
        !config.enabled(),
    ensures
        batches(config, inputs) == Seq::<Seq<Alert>>::empty(),
        waiting(config, inputs) == Seq::<Alert>::empty(),
    decreases inputs.len(),
{
    if inputs.len() > 0 {
        law_disabled_does_nothing(config, inputs.drop_last());
    }
}

/// Every alert that comes in counts as received, in order, and nothing else does.
pub proof fn law_received_counts_alerts(inputs: Seq<Input>, next: Input)
    ensures
        received(Seq::empty()).len() == 0,
        received(inputs.push(next)) == (match next {
            Input::Received(alert) => received(inputs).push(alert),
            _ => received(inputs),
        }),
{
    assert(inputs.push(next).drop_last() =~= inputs);
}

/// Where alerts go anywhere, an alert waits behind those that wait already, and
/// the end of an interval takes all that wait, in order, as one batch.
pub proof fn law_batch_takes_all_that_wait(config: ConfigView, inputs: Seq<Input>, next: Input)
    requires
        config.dry_run || config.wecom_key is Some || config.serverchan_key is Some,
    ensures
        match next {
            Input::Received(alert) => {
                &&& waiting(config, inputs.push(next)) == waiting(config, inputs).push(alert)
                &&& batches(config, inputs.push(next)) == batches(config, inputs)
            },
            _ => {
                &&& waiting(config, inputs.push(next)).len() == 0
                &&& waiting(config, inputs).len() > 0 ==> batches(config, inputs.push(next))
                    == batches(config, inputs).push(waiting(config, inputs))
                &&& waiting(config, inputs).len() == 0 ==> batches(config, inputs.push(next))
                    == batches(config, inputs)
            },
        },
        waiting(config, Seq::empty()).len() == 0,
        batches(config, Seq::empty()).len() == 0,
{
    assert(inputs.push(next).drop_last() =~= inputs);
}

} // verus!
