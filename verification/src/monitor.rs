//! The monitor: caches the last reported ordinal, re-runs the resolver on
//! each notification, and emits exactly one event per distinct transition,
//! suppressing the very first assignment.

use vstd::prelude::*;

use std::sync::mpsc::Receiver;
use std::sync::mpsc::Sender;

use crate::resolver::DisplayRecord;
use crate::resolver::all_real_ids;
use crate::resolver::compute_active_ordinal;
use crate::resolver::resolve_ordinal;

verus! {

/// An event delivered to the consumer: the active space moved to the given
/// 1-based ordinal.
#[derive(Clone, Debug, PartialEq, Eq, Structural)]
pub enum MonitorEvent {
    SpaceChange(i32),
}

#[verifier::external_type_specification]
#[verifier::external_body]
#[verifier::reject_recursive_types(T)]
pub struct ExSender<T>(Sender<T>);

#[verifier::external_type_specification]
#[verifier::external_body]
#[verifier::reject_recursive_types(T)]
pub struct ExReceiver<T>(Receiver<T>);

/// Relies on std::sync::mpsc::channel: returns a connected
/// sender/receiver pair for the monitor's outbound events.
#[verifier::external_body]
fn new_event_channel() -> (Sender<MonitorEvent>, Receiver<MonitorEvent>) {
    std::sync::mpsc::channel()
}

/// Relies on std::sync::mpsc::Sender::send: queues the event for the
/// receiving end. A send to a dropped receiver returns an error, which is
/// discarded here: delivery is best-effort by design.
#[verifier::external_body]
fn send_event(tx: &Sender<MonitorEvent>, event: MonitorEvent) {
    let _ = tx.send(event);
}

/// How one notification changes the cached ordinal: an undetermined result
/// (`-1`) leaves the cache as it was, any other result replaces it.
pub open spec fn step_last(prev: int, ord: int) -> int {
    if ord == -1 {
        prev
    } else {
        ord
    }
}

/// Whether one notification emits an event: only a determined ordinal that
/// differs from the cached one, and only once a baseline has been
/// established (the initial cache value `0` never matches a real ordinal).
pub open spec fn step_emits(prev: int, ord: int) -> bool {
    ord != -1 && prev != 0 && prev != ord
}

/// The cached ordinal after a fresh monitor has processed the given computed
/// ordinals in order.
pub open spec fn run_last(ords: Seq<int>) -> int
    decreases ords.len(),
{
    if ords.len() == 0 {
        0
    } else {
        step_last(run_last(ords.drop_last()), ords.last())
    }
}

/// The ordinals a fresh monitor has emitted after processing the given
/// computed ordinals in order.
pub open spec fn run_emitted(ords: Seq<int>) -> Seq<int>
    decreases ords.len(),
{
    if ords.len() == 0 {
        Seq::empty()
    } else if step_emits(run_last(ords.drop_last()), ords.last()) {
        run_emitted(ords.drop_last()).push(ords.last())
    } else {
        run_emitted(ords.drop_last())
    }
}

/// A fresh monitor suppresses its first event: whatever ordinal the first
/// notification computes, nothing is emitted.
pub proof fn lemma_first_event_suppressed(ord: int)
    ensures
        !step_emits(0, ord),
        run_emitted(seq![ord]) == Seq::<int>::empty(),
{
    assert(seq![ord].len() == 1);
    assert(seq![ord].last() == ord);
    assert(seq![ord].drop_last() =~= Seq::<int>::empty());
    assert(run_last(Seq::<int>::empty()) == 0);
    assert(run_emitted(Seq::<int>::empty()) == Seq::<int>::empty());
}

/// A notification that computes the same ordinal again emits nothing: only
/// distinct transitions are reported.
pub proof fn lemma_repeat_emits_nothing(ords: Seq<int>, x: int)
    ensures
        run_emitted(ords.push(x).push(x)) == run_emitted(ords.push(x)),
{
    assert(ords.push(x).push(x).drop_last() =~= ords.push(x));
    assert(ords.push(x).drop_last() =~= ords);
}

/// Once a baseline is established, each transition to a new determined
/// ordinal emits exactly one event, carrying that ordinal.
pub proof fn lemma_transition_emits_once(ords: Seq<int>, x: int)
    requires
        x != -1,
        run_last(ords) != 0,
        run_last(ords) != x,
    ensures
        run_emitted(ords.push(x)) == run_emitted(ords).push(x),
{
    assert(ords.push(x).drop_last() =~= ords);
}

/// Observes space changes: owns the outbound event channel and the cached
/// last-reported ordinal used purely for change detection.
pub struct SpaceMonitor {
    event_tx: Sender<MonitorEvent>,
    last_ordinal: i32,
    emitted: Ghost<Seq<i32>>,
}

impl SpaceMonitor {
    /// The cached last-reported ordinal; `0` until a determined ordinal has
    /// been computed.
    pub closed spec fn last(self) -> i32 {
        self.last_ordinal
    }

    /// The ordinals of all events emitted so far, oldest first.
    pub closed spec fn emitted(self) -> Seq<i32> {
        self.emitted@
    }

    /// Constructs a monitor with no baseline yet, paired with the receiving
    /// end of its event channel.
    pub fn new() -> (r: (SpaceMonitor, Receiver<MonitorEvent>))
        ensures
            r.0.last() == 0,
            r.0.emitted() == Seq::<i32>::empty(),
    {
        let (tx, rx) = new_event_channel();
        let monitor = SpaceMonitor {
            event_tx: tx,
            last_ordinal: 0,
            emitted: Ghost(Seq::empty()),
        };
        (monitor, rx)
    }

    /// Handles one notification: resolves the given snapshot, updates the
    /// cached ordinal unless the result is undetermined, and emits a
    /// `SpaceChange` event exactly when an established baseline changed.
    pub fn on_notify(&mut self, displays: &Vec<DisplayRecord>, active_display: &String) -> (ordinal:
        i32)
        requires
            all_real_ids(displays@).len() < i32::MAX,
        ensures
            ordinal == resolve_ordinal(displays@, active_display@),
            final(self).last() == step_last(
                old(self).last() as int,
                resolve_ordinal(displays@, active_display@),
            ),
            final(self).emitted() == if step_emits(
                old(self).last() as int,
                resolve_ordinal(displays@, active_display@),
            ) {
                old(self).emitted().push(ordinal)
            } else {
                old(self).emitted()
            },
    {
        let ordinal = compute_active_ordinal(displays, active_display);
        if ordinal == -1 {
            return -1;
        }
        let prev = self.last_ordinal;
        self.last_ordinal = ordinal;
        if prev != ordinal && prev != 0 {
            send_event(&self.event_tx, MonitorEvent::SpaceChange(ordinal));
            proof {
                self.emitted@ = self.emitted@.push(ordinal);
            }
        }
        ordinal
    }
}

} // verus!
