//! The bounded poller: records the events of a timed poll in a fixed-size,
//! overwrite-oldest history.
use vstd::prelude::*;
use arraydeque::{ArrayDeque, Wrapping};
use crate::joystick::InputSignal;

verus! {

/// How many signals the history of a poll keeps.
pub const POLL_CAPACITY: usize = 100;

/// The signals of a poll, oldest first: at most `POLL_CAPACITY` of them, and
/// when it is full a new signal pushes out the oldest.
#[verifier::external_body]
pub struct PollArray {
    deque: ArrayDeque<InputSignal, POLL_CAPACITY, Wrapping>,
}

/// The signals that a poll history holds, front (oldest) first.
pub uninterp spec fn poll_array_signals(a: PollArray) -> Seq<InputSignal>;

impl View for PollArray {
    type V = Seq<InputSignal>;

    open spec fn view(&self) -> Seq<InputSignal> {
        poll_array_signals(*self)
    }
}

/// Relies on `ArrayDeque::new`: a new deque is empty.
#[verifier::external_body]
fn deque_new() -> (r: PollArray)
    ensures
        poll_array_signals(r).len() == 0,
{
    PollArray { deque: ArrayDeque::new() }
}

/// Relies on `ArrayDeque::clear`: every element is removed.
#[verifier::external_body]
fn deque_clear(a: &mut PollArray)
    ensures
        poll_array_signals(*final(a)).len() == 0,
{
    a.deque.clear()
}

/// Relies on `ArrayDeque::push_back` of a `Wrapping` deque: the element goes
/// to the back; on a full deque the front element is taken out first and
/// returned.
#[verifier::external_body]
fn deque_push_back(a: &mut PollArray, s: InputSignal) -> (r: Option<InputSignal>)
    ensures
        poll_array_signals(*old(a)).len() < POLL_CAPACITY ==> r is None && poll_array_signals(
            *final(a),
        ) == poll_array_signals(*old(a)).push(s),
        poll_array_signals(*old(a)).len() >= POLL_CAPACITY ==> r == Some(
            poll_array_signals(*old(a))[0],
        ) && poll_array_signals(*final(a)) == poll_array_signals(*old(a)).drop_first().push(s),
{
    a.deque.push_back(s)
}

/// Relies on `ArrayDeque::len`: the number of elements, at most the capacity.
#[verifier::external_body]
fn deque_len(a: &PollArray) -> (r: usize)
    ensures
        r == poll_array_signals(*a).len(),
        r <= POLL_CAPACITY,
{
    a.deque.len()
}

/// Relies on `ArrayDeque::get`: the element at `index`, counted from the
/// front, or `None` past the end.
#[verifier::external_body]
fn deque_get(a: &PollArray, index: usize) -> (r: Option<InputSignal>)
    ensures
        index < poll_array_signals(*a).len() ==> r == Some(
            poll_array_signals(*a)[index as int],
        ),
        index >= poll_array_signals(*a).len() ==> r is None,
{
    a.deque.get(index).copied()
}

impl PollArray {
    /// The number of signals held.
    pub fn len(&self) -> (r: usize)
        ensures
            r == self@.len(),
            r <= POLL_CAPACITY,
    {
        deque_len(self)
    }

    /// The signal at `index`, oldest first, or `None` past the end.
    pub fn get(&self, index: usize) -> (r: Option<InputSignal>)
        ensures
            index < self@.len() ==> r == Some(self@[index as int]),
            index >= self@.len() ==> r is None,
    {
        deque_get(self, index)
    }

    /// The newest signal, or `None` when there is none.
    pub fn back(&self) -> (r: Option<InputSignal>)
        ensures
            self@.len() == 0 ==> r is None,
            self@.len() > 0 ==> r == Some(self@.last()),
    {
        let n = deque_len(self);
        if n == 0 {
            None
        } else {
            deque_get(self, n - 1)
        }
    }
}

/// The events among the samples of a poll, in order: one for each sample
/// that was an event.
pub open spec fn events_of(samples: Seq<Option<InputSignal>>) -> Seq<InputSignal>
    decreases samples.len(),
{
    if samples.len() == 0 {
        Seq::empty()
    } else {
        match samples.last() {
            Some(s) => events_of(samples.drop_last()).push(s),
            None => events_of(samples.drop_last()),
        }
    }
}

/// The newest `n` elements of `s`, oldest first (all of `s` when it is shorter).
pub open spec fn newest(s: Seq<InputSignal>, n: nat) -> Seq<InputSignal> {
    if s.len() <= n {
        s
    } else {
        s.subrange(s.len() - n, s.len() as int)
    }
}

/// The history that a poll over `samples` leaves.
pub open spec fn poll_history(samples: Seq<Option<InputSignal>>) -> Seq<InputSignal> {
    newest(events_of(samples), POLL_CAPACITY as nat)
}

proof fn lemma_newest_push(s: Seq<InputSignal>, x: InputSignal, n: nat)
    requires
        n > 0,
    ensures
        newest(s, n).len() < n ==> newest(s.push(x), n) == newest(s, n).push(x),
        newest(s, n).len() >= n ==> newest(s.push(x), n) == newest(s, n).drop_first().push(x),
{
    if s.len() < n {
        assert(newest(s.push(x), n) == s.push(x));
    } else {
        assert(newest(s.push(x), n) =~= newest(s, n).drop_first().push(x));
    }
}

/// A poller of one input device. The device is read by the caller, one
/// sample at a fixed interval; the poller keeps what the samples show.
pub struct InputPeripheral {
    deque: PollArray,
}

impl InputPeripheral {
    /// The history of the latest poll.
    pub closed spec fn history(&self) -> Seq<InputSignal> {
        self.deque@
    }

    /// A poller with an empty history.
    pub fn new() -> (r: Self)
        ensures
            r.history().len() == 0,
    {
        InputPeripheral { deque: deque_new() }
    }

    /// Starts a poll: the history is cleared.
    pub fn begin_poll(&mut self)
        ensures
            final(self).history().len() == 0,
    {
        deque_clear(&mut self.deque);
    }

    /// Records one sample of the device: an event goes to the back of the
    /// history, pushing out the oldest one when the history is full; `None`
    /// (no event) changes nothing.
    pub fn record(&mut self, sample: Option<InputSignal>)
        ensures
            final(self).history() == match sample {
                Some(s) => if old(self).history().len() < POLL_CAPACITY {
                    old(self).history().push(s)
                } else {
                    old(self).history().drop_first().push(s)
                },
                None => old(self).history(),
            },
    {
        if let Some(signal) = sample {
            deque_push_back(&mut self.deque, signal);
        }
    }

    /// Polls over `samples`, the readings of the device taken one per
    /// sampling interval for the duration of the poll (`None` where the device
    /// showed no event). The history is cleared first; then each event is
    /// recorded, the oldest giving way when the history is full. Returns the
    /// history.
    pub fn poll(&mut self, samples: &[Option<InputSignal>]) -> (r: &PollArray)
        ensures
            r@ == poll_history(samples@),
            final(self).history() == poll_history(samples@),
    {
        self.begin_poll();
        let mut i: usize = 0;
        while i < samples.len()
            invariant
                i <= samples@.len(),
                self.deque@ == poll_history(samples@.take(i as int)),
            decreases samples@.len() - i,
        {
            let ghost before = samples@.take(i as int);
            assert(samples@.take(i + 1).drop_last() == before);
            if let Some(signal) = samples[i] {
                proof {
                    lemma_newest_push(events_of(before), signal, POLL_CAPACITY as nat);
                }
            }
            self.record(samples[i]);
            i = i + 1;
        }
        assert(samples@.take(samples@.len() as int) == samples@);
        &self.deque
    }

    /// The history of the latest poll.
    pub fn history_array(&self) -> (r: &PollArray)
        ensures
            r@ == self.history(),
    {
        &self.deque
    }
}

/// The bounded history: a poll in which no sample was an event leaves an
/// empty history; otherwise it keeps the newest events, at most
/// `POLL_CAPACITY` of them, in the order they came: the oldest are the ones
/// dropped, never the newest.
pub proof fn lemma_poll_history(samples: Seq<Option<InputSignal>>)
    ensures
        (forall|i: int| 0 <= i < samples.len() ==> samples[i] is None) ==> poll_history(
            samples,
        ).len() == 0,
        events_of(samples).len() <= POLL_CAPACITY ==> poll_history(samples) == events_of(samples),
        events_of(samples).len() > POLL_CAPACITY ==> poll_history(samples).len() == POLL_CAPACITY
            && poll_history(samples) == events_of(samples).subrange(
            events_of(samples).len() - POLL_CAPACITY,
            events_of(samples).len() as int,
        ),
    decreases samples.len(),
{
    if samples.len() > 0 {
        lemma_poll_history(samples.drop_last());
        if forall|i: int| 0 <= i < samples.len() ==> samples[i] is None {
            assert(samples.last() is None);
            assert forall|i: int| 0 <= i < samples.drop_last().len() implies samples.drop_last()[i]
                is None by {
                assert(samples.drop_last()[i] == samples[i]);
            }
        }
    }
}

} // verus!
