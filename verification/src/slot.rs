//! A one-shot slot for a shared service: its initializer is started once, and
//! whatever it gave stays for the life of the process.

use vstd::prelude::*;

verus! {

/// Where a slot stands. `Ready` and `Failed` are final.
pub enum SlotState<T> {
    Uninitialized,
    Initializing,
    Ready(T),
    Failed(String),
}

/// What happens to a slot: a caller asks for the service, or the running
/// initializer ends with an outcome.
pub enum SlotEvent<T> {
    Request,
    Completion(Result<T, String>),
}

/// What a caller that asked for the service has to do.
#[derive(Debug, Clone, Copy, PartialEq, Eq, Structural)]
pub enum SlotRequest {
    /// Nobody has started yet: this caller runs the initializer and reports
    /// its outcome with `complete`.
    Initialize,
    /// Another caller is initializing: wait for its outcome.
    Wait,
    /// The outcome is there: read it.
    Settled,
}

impl<T> SlotState<T> {
    /// The state that an initializer's outcome leads to.
    pub open spec fn settled(outcome: Result<T, String>) -> SlotState<T> {
        match outcome {
            Ok(value) => SlotState::Ready(value),
            Err(error) => SlotState::Failed(error),
        }
    }

    /// Whether the state is final.
    pub open spec fn is_final(self) -> bool {
        self is Ready || self is Failed
    }

    /// Whether `event` in this state starts the initializer: only the first
    /// request does.
    pub open spec fn starts(self, event: SlotEvent<T>) -> bool {
        self is Uninitialized && event is Request
    }

    /// The state after `event`. A request starts an untouched slot; an
    /// outcome settles a slot that is initializing; nothing else changes it.
    pub open spec fn step(self, event: SlotEvent<T>) -> SlotState<T> {
        match (self, event) {
            (SlotState::Uninitialized, SlotEvent::Request) => SlotState::Initializing,
            (SlotState::Initializing, SlotEvent::Completion(outcome)) => Self::settled(outcome),
            _ => self,
        }
    }

    /// What a request in this state is answered with.
    pub open spec fn answer(self) -> SlotRequest {
        match self {
            SlotState::Uninitialized => SlotRequest::Initialize,
            SlotState::Initializing => SlotRequest::Wait,
            _ => SlotRequest::Settled,
        }
    }

    /// The state after all of `events`, in their order.
    pub open spec fn run(self, events: Seq<SlotEvent<T>>) -> SlotState<T>
        decreases events.len(),
    {
        if events.len() == 0 {
            self
        } else {
            self.run(events.drop_last()).step(events.last())
        }
    }

    /// How often `events`, from this state on, start the initializer.
    pub open spec fn started(self, events: Seq<SlotEvent<T>>) -> nat
        decreases events.len(),
    {
        if events.len() == 0 {
            0
        } else {
            let before = self.started(events.drop_last());
            if self.run(events.drop_last()).starts(events.last()) {
                before + 1
            } else {
                before
            }
        }
    }
}

/// A slot that holds one shared service.
pub struct ServiceSlot<T> {
    state: SlotState<T>,
}

impl<T> ServiceSlot<T> {
    /// Where the slot stands.
    pub closed spec fn state(&self) -> SlotState<T> {
        self.state
    }

    /// An untouched slot.
    pub fn new() -> (slot: Self)
        ensures
            slot.state() is Uninitialized,
    {
        ServiceSlot { state: SlotState::Uninitialized }
    }

    /// A caller asks for the service. The first caller is told to initialize
    /// and the slot is initializing from then on; later callers wait or find
    /// the outcome.
    pub fn request(&mut self) -> (answer: SlotRequest)
        ensures
            answer == old(self).state().answer(),
            final(self).state() == old(self).state().step(SlotEvent::Request),
            (answer == SlotRequest::Initialize) == old(self).state().starts(SlotEvent::Request),
    {
        match &self.state {
            SlotState::Uninitialized => {
                self.state = SlotState::Initializing;
                SlotRequest::Initialize
            },
            SlotState::Initializing => SlotRequest::Wait,
            _ => SlotRequest::Settled,
        }
    }

    /// The initializer reports its outcome. It is taken if the slot is
    /// initializing, and dropped otherwise: a settled slot never changes.
    pub fn complete(&mut self, outcome: Result<T, String>) -> (taken: bool)
        ensures
            taken == (old(self).state() is Initializing),
            final(self).state() == old(self).state().step(SlotEvent::Completion(outcome)),
    {
        match &self.state {
            SlotState::Initializing => {
                self.state = match outcome {
                    Ok(value) => SlotState::Ready(value),
                    Err(error) => SlotState::Failed(error),
                };
                true
            },
            _ => false,
        }
    }

    /// The outcome, once the slot is settled: the service, or the error that
    /// its initializer gave.
    pub fn outcome(&self) -> (outcome: Option<Result<&T, &String>>)
        ensures
            match self.state() {
                SlotState::Ready(value) => outcome == Some(Ok::<&T, &String>(&value)),
                SlotState::Failed(error) => outcome == Some(Err::<&T, &String>(&error)),
                _ => outcome is None,
            },
    {
        match &self.state {
            SlotState::Ready(value) => Some(Ok(value)),
            SlotState::Failed(error) => Some(Err(error)),
            _ => None,
        }
    }

    /// The service of the slot, initialized by `init` if nobody has started
    /// it yet. `init` runs only on an untouched slot; on any other the slot
    /// stays as it is, and the answer is the outcome that it holds. There is
    /// no answer only where another caller is still initializing.
    pub fn get_or_initialize<F: FnOnce() -> Result<T, String>>(&mut self, init: F) -> (outcome: Option<
        Result<&T, &String>,
    >)
        requires
            call_requires(init, ()),
        ensures
            old(self).state() is Uninitialized ==> exists|given: Result<T, String>|
                call_ensures(init, (), given) && final(self).state() == SlotState::settled(given),
            !(old(self).state() is Uninitialized) ==> final(self).state() == old(self).state(),
            outcome is None <==> old(self).state() is Initializing,
            match final(self).state() {
                SlotState::Ready(value) => outcome == Some(Ok::<&T, &String>(&value)),
                SlotState::Failed(error) => outcome == Some(Err::<&T, &String>(&error)),
                _ => outcome is None,
            },
    {
        match self.request() {
            SlotRequest::Initialize => {
                let given = init();
                self.complete(given);
            },
            _ => {},
        }
        self.outcome()
    }
}

/// However many callers ask and whatever is reported, the initializer of a
/// slot is started at most once, and exactly once if anyone asks.
pub proof fn lemma_initializer_starts_once<T>(events: Seq<SlotEvent<T>>)
    ensures
        SlotState::<T>::Uninitialized.started(events) <= 1,
        SlotState::<T>::Uninitialized.started(events) == 1 <==> exists|i: int|
            0 <= i < events.len() && events[i] is Request,
        SlotState::<T>::Uninitialized.started(events) == 0 <==> SlotState::<T>::Uninitialized.run(events)
            is Uninitialized,
    decreases events.len(),
{
    let fresh = SlotState::<T>::Uninitialized;
    if events.len() > 0 {
        let earlier = events.drop_last();
        lemma_initializer_starts_once(earlier);
        if exists|i: int| 0 <= i < earlier.len() && earlier[i] is Request {
            let i = choose|i: int| 0 <= i < earlier.len() && earlier[i] is Request;
            assert(events[i] is Request);
        }
        if exists|i: int| 0 <= i < events.len() && events[i] is Request {
            let i = choose|i: int| 0 <= i < events.len() && events[i] is Request;
            if i < earlier.len() {
                assert(earlier[i] is Request);
            }
        }
    }
}

/// A settled slot stays as it is: every later caller finds the same service
/// or the same error, whatever else is asked or reported.
pub proof fn lemma_settled_stays<T>(state: SlotState<T>, events: Seq<SlotEvent<T>>)
    requires
        state.is_final(),
    ensures
        state.run(events) == state,
        state.started(events) == 0,
    decreases events.len(),
{
    if events.len() > 0 {
        lemma_settled_stays(state, events.drop_last());
    }
}

/// Of the outcomes that are reported, the first one that arrives while the
/// slot is initializing is the one that all callers find: after it nothing
/// changes.
pub proof fn lemma_one_outcome<T>(
    before: Seq<SlotEvent<T>>,
    outcome: Result<T, String>,
    after: Seq<SlotEvent<T>>,
)
    requires
        SlotState::<T>::Uninitialized.run(before) is Initializing,
    ensures
        SlotState::<T>::Uninitialized.run(before.push(SlotEvent::Completion(outcome)) + after)
            == SlotState::settled(outcome),
{
    let fresh = SlotState::<T>::Uninitialized;
    let first = before.push(SlotEvent::Completion(outcome));
    assert(first.drop_last() =~= before);
    assert(fresh.run(first) == SlotState::settled(outcome));
    lemma_run_continues(fresh, first, after);
    lemma_settled_stays(SlotState::settled(outcome), after);
}

/// Running two runs of events one after the other is running them as one.
pub proof fn lemma_run_continues<T>(state: SlotState<T>, first: Seq<SlotEvent<T>>, second: Seq<SlotEvent<T>>)
    ensures
        state.run(first + second) == state.run(first).run(second),
    decreases second.len(),
{
    if second.len() == 0 {
        assert(first + second =~= first);
    } else {
        lemma_run_continues(state, first, second.drop_last());
        assert((first + second).drop_last() =~= first + second.drop_last());
    }
}

} // verus!
