//! One piece of work for all callers that want the same thing at the same time.
use vstd::hash_map::StringHashMap;
use vstd::prelude::*;

verus! {

/// The work in flight: for each key at most one handle, on which any number of callers can wait.
#[verifier::reject_recursive_types(H)]
pub struct SingleFlight<H> {
    in_flight: StringHashMap<H>,
}

/// What happens in the course of a call.
pub enum FlightEvent<H> {
    /// A caller asks for what the key stands for.
    Arrived(String),
    /// The caller that was told to has begun the work, and this is the handle to wait on.
    Begun(String, H),
    /// The caller that began the work has its result.
    Landed(String),
}

/// What the caller has to do next.
pub enum FlightAction<H> {
    /// Begin the work, and say so before anyone else arrives.
    Begin,
    /// Wait on a handle to work that another caller began, and return its result.
    Join(H),
    /// Wait on the handle to the work that was begun, and say when it has landed.
    Await,
    /// Return the result.
    Return,
}

impl<H> View for SingleFlight<H> {
    type V = Map<Seq<char>, H>;

    closed spec fn view(&self) -> Map<Seq<char>, H> {
        self.in_flight@
    }
}

/// The work in flight after an event.
pub open spec fn flights_after<H>(flights: Map<Seq<char>, H>, event: FlightEvent<H>) -> Map<
    Seq<char>,
    H,
> {
    match event {
        FlightEvent::Arrived(_) => flights,
        FlightEvent::Begun(key, handle) => flights.insert(key@, handle),
        FlightEvent::Landed(key) => flights.remove(key@),
    }
}

/// Whether `action` is what the event calls for, given the work in flight.
pub open spec fn is_answer<H: Clone>(
    action: FlightAction<H>,
    flights: Map<Seq<char>, H>,
    event: FlightEvent<H>,
) -> bool {
    match event {
        FlightEvent::Arrived(key) => if flights.contains_key(key@) {
            action matches FlightAction::Join(handle) && cloned(flights[key@], handle)
        } else {
            action is Begin
        },
        FlightEvent::Begun(_, _) => action is Await,
        FlightEvent::Landed(_) => action is Return,
    }
}

impl<H: Clone> SingleFlight<H> {
    /// No work in flight.
    pub fn new() -> (flights: SingleFlight<H>)
        ensures
            flights@ == Map::<Seq<char>, H>::empty(),
    {
        SingleFlight { in_flight: StringHashMap::new() }
    }

    /// Takes note of an event, and says what the caller has to do next.
    pub fn do_call(&mut self, event: FlightEvent<H>) -> (action: FlightAction<H>)
        ensures
            final(self)@ == flights_after(old(self)@, event),
            is_answer(action, old(self)@, event),
    {
        match event {
            FlightEvent::Arrived(key) => match self.in_flight.get(key.as_str()) {
                Some(handle) => FlightAction::Join(handle.clone()),
                None => FlightAction::Begin,
            },
            FlightEvent::Begun(key, handle) => {
                self.in_flight.insert(key, handle);
                FlightAction::Await
            },
            FlightEvent::Landed(key) => {
                self.in_flight.remove(key.as_str());
                FlightAction::Return
            },
        }
    }
}

/// Who arrives once the work for the key has landed begins it anew.
pub proof fn arrival_after_landing_begins<H: Clone>(
    flights: Map<Seq<char>, H>,
    key: String,
    action: FlightAction<H>,
)
    requires
        is_answer(
            action,
            flights_after(flights, FlightEvent::Landed(key)),
            FlightEvent::Arrived(key),
        ),
    ensures
        action is Begin,
{
}

/// The key that an event is about.
pub open spec fn event_key<H>(event: FlightEvent<H>) -> Seq<char> {
    match event {
        FlightEvent::Arrived(key) => key@,
        FlightEvent::Begun(key, _) => key@,
        FlightEvent::Landed(key) => key@,
    }
}

/// What happens to one key leaves the work in flight for every other as it is.
pub proof fn other_keys_keep_their_work<H>(
    flights: Map<Seq<char>, H>,
    event: FlightEvent<H>,
    other: Seq<char>,
)
    requires
        other != event_key(event),
    ensures
        flights_after(flights, event).contains_key(other) == flights.contains_key(other),
        flights.contains_key(other) ==> flights_after(flights, event)[other] == flights[other],
{
}

/// A call that begins the work and sees it land leaves nothing behind.
pub proof fn finished_call_leaves_nothing<H>(flights: Map<Seq<char>, H>, key: String, handle: H)
    requires
        !flights.contains_key(key@),
    ensures
        flights_after(
            flights_after(flights, FlightEvent::Begun(key, handle)),
            FlightEvent::Landed(key),
        ) == flights,
{
    assert(flights.insert(key@, handle).remove(key@) =~= flights);
}

/// The work in flight after a history that began with none.
pub open spec fn flights_of<H>(history: Seq<FlightEvent<H>>) -> Map<Seq<char>, H>
    decreases history.len(),
{
    if history.len() == 0 {
        Map::empty()
    } else {
        flights_after(flights_of(history.drop_last()), history.last())
    }
}

/// Whether an event begins or ends work for the key.
pub open spec fn begins_or_ends<H>(event: FlightEvent<H>, key: Seq<char>) -> bool {
    !(event is Arrived) && event_key(event) == key
}

/// Work stays in flight from when it was begun until it lands.
proof fn work_stays_in_flight<H>(history: Seq<FlightEvent<H>>, at: int, key: String, handle: H)
    requires
        0 <= at < history.len(),
        history[at] == FlightEvent::Begun(key, handle),
        forall|i: int|
            at < i < history.len() ==> !begins_or_ends(#[trigger] history[i], key@),
    ensures
        flights_of(history).contains_key(key@),
        flights_of(history)[key@] == handle,
    decreases history.len(),
{
    let before = history.drop_last();
    if at < history.len() - 1 {
        assert forall|i: int| at < i < before.len() implies !begins_or_ends(
            #[trigger] before[i],
            key@,
        ) by {
            assert(before[i] == history[i]);
        }
        work_stays_in_flight(before, at, key, handle);
        assert(!begins_or_ends(history[history.len() - 1], key@));
    }
}

/// Whoever arrives after work for the key was begun and before it has landed joins that work,
/// whatever else has happened in between.
pub proof fn callers_share_work_until_it_lands<H: Clone>(
    history: Seq<FlightEvent<H>>,
    at: int,
    key: String,
    handle: H,
    action: FlightAction<H>,
)
    requires
        0 <= at < history.len(),
        history[at] == FlightEvent::Begun(key, handle),
        forall|i: int|
            at < i < history.len() ==> !begins_or_ends(#[trigger] history[i], key@),
        is_answer(action, flights_of(history), FlightEvent::Arrived(key)),
    ensures
        action matches FlightAction::Join(joined) && cloned(handle, joined),
{
    work_stays_in_flight(history, at, key, handle);
}

/// Whether callers did as they were told: work was begun only for a key with none in flight, and
/// landed only where it was in flight.
pub open spec fn orderly<H>(history: Seq<FlightEvent<H>>) -> bool
    decreases history.len(),
{
    history.len() == 0 || {
        &&& orderly(history.drop_last())
        &&& match history.last() {
            FlightEvent::Arrived(_) => true,
            FlightEvent::Begun(key, _) => !flights_of(history.drop_last()).contains_key(key@),
            FlightEvent::Landed(key) => flights_of(history.drop_last()).contains_key(key@),
        }
    }
}

/// How often work for the key was begun and had not landed by the end of the history.
pub open spec fn under_way<H>(history: Seq<FlightEvent<H>>, key: Seq<char>) -> int
    decreases history.len(),
{
    if history.len() == 0 {
        0
    } else {
        let before = under_way(history.drop_last(), key);
        if event_key(history.last()) != key {
            before
        } else {
            match history.last() {
                FlightEvent::Arrived(_) => before,
                FlightEvent::Begun(_, _) => before + 1,
                FlightEvent::Landed(_) => before - 1,
            }
        }
    }
}

/// However callers come and go, no key ever has more than one piece of work under way, and it is
/// the one that whoever arrives is told to join.
pub proof fn at_most_one_under_way<H>(history: Seq<FlightEvent<H>>, key: Seq<char>)
    requires
        orderly(history),
    ensures
        under_way(history, key) == if flights_of(history).contains_key(key) {
            1int
        } else {
            0int
        },
    decreases history.len(),
{
    if history.len() > 0 {
        at_most_one_under_way(history.drop_last(), key);
    }
}

} // verus!
