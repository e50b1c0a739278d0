use vstd::prelude::*;
use vstd::hash_map::StringHashMap;
use crate::events::events::Event;

verus! {

/// The events waited on, by id.
pub struct EventsPool {
    events: StringHashMap<Event>,
}

impl View for EventsPool {
    type V = Map<Seq<char>, Event>;

    closed spec fn view(&self) -> Map<Seq<char>, Event> {
        self.events@
    }
}

/// The pool after removing one trigger of `id`, and the event handed back:
/// nothing happens to an absent id; an event down to its last trigger leaves
/// the pool and is handed back as it was stored; otherwise it stays with one
/// trigger fewer and is handed back so.
pub open spec fn spec_remove_event(m: Map<Seq<char>, Event>, id: Seq<char>) -> (Map<Seq<char>, Event>, Option<Event>) {
    if !m.contains_key(id) {
        (m, None)
    } else {
        let e = m[id];
        if e.num_triggers - 1 < 1 {
            (m.remove(id), Some(e))
        } else {
            let kept = Event { num_triggers: (e.num_triggers - 1) as usize, ..e };
            (m.insert(id, kept), Some(kept))
        }
    }
}

impl EventsPool {
    /// An empty pool.
    pub fn new() -> (pool: EventsPool)
        ensures
            pool@ == Map::<Seq<char>, Event>::empty(),
    {
        EventsPool { events: StringHashMap::new() }
    }

    /// The event stored under `event_id`, if any.
    pub fn get(&self, event_id: &str) -> (event: Option<&Event>)
        ensures
            match event {
                Some(e) => self@.contains_key(event_id@) && *e == self@[event_id@],
                None => !self@.contains_key(event_id@),
            },
    {
        self.events.get(event_id)
    }
}

/// Stores `event` under `event_id`, replacing what was there.
pub fn add_event(pool: &mut EventsPool, event_id: &str, event: Event)
    ensures
        final(pool)@ == old(pool)@.insert(event_id@, event),
{
    pool.events.insert(event_id.to_owned(), event);
}

/// Removes one trigger of the event `event_id` (see `spec_remove_event`).
///
/// A stored event must have a trigger to remove: one with none left cannot
/// lose another.
pub fn remove_event(pool: &mut EventsPool, event_id: &str) -> (removed: Option<Event>)
    requires
        old(pool)@.contains_key(event_id@) ==> old(pool)@[event_id@].num_triggers >= 1,
    ensures
        (final(pool)@, removed) == spec_remove_event(old(pool)@, event_id@),
{
    let stored = match pool.events.get(event_id) {
        Some(e) => e.duplicate(),
        None => {
            return None;
        },
    };
    let mut event = stored.duplicate();
    event.num_triggers = event.num_triggers - 1;
    if event.num_triggers < 1 {
        pool.events.remove(event_id);
        Some(stored)
    } else {
        let kept = event.duplicate();
        pool.events.insert(event_id.to_owned(), event);
        Some(kept)
    }
}

} // verus!
