use vstd::prelude::*;

verus! {

/// The state an event is in, or the change asked of the pool.
#[derive(Debug, Clone, Copy, PartialEq, Eq)]
pub enum EventType {
    RestingState,
    AddEvent,
    RemovedEvent,
}

impl EventType {
    /// The name of the event type.
    pub fn as_str(&self) -> (name: &'static str)
        ensures
            name@ == match *self {
                EventType::RestingState => "RestingState"@,
                EventType::AddEvent => "AddEvent"@,
                EventType::RemovedEvent => "RemovedEvent"@,
            },
    {
        match self {
            EventType::RestingState => "RestingState",
            EventType::AddEvent => "AddEvent",
            EventType::RemovedEvent => "RemovedEvent",
        }
    }
}

/// An event of the pool: its id, its state, and how many more times it has
/// been triggered than its first addition.
pub struct Event {
    pub id: String,
    pub event_type: EventType,
    pub num_triggers: usize,
}

impl Event {
    /// A copy of the event.
    pub fn duplicate(&self) -> (copy: Event)
        ensures
            copy == *self,
    {
        Event { id: self.id.clone(), event_type: self.event_type, num_triggers: self.num_triggers }
    }
}

/// Whether a listener waiting on `listener_id` stops waiting at `event`: the
/// event of the same id was removed with no trigger left.
pub fn is_awaited_removal(listener_id: &String, event: &Event) -> (done: bool)
    ensures
        done == (event.event_type == EventType::RemovedEvent && event.id@ == listener_id@
            && event.num_triggers < 1),
{
    let removed = match event.event_type {
        EventType::RemovedEvent => true,
        _ => false,
    };
    removed && event.id == *listener_id && event.num_triggers < 1
}

/// Names the events a task waits on. The listener that receives the events is
/// kept by the caller under this id.
pub struct EventsHandler {
    pub id: String,
}

impl EventsHandler {
    /// A handler for the event `id`.
    pub fn new(id: &str) -> (handler: EventsHandler)
        ensures
            handler.id@ == id@,
    {
        EventsHandler { id: id.to_owned() }
    }

    /// A handler for the events of step `id`: the id is prefixed with `step_`.
    pub fn new_step(id: &str) -> (handler: EventsHandler)
        ensures
            handler.id@ == "step_"@ + id@,
    {
        let mut full = "step_".to_owned();
        full.append(id);
        Self::new(full.as_str())
    }

    /// A handler for the reads of step `id`: `read_` then the step prefix.
    pub fn new_read_step(id: &str) -> (handler: EventsHandler)
        ensures
            handler.id@ == "step_"@ + ("read_"@ + id@),
    {
        let mut full = "read_".to_owned();
        full.append(id);
        Self::new_step(full.as_str())
    }

    /// A handler for the writes of step `id`: `write_` then the step prefix.
    pub fn new_write_step(id: &str) -> (handler: EventsHandler)
        ensures
            handler.id@ == "step_"@ + ("write_"@ + id@),
    {
        let mut full = "write_".to_owned();
        full.append(id);
        Self::new_step(full.as_str())
    }

    /// A handler for the events of operation `id`: the id is prefixed with
    /// `operation_`.
    pub fn new_operation(id: &str) -> (handler: EventsHandler)
        ensures
            handler.id@ == "operation_"@ + id@,
    {
        let mut full = "operation_".to_owned();
        full.append(id);
        Self::new(full.as_str())
    }

    /// Whether the awaited event, once it came, had no trigger left.
    pub fn event_exists(&self, event: &Event) -> (present: bool)
        ensures
            present == (event.num_triggers < 1),
    {
        event.num_triggers < 1
    }
}

} // verus!
