use vstd::prelude::*;
use crate::events::events::{Event, EventType};
use vstd::hash_map::StringHashMap;
use crate::events::pool::{EventsPool, add_event, remove_event, spec_remove_event};

verus! {

/// Keeps the pool of events up to date with the changes asked of it.
pub struct EventsCommunicationOffice {}

/// The pool after one more trigger of the stored event `id`.
pub open spec fn spec_add_trigger(m: Map<Seq<char>, Event>, id: Seq<char>) -> Map<Seq<char>, Event> {
    m.insert(id, Event { num_triggers: (m[id].num_triggers + 1) as usize, ..m[id] })
}

/// The listeners of each event id. A listener is known by the number its
/// owner gave its channel; the channels themselves are kept by the owner.
pub struct ListenerChannels {
    listeners: StringHashMap<Vec<u64>>,
}

impl View for ListenerChannels {
    type V = Map<Seq<char>, Seq<u64>>;

    closed spec fn view(&self) -> Map<Seq<char>, Seq<u64>> {
        self.listeners@.map_values(|v: Vec<u64>| v@)
    }
}

/// Whether a list names no listener twice.
pub open spec fn no_duplicates(s: Seq<u64>) -> bool {
    forall|i: int, j: int| 0 <= i < j < s.len() ==> s[i] != s[j]
}

/// A copy of a list of listeners.
fn copy_listeners(v: &Vec<u64>) -> (copy: Vec<u64>)
    ensures
        copy@ == v@,
{
    let mut copy: Vec<u64> = Vec::new();
    let mut i: usize = 0;
    while i < v.len()
        invariant
            i <= v@.len(),
            copy@ == v@.take(i as int),
        decreases v@.len() - i,
    {
        copy.push(v[i]);
        i += 1;
        assert(copy@ =~= v@.take(i as int));
    }
    assert(v@.take(v@.len() as int) =~= v@);
    copy
}

impl ListenerChannels {
    /// Every id has listeners, and none twice.
    pub open spec fn wf(&self) -> bool {
        forall|k: Seq<char>| #[trigger] self@.contains_key(k) ==> self@[k].len() > 0 && no_duplicates(self@[k])
    }

    /// No listener.
    pub fn new() -> (channels: ListenerChannels)
        ensures
            channels.wf(),
            channels@ == Map::<Seq<char>, Seq<u64>>::empty(),
    {
        let channels = ListenerChannels { listeners: StringHashMap::new() };
        assert(channels@ =~= Map::<Seq<char>, Seq<u64>>::empty());
        channels
    }

    /// The listeners of `id`, in the order they registered.
    pub fn listeners_of(&self, id: &str) -> (listeners: Vec<u64>)
        ensures
            listeners@ == if self@.contains_key(id@) {
                self@[id@]
            } else {
                Seq::<u64>::empty()
            },
    {
        match self.listeners.get(id) {
            Some(v) => copy_listeners(v),
            None => Vec::new(),
        }
    }
}

/// Registers the listener `sender` for the event `id`; a listener already
/// registered for it is not registered again.
pub fn insert_listener_sender_channel(channels: &mut ListenerChannels, id: String, sender: u64)
    requires
        old(channels).wf(),
    ensures
        final(channels).wf(),
        final(channels)@ == old(channels)@.insert(
            id@,
            if !old(channels)@.contains_key(id@) {
                seq![sender]
            } else if old(channels)@[id@].contains(sender) {
                old(channels)@[id@]
            } else {
                old(channels)@[id@].push(sender)
            },
        ),
{
    let mut existing_senders = match channels.listeners.get(id.as_str()) {
        Some(v) => copy_listeners(v),
        None => Vec::new(),
    };
    let ghost old_list = existing_senders@;
    assert(old_list == if old(channels)@.contains_key(id@) {
        old(channels)@[id@]
    } else {
        Seq::<u64>::empty()
    });
    let mut i: usize = 0;
    while i < existing_senders.len()
        invariant
            i <= existing_senders@.len(),
            existing_senders@ == old_list,
            forall|j: int| 0 <= j < i ==> existing_senders@[j] != sender,
            channels@ == old(channels)@,
            channels.wf(),
            old_list == if old(channels)@.contains_key(id@) {
                old(channels)@[id@]
            } else {
                Seq::<u64>::empty()
            },
        decreases existing_senders@.len() - i,
    {
        if existing_senders[i] == sender {
            proof {
                assert(old_list[i as int] == sender);
                assert(old_list.contains(sender));
                assert(old(channels)@.contains_key(id@));
                assert(old(channels)@.insert(id@, old_list) =~= old(channels)@);
            }
            return;
        }
        i += 1;
    }
    existing_senders.push(sender);
    let ghost new_list = existing_senders@;
    channels.listeners.insert(id, existing_senders);
    proof {
        assert(!old_list.contains(sender));
        if !old(channels)@.contains_key(id@) {
            assert(old_list =~= Seq::<u64>::empty());
            assert(new_list =~= seq![sender]);
        }
        assert(channels@ =~= old(channels)@.insert(id@, new_list));
        assert forall|a: int, b: int| 0 <= a < b < new_list.len() implies new_list[a] != new_list[b] by {
            if b == new_list.len() - 1 {
                assert(new_list[a] == old_list[a]);
            }
        }
    }
}

/// Forgets the listener `sender` of the event `id`; an id left without
/// listeners is forgotten too.
pub fn remove_listener_sender_channel(channels: &mut ListenerChannels, id: &str, sender: u64)
    requires
        old(channels).wf(),
    ensures
        final(channels).wf(),
        !old(channels)@.contains_key(id@) ==> final(channels)@ == old(channels)@,
        old(channels)@.contains_key(id@) ==> {
            let kept = old(channels)@[id@].filter(|l: u64| l != sender);
            final(channels)@ == if kept.len() == 0 {
                old(channels)@.remove(id@)
            } else {
                old(channels)@.insert(id@, kept)
            }
        },
{
    let existing_senders = match channels.listeners.get(id) {
        Some(v) => copy_listeners(v),
        None => {
            return;
        },
    };
    let ghost old_list = existing_senders@;
    assert(old(channels)@.contains_key(id@) && old_list == old(channels)@[id@]);
    let mut kept: Vec<u64> = Vec::new();
    let mut i: usize = 0;
    while i < existing_senders.len()
        invariant
            i <= existing_senders@.len(),
            existing_senders@ == old_list,
            kept@ == old_list.take(i as int).filter(|l: u64| l != sender),
        decreases existing_senders@.len() - i,
    {
        proof {
            assert(old_list.take(i + 1).drop_last() =~= old_list.take(i as int));
            reveal_with_fuel(Seq::filter, 1);
        }
        if existing_senders[i] != sender {
            kept.push(existing_senders[i]);
        }
        i += 1;
    }
    assert(old_list.take(old_list.len() as int) =~= old_list);
    if kept.len() == 0 {
        channels.listeners.remove(id);
        proof {
            assert(channels@ =~= old(channels)@.remove(id@));
        }
    } else {
        let ghost kept_v = kept@;
        channels.listeners.insert(id.to_owned(), kept);
        proof {
            assert(channels@ =~= old(channels)@.insert(id@, kept_v));
            lemma_filter_no_duplicates(old_list, sender);
        }
    }
}

/// Keeping the listeners other than `sender` keeps a list without duplicates.
proof fn lemma_filter_no_duplicates(s: Seq<u64>, sender: u64)
    requires
        no_duplicates(s),
    ensures
        no_duplicates(s.filter(|l: u64| l != sender)),
    decreases s.len(),
{
    reveal_with_fuel(Seq::filter, 1);
    if s.len() > 0 {
        let prefix = s.drop_last();
        assert forall|i: int, j: int| 0 <= i < j < prefix.len() implies prefix[i] != prefix[j] by {
            assert(prefix[i] == s[i] && prefix[j] == s[j]);
        }
        lemma_filter_no_duplicates(prefix, sender);
        let pred = |l: u64| l != sender;
        let f = prefix.filter(pred);
        assert(s.filter(pred) == if pred(s.last()) { f.push(s.last()) } else { f });
        if s.last() != sender {
            assert forall|i: int| 0 <= i < f.len() implies f[i] != s.last() by {
                assert(f.contains(f[i]));
                prefix.lemma_filter_contains_rev(pred, f[i]);
                assert(prefix.contains(f[i]));
                let j = choose|j: int| 0 <= j < prefix.len() && prefix[j] == f[i];
                assert(s[j] == f[i]);
            }
        }
    }
}

/// A listener registered twice for the same event is listed once; once
/// removed, it is not listed any more.
pub proof fn law_listener_registered_once(list: Seq<u64>, sender: u64)
    requires
        no_duplicates(list),
    ensures
        !list.filter(|l: u64| l != sender).contains(sender),
        list.contains(sender) ==> no_duplicates(list),
        !list.contains(sender) ==> no_duplicates(list.push(sender)),
{
    let pred = |l: u64| l != sender;
    if list.filter(pred).contains(sender) {
        let i = choose|i: int| 0 <= i < list.filter(pred).len() && list.filter(pred)[i] == sender;
        list.lemma_filter_pred(pred, i);
    }
    if !list.contains(sender) {
        assert forall|i: int, j: int| 0 <= i < j < list.push(sender).len() implies list.push(sender)[i] != list.push(sender)[j] by {
            if j == list.len() {
                assert(list.push(sender)[i] == list[i]);
            }
        }
    }
}

impl EventsCommunicationOffice {
    /// Records one more trigger of the event `id`.
    pub fn add_event_to_pool(pool: &mut EventsPool, id: &str)
        requires
            old(pool)@.contains_key(id@) ==> old(pool)@[id@].num_triggers < usize::MAX,
        ensures
            old(pool)@.contains_key(id@) ==> final(pool)@ == spec_add_trigger(old(pool)@, id@),
            !old(pool)@.contains_key(id@) ==> final(pool)@.dom() == old(pool)@.dom().insert(id@),
            !old(pool)@.contains_key(id@) ==> forall|k: Seq<char>|
                k != id@ ==> final(pool)@.get(k) == #[trigger] old(pool)@.get(k),
            !old(pool)@.contains_key(id@) ==> final(pool)@[id@].id@ == id@
                && final(pool)@[id@].event_type == EventType::RestingState
                && final(pool)@[id@].num_triggers == 0,
    {
        let existing = match pool.get(id) {
            Some(event) => Some(event.duplicate()),
            None => None,
        };
        match existing {
            Some(mut event) => {
                event.num_triggers = event.num_triggers + 1;
                add_event(pool, id, event);
            },
            None => {
                let message = Event { id: id.to_owned(), event_type: EventType::RestingState, num_triggers: 0 };
                add_event(pool, id, message);
            },
        }
        proof {
            assert(final(pool)@.dom() =~= old(pool)@.dom().insert(id@));
            if old(pool)@.contains_key(id@) {
                assert(final(pool)@ =~= spec_add_trigger(old(pool)@, id@));
            }
        }
    }

    /// Removes one trigger of the event `id`, and tells whether the listeners
    /// of `id` are to be told of its removal: only when the pool held no such
    /// event.
    pub fn remove_event_from_pool(pool: &mut EventsPool, id: &str) -> (notify: bool)
        requires
            old(pool)@.contains_key(id@) ==> old(pool)@[id@].num_triggers >= 1,
        ensures
            final(pool)@ == spec_remove_event(old(pool)@, id@).0,
            notify == !old(pool)@.contains_key(id@),
    {
        match remove_event(pool, id) {
            Some(event) => {
                if event.num_triggers > 0 {
                    return false;
                }
                true
            },
            None => true,
        }
    }

    /// Applies a change asked of the pool: an addition adds a trigger, a
    /// removal removes one; anything else is ignored.
    pub fn handle_event(pool: &mut EventsPool, message: &Event)
        requires
            message.event_type == EventType::AddEvent && old(pool)@.contains_key(message.id@)
                ==> old(pool)@[message.id@].num_triggers < usize::MAX,
            message.event_type == EventType::RemovedEvent && old(pool)@.contains_key(message.id@)
                ==> old(pool)@[message.id@].num_triggers >= 1,
        ensures
            message.event_type == EventType::RemovedEvent ==> final(pool)@ == spec_remove_event(
                old(pool)@,
                message.id@,
            ).0,
            message.event_type == EventType::RestingState ==> final(pool)@ == old(pool)@,
            message.event_type == EventType::AddEvent ==> final(pool)@.dom() == old(pool)@.dom().insert(message.id@),
    {
        match message.event_type {
            EventType::AddEvent => {
                Self::add_event_to_pool(pool, message.id.as_str());
            },
            EventType::RemovedEvent => {
                let _ = remove_event(pool, message.id.as_str());
            },
            EventType::RestingState => {},
        }
    }
}

/// A trigger added to a stored event and then removed leaves the pool as it
/// was.
pub proof fn law_add_then_remove_restores(m: Map<Seq<char>, Event>, id: Seq<char>)
    requires
        m.contains_key(id),
        m[id].num_triggers >= 1,
        m[id].num_triggers < usize::MAX,
    ensures
        spec_remove_event(spec_add_trigger(m, id), id).0 == m,
        spec_remove_event(spec_add_trigger(m, id), id).1 == Some(m[id]),
{
    assert(spec_remove_event(spec_add_trigger(m, id), id).0 =~= m);
}

/// An event with one trigger left leaves the pool when that trigger is
/// removed, and removing from an absent id changes nothing.
pub proof fn law_last_trigger_leaves(m: Map<Seq<char>, Event>, id: Seq<char>)
    ensures
        m.contains_key(id) && m[id].num_triggers == 1 ==> !spec_remove_event(m, id).0.contains_key(id),
        !m.contains_key(id) ==> spec_remove_event(m, id) == (m, None::<Event>),
{
}

} // verus!
