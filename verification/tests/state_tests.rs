use thoth::connections::channels_node_info::NodesRegistry;
use thoth::connections::nodes_info::NodeInfo;
use thoth::events::back_office::{
    insert_listener_sender_channel, remove_listener_sender_channel, EventsCommunicationOffice,
    ListenerChannels,
};
use thoth::events::events::{is_awaited_removal, Event, EventType, EventsHandler};
use thoth::events::pool::{add_event, remove_event, EventsPool};
use thoth::operations::cache::objects::{
    clear_cached_objects, get_cached_object, insert_cache_object, overwrite_data_in_cached_object,
    remove_cached_object, CachedObj, ObjectCache,
};
use thoth::operations::checker::{
    decrease_running_operation, get_num_running_operations, increase_running_operation,
    is_internal_ops_finished, RunningOperations,
};

#[test]
fn running_operations_count_up_and_down() {
    let mut running = RunningOperations::new();
    let op = "op".to_string();
    assert!(!is_internal_ops_finished(&running, op.clone()));
    assert_eq!(get_num_running_operations(&running, op.clone()), 0);
    increase_running_operation(&mut running, op.clone());
    increase_running_operation(&mut running, op.clone());
    assert_eq!(get_num_running_operations(&running, op.clone()), 2);
    assert!(!is_internal_ops_finished(&running, op.clone()));
    decrease_running_operation(&mut running, op.clone());
    decrease_running_operation(&mut running, op.clone());
    assert_eq!(get_num_running_operations(&running, op.clone()), 0);
    assert!(is_internal_ops_finished(&running, op.clone()));
    decrease_running_operation(&mut running, op.clone());
    assert_eq!(get_num_running_operations(&running, op.clone()), 0);
    assert!(is_internal_ops_finished(&running, op.clone()));
}

#[test]
fn decreasing_an_unknown_operation_changes_nothing() {
    let mut running = RunningOperations::new();
    decrease_running_operation(&mut running, "ghost".to_string());
    assert!(!is_internal_ops_finished(&running, "ghost".to_string()));
    increase_running_operation(&mut running, "other".to_string());
    assert_eq!(get_num_running_operations(&running, "ghost".to_string()), 0);
}

fn event(id: &str, n: usize) -> Event {
    Event { id: id.to_string(), event_type: EventType::RestingState, num_triggers: n }
}

#[test]
fn pool_add_then_remove_restores() {
    let mut pool = EventsPool::new();
    add_event(&mut pool, "e", event("e", 1));
    EventsCommunicationOffice::add_event_to_pool(&mut pool, "e");
    assert_eq!(pool.get("e").unwrap().num_triggers, 2);
    let removed = remove_event(&mut pool, "e").unwrap();
    assert_eq!(removed.num_triggers, 1);
    assert_eq!(pool.get("e").unwrap().num_triggers, 1);
}

#[test]
fn pool_last_trigger_leaves_and_is_handed_back_as_stored() {
    let mut pool = EventsPool::new();
    add_event(&mut pool, "e", event("e", 1));
    let removed = remove_event(&mut pool, "e").unwrap();
    assert_eq!(removed.num_triggers, 1);
    assert!(pool.get("e").is_none());
    assert!(remove_event(&mut pool, "e").is_none());
}

#[test]
fn pool_new_event_rests_with_no_trigger() {
    let mut pool = EventsPool::new();
    EventsCommunicationOffice::add_event_to_pool(&mut pool, "fresh");
    let e = pool.get("fresh").unwrap();
    assert_eq!(e.id, "fresh");
    assert_eq!(e.event_type, EventType::RestingState);
    assert_eq!(e.num_triggers, 0);
}

#[test]
fn removal_notifies_only_for_absent_events() {
    let mut pool = EventsPool::new();
    assert!(EventsCommunicationOffice::remove_event_from_pool(&mut pool, "none"));
    add_event(&mut pool, "e", event("e", 2));
    assert!(!EventsCommunicationOffice::remove_event_from_pool(&mut pool, "e"));
    assert!(!EventsCommunicationOffice::remove_event_from_pool(&mut pool, "e"));
    assert!(pool.get("e").is_none());
}

#[test]
fn handle_event_dispatches() {
    let mut pool = EventsPool::new();
    let add = Event { id: "x".to_string(), event_type: EventType::AddEvent, num_triggers: 0 };
    EventsCommunicationOffice::handle_event(&mut pool, &add);
    EventsCommunicationOffice::handle_event(&mut pool, &add);
    assert_eq!(pool.get("x").unwrap().num_triggers, 1);
    let rm = Event { id: "x".to_string(), event_type: EventType::RemovedEvent, num_triggers: 0 };
    EventsCommunicationOffice::handle_event(&mut pool, &rm);
    assert!(pool.get("x").is_none());
    let rest = Event { id: "x".to_string(), event_type: EventType::RestingState, num_triggers: 0 };
    EventsCommunicationOffice::handle_event(&mut pool, &rest);
    assert!(pool.get("x").is_none());
}

#[test]
fn event_names_and_waiting() {
    assert_eq!(EventType::RestingState.as_str(), "RestingState");
    assert_eq!(EventType::AddEvent.as_str(), "AddEvent");
    assert_eq!(EventType::RemovedEvent.as_str(), "RemovedEvent");
    let id = "step_1".to_string();
    let removed = Event { id: id.clone(), event_type: EventType::RemovedEvent, num_triggers: 0 };
    assert!(is_awaited_removal(&id, &removed));
    let other = Event { id: "step_2".to_string(), event_type: EventType::RemovedEvent, num_triggers: 0 };
    assert!(!is_awaited_removal(&id, &other));
    let still = Event { id: id.clone(), event_type: EventType::RemovedEvent, num_triggers: 1 };
    assert!(!is_awaited_removal(&id, &still));
    let added = Event { id: id.clone(), event_type: EventType::AddEvent, num_triggers: 0 };
    assert!(!is_awaited_removal(&id, &added));
}

#[test]
fn handler_ids() {
    assert_eq!(EventsHandler::new("a").id, "a");
    assert_eq!(EventsHandler::new_step("a").id, "step_a");
    assert_eq!(EventsHandler::new_read_step("a").id, "step_read_a");
    assert_eq!(EventsHandler::new_write_step("a").id, "step_write_a");
    assert_eq!(EventsHandler::new_operation("a").id, "operation_a");
    let h = EventsHandler::new("a");
    assert!(h.event_exists(&event("a", 0)));
    assert!(!h.event_exists(&event("a", 3)));
}

#[test]
fn listener_channels_register_once() {
    let mut ch = ListenerChannels::new();
    insert_listener_sender_channel(&mut ch, "e".to_string(), 7);
    insert_listener_sender_channel(&mut ch, "e".to_string(), 7);
    insert_listener_sender_channel(&mut ch, "e".to_string(), 9);
    assert_eq!(ch.listeners_of("e"), vec![7, 9]);
    remove_listener_sender_channel(&mut ch, "e", 7);
    assert_eq!(ch.listeners_of("e"), vec![9]);
    remove_listener_sender_channel(&mut ch, "e", 9);
    assert!(ch.listeners_of("e").is_empty());
    remove_listener_sender_channel(&mut ch, "missing", 1);
    assert!(ch.listeners_of("missing").is_empty());
}

#[test]
fn cache_objects() {
    let mut cache: ObjectCache<Vec<f64>> = ObjectCache::new();
    insert_cache_object(&mut cache, CachedObj::new("a".to_string(), vec![1.0]));
    assert_eq!(get_cached_object(&cache, "a").unwrap().data, vec![1.0]);
    overwrite_data_in_cached_object(&mut cache, "a", vec![2.0, 3.0]);
    let obj = get_cached_object(&cache, "a").unwrap();
    assert_eq!(obj.id, "a");
    assert_eq!(obj.data, vec![2.0, 3.0]);
    overwrite_data_in_cached_object(&mut cache, "b", vec![9.0]);
    assert!(get_cached_object(&cache, "b").is_none());
    remove_cached_object(&mut cache, "a");
    assert!(get_cached_object(&cache, "a").is_none());
    insert_cache_object(&mut cache, CachedObj::new("c".to_string(), vec![]));
    clear_cached_objects(&mut cache);
    assert!(get_cached_object(&cache, "c").is_none());
}

fn node(id: &str, threads: usize) -> NodeInfo {
    NodeInfo { id: id.to_string(), av_threads: threads, av_ram: 1024 }
}

#[test]
fn registry_add_replace_remove() {
    let mut reg = NodesRegistry::new(node("me", 4));
    assert_eq!(reg.keys(), vec!["me".to_string()]);
    reg.add_node(node("n2", 2));
    reg.add_node(node("n3", 3));
    reg.add_node(node("n2", 8));
    assert_eq!(reg.keys(), vec!["me".to_string(), "n2".to_string(), "n3".to_string()]);
    assert_eq!(reg.get("n2").unwrap().av_threads, 8);
    assert_eq!(reg.len(), 3);
    reg.remove_node(&"n2".to_string());
    assert!(reg.get("n2").is_none());
    assert_eq!(reg.keys(), vec!["me".to_string(), "n3".to_string()]);
    reg.remove_node(&"absent".to_string());
    assert_eq!(reg.len(), 2);
}

#[test]
fn new_nodes_get_fresh_ids() {
    let a = NodeInfo::new(4, 100);
    let b = NodeInfo::new(4, 100);
    assert_eq!(a.id.len(), 36);
    assert_ne!(a.id, b.id);
    for (i, c) in a.id.chars().enumerate() {
        if [8, 13, 18, 23].contains(&i) {
            assert_eq!(c, '-');
        } else {
            assert!(c.is_ascii_digit() || ('a'..='f').contains(&c));
        }
    }
    assert_eq!(a.id.chars().nth(14), Some('4'));
    assert!(matches!(a.id.chars().nth(19), Some('8' | '9' | 'a' | 'b')));
    assert_eq!((a.av_threads, a.av_ram), (4, 100));
    let updated = a.update_current_node_info(8, 50);
    assert_eq!(updated.id, a.id);
    assert_eq!((updated.av_threads, updated.av_ram), (8, 50));
}

#[test]
fn counts_after_starts_and_stops() {
    for k in 1..5u64 {
        for j in 0..=k {
            let mut running = RunningOperations::new();
            let op = "op".to_string();
            for _ in 0..k {
                increase_running_operation(&mut running, op.clone());
            }
            for _ in 0..j {
                decrease_running_operation(&mut running, op.clone());
            }
            assert_eq!(get_num_running_operations(&running, op.clone()), k - j);
            assert_eq!(is_internal_ops_finished(&running, op.clone()), j == k);
        }
    }
}
