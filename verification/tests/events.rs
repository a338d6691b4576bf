use hap::event::{Event, EventEmitter, Lifetime, Registered};
use hap::subscription::{
    can_remove, deliver, due_messages, lost_positions, remove_each, EventObject,
};
use std::sync::atomic::{AtomicBool, Ordering};
use std::sync::Arc;

fn changed(aid: u64, iid: u64) -> Event {
    Event::CharacteristicValueChanged { aid, iid, value: serde_json::Value::from(7u8) }
}

type Answer = Box<dyn Fn(&Event) -> u32>;

fn answering(number: u32) -> Answer {
    Box::new(move |_| number)
}

fn emitted(emitter: &EventEmitter<Answer>, event: &Event) -> Vec<u32> {
    let mut emission = emitter.emit(event);
    let mut answers = vec![];
    while let Some(notice) = emission.next() {
        answers.push((notice.listener)(notice.event));
    }
    answers
}

#[test]
fn listeners_answer_in_the_order_of_registration() {
    let mut emitter: EventEmitter<Answer> = EventEmitter::new();
    assert!(emitter.emit(&changed(1, 1)).next().is_none());
    emitter.add_listener(answering(1));
    emitter.add_scoped_listener(Arc::new(AtomicBool::new(true)), answering(2));
    emitter.add_listener(answering(3));
    let event = Event::ControllerPaired { id: uuid::Uuid::nil() };
    assert_eq!(emitted(&emitter, &event), vec![1, 2, 3]);
}

#[test]
fn a_listener_of_an_ended_connection_hears_nothing() {
    let mut emitter: EventEmitter<Answer> = EventEmitter::default();
    let alive = Arc::new(AtomicBool::new(true));
    emitter.add_listener(answering(1));
    emitter.add_scoped_listener(alive.clone(), answering(2));
    assert_eq!(emitted(&emitter, &changed(1, 1)), vec![1, 2]);
    alive.store(false, Ordering::Relaxed);
    assert_eq!(emitted(&emitter, &changed(1, 1)), vec![1]);
    assert_eq!(emitter.listeners.len(), 2);
    alive.store(true, Ordering::Relaxed);
    assert_eq!(emitted(&emitter, &changed(1, 1)), vec![1, 2]);
}

#[test]
fn every_listener_is_told_of_the_event_itself() {
    let mut emitter: EventEmitter<Answer> = EventEmitter::new();
    emitter.add_listener(Box::new(|event: &Event| match event {
        Event::CharacteristicValueChanged { aid, iid, .. } => (aid * 10 + iid) as u32,
        _ => 0,
    }));
    assert_eq!(emitted(&emitter, &changed(3, 4)), vec![34]);
    assert_eq!(emitted(&emitter, &Event::ControllerPaired { id: uuid::Uuid::nil() }), vec![0]);
}

#[test]
fn one_listener_is_told_if_it_is_alive() {
    let registered = Registered { lifetime: Lifetime::Server, listener: answering(5) };
    let event = changed(1, 1);
    let notice = registered.notify(true, &event).expect("a notice");
    assert_eq!((notice.listener)(notice.event), 5);
    assert!(registered.notify(false, &event).is_none());
}

#[test]
fn ended_connections_are_forgotten_when_the_next_one_comes() {
    let mut emitter: EventEmitter<Answer> = EventEmitter::new();
    emitter.add_listener(answering(0));
    for number in 1..20 {
        let alive = Arc::new(AtomicBool::new(true));
        emitter.add_scoped_listener(alive.clone(), answering(number));
        assert_eq!(emitter.listeners.len(), 2);
        assert_eq!(emitted(&emitter, &changed(1, 1)), vec![0, number]);
        alive.store(false, Ordering::Relaxed);
    }
    assert!(matches!(emitter.listeners[0].lifetime, Lifetime::Server));
}

#[test]
fn a_listener_of_the_server_is_told_every_time() {
    let mut emitter: EventEmitter<Answer> = EventEmitter::new();
    emitter.add_listener(answering(1));
    for _ in 0..3 {
        emitter.add_scoped_listener(Arc::new(AtomicBool::new(false)), answering(2));
        assert_eq!(emitted(&emitter, &changed(1, 1)), vec![1]);
    }
    emitter.add_listener(answering(3));
    assert_eq!(emitted(&emitter, &changed(1, 1)), vec![1, 3]);
}

#[test]
fn retained_listeners_keep_their_order() {
    let mut emitter: EventEmitter<Answer> = EventEmitter::new();
    let alive: Vec<Arc<AtomicBool>> = (0..5).map(|_| Arc::new(AtomicBool::new(true))).collect();
    for number in 0..5 {
        emitter.add_scoped_listener(alive[number].clone(), answering(number as u32));
    }
    alive[1].store(false, Ordering::Relaxed);
    alive[3].store(false, Ordering::Relaxed);
    emitter.forget_ended();
    assert_eq!(emitter.listeners.len(), 3);
    alive[1].store(true, Ordering::Relaxed);
    assert_eq!(emitted(&emitter, &changed(1, 1)), vec![0, 2, 4]);
}

#[test]
fn a_listener_can_end_one_that_comes_behind_it() {
    let mut emitter: EventEmitter<Answer> = EventEmitter::new();
    let alive = Arc::new(AtomicBool::new(true));
    let ended = alive.clone();
    emitter.add_listener(Box::new(move |_| {
        ended.store(false, Ordering::Relaxed);
        1
    }));
    emitter.add_scoped_listener(alive.clone(), answering(2));
    emitter.add_listener(answering(3));
    assert_eq!(emitted(&emitter, &changed(1, 1)), vec![1, 3]);
}

#[test]
fn subscribers_get_the_new_value() {
    let due = due_messages(&vec![(1, 9), (2, 9), (1, 10)], &changed(2, 9));
    assert_eq!(due.len(), 1);
    assert_eq!(due[0].0, 1);
    assert_eq!(due[0].1.aid, 2);
    assert_eq!(due[0].1.iid, 9);
    assert_eq!(due[0].1.value, serde_json::Value::from(7u8));
}

#[test]
fn a_subscription_made_twice_is_told_twice() {
    let due = due_messages(&vec![(2, 9), (1, 9), (2, 9)], &changed(2, 9));
    let positions: Vec<usize> = due.iter().map(|message| message.0).collect();
    assert_eq!(positions, vec![0, 2]);
    assert!(due.iter().all(|message| (message.1.aid, message.1.iid) == (2, 9)));
}

#[test]
fn other_events_concern_no_subscription() {
    let event = Event::ControllerUnpaired { id: uuid::Uuid::nil() };
    assert!(due_messages(&vec![(0, 0)], &event).is_empty());
    assert!(due_messages(&vec![], &changed(0, 0)).is_empty());
    assert!(due_messages(&vec![(9, 2)], &changed(2, 9)).is_empty());
}

#[test]
fn what_could_not_be_sent_is_lost() {
    assert_eq!(lost_positions(&vec![1, 4, 6], &vec![false, true, false]), vec![1, 6]);
    assert!(lost_positions(&vec![1, 4], &vec![true, true]).is_empty());
    assert!(lost_positions(&vec![], &vec![]).is_empty());
}

fn after_delivery(mut subscriptions: Vec<(u64, u64)>, sent: Vec<bool>) -> Vec<(u64, u64)> {
    let removed = deliver(&mut subscriptions, &changed(2, 9), |messages: Vec<EventObject>| {
        assert_eq!(messages.len(), sent.len());
        for message in messages {
            assert_eq!((message.aid, message.iid), (2, 9));
            assert_eq!(message.value, serde_json::Value::from(7u8));
        }
        sent
    });
    assert!(removed);
    subscriptions
}

#[test]
fn a_lost_subscription_is_forgotten() {
    let subscriptions = vec![(1, 9), (2, 9), (1, 10)];
    assert_eq!(after_delivery(subscriptions.clone(), vec![false]), vec![(1, 9), (1, 10)]);
    assert_eq!(after_delivery(subscriptions.clone(), vec![true]), subscriptions);
}

#[test]
fn one_of_two_lost_subscriptions_is_forgotten() {
    let subscriptions = vec![(2, 9), (1, 9), (2, 9), (1, 10)];
    assert_eq!(
        after_delivery(subscriptions.clone(), vec![true, false]),
        vec![(2, 9), (1, 9), (1, 10)],
    );
    assert_eq!(
        after_delivery(subscriptions, vec![false, true]),
        vec![(1, 9), (2, 9), (1, 10)],
    );
}

#[test]
fn a_second_removal_counts_in_the_list_that_the_first_left() {
    let subscriptions = vec![(2, 9), (1, 9), (2, 9), (1, 10)];
    assert_eq!(after_delivery(subscriptions, vec![false, false]), vec![(1, 9), (2, 9)]);
    assert_eq!(after_delivery(vec![(2, 9), (2, 9), (2, 9)], vec![false, false, true]), vec![(2, 9)]);
}

#[test]
fn a_removal_behind_the_end_is_refused() {
    let mut subscriptions = vec![(1, 9), (2, 9), (2, 9)];
    assert!(!deliver(&mut subscriptions, &changed(2, 9), |_: Vec<EventObject>| {
        vec![false, false]
    }));
    assert_eq!(subscriptions, vec![(1, 9), (2, 9), (2, 9)]);
}

#[test]
fn a_connection_without_subscriptions_is_sent_nothing() {
    let unwanted = |messages: Vec<EventObject>| -> Vec<bool> {
        assert!(messages.is_empty());
        vec![]
    };
    let mut none = vec![];
    assert!(deliver(&mut none, &changed(2, 9), unwanted));
    assert!(none.is_empty());
    let mut others = vec![(9, 2)];
    assert!(deliver(&mut others, &changed(2, 9), unwanted));
    assert!(deliver(&mut others, &Event::ControllerPaired { id: uuid::Uuid::nil() }, unwanted));
    assert_eq!(others, vec![(9, 2)]);
}

#[test]
fn positions_are_removed_one_after_the_other() {
    let mut subscriptions = vec![(1, 1), (2, 2), (3, 3), (4, 4)];
    let positions = vec![0, 2];
    assert!(can_remove(&subscriptions, &positions));
    remove_each(&mut subscriptions, &positions);
    assert_eq!(subscriptions, vec![(2, 2), (3, 3)]);
    assert!(!can_remove(&vec![(1, 1), (1, 1)], &vec![0, 1]));
    assert!(can_remove(&vec![(1, 1), (1, 1)], &vec![0, 0]));
    assert!(!can_remove(&vec![], &vec![0]));
}

#[test]
fn every_subscription_is_sent_the_event_and_stays() {
    let subscriptions = vec![(2, 9), (2, 9), (1, 9)];
    assert_eq!(after_delivery(subscriptions.clone(), vec![true, true]), subscriptions);
}
