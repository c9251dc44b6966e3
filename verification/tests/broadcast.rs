use ironbar::cached_broadcast::{Cacheable, CachedBroadcastChannel, Event};

#[derive(Debug, Clone, PartialEq)]
struct Output {
    id: u32,
    name: &'static str,
}

impl Cacheable for Output {
    type Key = u32;

    fn get_key(&self) -> u32 {
        self.id
    }
}

fn output(id: u32, name: &'static str) -> Output {
    Output { id, name }
}

fn names(channel: &CachedBroadcastChannel<Output>) -> Vec<&'static str> {
    channel.data().iter().map(|output| output.name).collect()
}

#[test]
fn new_channel_is_empty_and_has_its_capacity() {
    let (channel, rx) = CachedBroadcastChannel::<Output>::new(3);
    assert!(channel.data().is_empty());
    assert_eq!(channel.capacity(), 3);
    assert_eq!(rx.max_capacity(), 3);
}

#[test]
fn the_smallest_capacity_is_one() {
    let (channel, rx) = CachedBroadcastChannel::<Output>::new(1);
    assert_eq!(channel.capacity(), 1);
    assert!(channel.sender().try_send(Event::Remove(1)).is_ok());
    assert!(channel.sender().try_send(Event::Remove(2)).is_err());
    drop(rx);
}

#[test]
fn sender_leads_to_the_receiver_made_with_the_channel() {
    let (channel, mut rx) = CachedBroadcastChannel::<Output>::new(2);
    let first = channel.sender();
    let second = channel.sender();
    assert!(first.same_channel(&second));
    assert!(second.try_send(Event::Add(output(7, "DP-1"))).is_ok());
    match rx.try_recv() {
        Ok(Event::Add(received)) => assert_eq!(received, output(7, "DP-1")),
        _ => panic!("expected the event"),
    }
    assert!(rx.try_recv().is_err());
}

#[test]
fn every_receiver_has_a_channel_of_its_own() {
    let (mut channel, base) = CachedBroadcastChannel::<Output>::new(5);
    let first = channel.receiver();
    let second = channel.receiver();
    assert_eq!(first.max_capacity(), 5);
    assert_eq!(second.max_capacity(), 5);
    assert_eq!(first.sender_strong_count(), 1);
    assert_eq!(second.sender_strong_count(), 1);
    assert_eq!(base.sender_strong_count(), 1);
}

#[test]
fn add_appends_and_is_announced() {
    let (mut channel, _rx) = CachedBroadcastChannel::<Output>::new(4);
    match channel.send(Event::Add(output(1, "a"))) {
        Some(Event::Add(announced)) => assert_eq!(announced, output(1, "a")),
        _ => panic!("expected the event"),
    }
    channel.send(Event::Add(output(2, "b")));
    channel.send(Event::Add(output(1, "c")));
    assert_eq!(names(&channel), vec!["a", "b", "c"]);
}

#[test]
fn remove_takes_the_first_with_the_key() {
    let (mut channel, _rx) = CachedBroadcastChannel::<Output>::new(4);
    channel.send(Event::Add(output(1, "a")));
    channel.send(Event::Add(output(2, "b")));
    channel.send(Event::Add(output(1, "c")));
    match channel.send(Event::Remove(1)) {
        Some(Event::Remove(key)) => assert_eq!(key, 1),
        _ => panic!("expected the event"),
    }
    assert_eq!(names(&channel), vec!["b", "c"]);
}

#[test]
fn replace_puts_the_item_in_the_same_place() {
    let (mut channel, _rx) = CachedBroadcastChannel::<Output>::new(4);
    channel.send(Event::Add(output(1, "a")));
    channel.send(Event::Add(output(2, "b")));
    channel.send(Event::Add(output(3, "c")));
    match channel.send(Event::Replace(2, output(9, "d"))) {
        Some(Event::Replace(key, item)) => {
            assert_eq!(key, 2);
            assert_eq!(item, output(9, "d"));
        }
        _ => panic!("expected the event"),
    }
    assert_eq!(names(&channel), vec!["a", "d", "c"]);
    assert!(channel.send(Event::Remove(2)).is_none());
    assert!(channel.send(Event::Remove(9)).is_some());
}

#[test]
fn events_for_unknown_keys_are_dropped() {
    let (mut channel, _rx) = CachedBroadcastChannel::<Output>::new(4);
    assert!(channel.send(Event::Remove(1)).is_none());
    channel.send(Event::Add(output(1, "a")));
    assert!(channel.send(Event::Remove(2)).is_none());
    assert!(channel.send(Event::Replace(2, output(2, "b"))).is_none());
    assert_eq!(names(&channel), vec!["a"]);
}

#[test]
fn remove_undoes_add() {
    let (mut channel, _rx) = CachedBroadcastChannel::<Output>::new(4);
    channel.send(Event::Add(output(1, "a")));
    channel.send(Event::Add(output(2, "b")));
    channel.send(Event::Add(output(3, "c")));
    assert!(channel.send(Event::Remove(3)).is_some());
    assert_eq!(names(&channel), vec!["a", "b"]);
}

#[test]
fn following_the_announcements_keeps_up_with_the_list() {
    let (mut channel, _rx) = CachedBroadcastChannel::<Output>::new(4);
    channel.send(Event::Add(output(1, "a")));
    let (mut mirror, _mirror_rx) = CachedBroadcastChannel::<Output>::new(4);
    for item in channel.data().clone() {
        mirror.send(Event::Add(item));
    }
    let events = vec![
        Event::Remove(8),
        Event::Add(output(2, "b")),
        Event::Replace(1, output(3, "c")),
        Event::Replace(1, output(4, "d")),
        Event::Remove(2),
        Event::Remove(2),
    ];
    let mut announced: usize = 0;
    for event in events {
        if let Some(event) = channel.send(event) {
            announced += 1;
            mirror.send(event);
        }
        assert_eq!(channel.data(), mirror.data());
    }
    assert_eq!(announced, 3);
    assert_eq!(names(&channel), vec!["c"]);
}
