use zed_core::message_queue::{MessageQueue, QueueEntry, QueueEntryId};

fn queue_of(messages: &[&'static str]) -> MessageQueue<&'static str> {
    let mut queue = MessageQueue::new();
    for message in messages {
        let id = queue.next_id();
        assert_eq!(queue.enqueue(QueueEntry { id, message: *message }), id);
    }
    queue
}

fn message(entry: Option<QueueEntry<&'static str>>) -> Option<&'static str> {
    entry.map(|entry| entry.message)
}

#[test]
fn new_queue_is_empty() {
    let mut queue: MessageQueue<&'static str> = MessageQueue::new();
    assert!(queue.is_empty());
    assert_eq!(queue.len(), 0);
    assert!(queue.first().is_none());
    assert_eq!(queue.first_id(), None);
    assert!(queue.try_fast_track().is_none());
    assert!(queue.on_generation_stopped(false).is_none());
}

#[test]
fn ids_count_up() {
    let mut queue: MessageQueue<&'static str> = MessageQueue::new();
    assert_eq!(queue.next_id(), QueueEntryId(0));
    assert_eq!(queue.next_id(), QueueEntryId(1));
    assert_eq!(queue.next_id(), QueueEntryId(2));
}

#[test]
fn messages_leave_in_the_order_they_came() {
    let mut queue = queue_of(&["a", "b", "c"]);
    assert_eq!(queue.len(), 3);
    assert_eq!(queue.first_id(), Some(QueueEntryId(0)));
    assert_eq!(queue.iter().iter().map(|entry| entry.message).collect::<Vec<_>>(), ["a", "b", "c"]);
    assert_eq!(message(queue.on_generation_stopped(false)), Some("a"));
    assert_eq!(message(queue.on_generation_stopped(false)), Some("b"));
    assert_eq!(message(queue.on_generation_stopped(false)), Some("c"));
    assert_eq!(message(queue.on_generation_stopped(false)), None);
}

#[test]
fn nothing_is_sent_while_the_first_message_is_edited() {
    let mut queue = queue_of(&["a"]);
    assert_eq!(message(queue.on_generation_stopped(true)), None);
    assert_eq!(queue.len(), 1);
}

#[test]
fn paused_queue_sends_nothing_until_resumed() {
    let mut queue = queue_of(&["a"]);
    queue.pause();
    assert_eq!(message(queue.on_generation_stopped(false)), None);
    assert_eq!(message(queue.on_generation_stopped(false)), None);
    queue.resume();
    assert_eq!(message(queue.on_generation_stopped(false)), Some("a"));
}

#[test]
fn queueing_resumes_a_paused_queue() {
    let mut queue = queue_of(&["a"]);
    queue.pause();
    let id = queue.next_id();
    assert_eq!(queue.enqueue(QueueEntry { id, message: "b" }), QueueEntryId(1));
    assert_eq!(message(queue.on_generation_stopped(false)), Some("a"));
}

#[test]
fn stop_of_a_cancelled_turn_is_absorbed_once() {
    let mut queue = queue_of(&["a", "b", "c"]);
    assert_eq!(message(queue.send_now(QueueEntryId(1), true)), Some("b"));
    assert_eq!(message(queue.on_generation_stopped(false)), None);
    assert_eq!(message(queue.on_generation_stopped(false)), Some("a"));
    assert_eq!(message(queue.on_generation_stopped(false)), Some("c"));
}

#[test]
fn resuming_does_not_forget_a_cancelled_turn() {
    let mut queue = queue_of(&["a", "b"]);
    assert_eq!(message(queue.send_now(QueueEntryId(1), true)), Some("b"));
    queue.resume();
    assert_eq!(message(queue.on_generation_stopped(false)), None);
    assert_eq!(message(queue.on_generation_stopped(false)), Some("a"));
}

#[test]
fn sending_at_once_without_a_turn_absorbs_nothing() {
    let mut queue = queue_of(&["a", "b"]);
    assert_eq!(message(queue.send_now(QueueEntryId(1), false)), Some("b"));
    assert_eq!(message(queue.on_generation_stopped(false)), Some("a"));
}

#[test]
fn sending_an_unknown_message_changes_nothing() {
    let mut queue = queue_of(&["a"]);
    assert_eq!(message(queue.send_now(QueueEntryId(9), true)), None);
    assert_eq!(message(queue.on_generation_stopped(false)), Some("a"));
}

#[test]
fn fast_track_is_spent_by_its_first_use() {
    let mut queue = queue_of(&["a", "b"]);
    queue.pause();
    assert_eq!(message(queue.try_fast_track()), Some("a"));
    assert_eq!(message(queue.try_fast_track()), None);
    assert_eq!(message(queue.on_generation_stopped(false)), Some("b"));
}

#[test]
fn cleared_queue_has_no_fast_track() {
    let mut queue = queue_of(&["a", "b"]);
    queue.clear();
    assert!(queue.is_empty());
    assert_eq!(message(queue.try_fast_track()), None);
}

#[test]
fn entries_are_found_changed_and_removed_by_id() {
    let mut queue = queue_of(&["a", "b", "c"]);
    assert_eq!(queue.entry_by_id(QueueEntryId(1)).map(|entry| entry.message), Some("b"));
    assert!(queue.entry_by_id(QueueEntryId(7)).is_none());
    queue.entry_by_id_mut(QueueEntryId(1)).expect("the entry").message = "B";
    assert!(queue.entry_by_id_mut(QueueEntryId(7)).is_none());
    assert_eq!(message(queue.remove(QueueEntryId(0))), Some("a"));
    assert_eq!(message(queue.remove(QueueEntryId(0))), None);
    assert_eq!(queue.first().map(|entry| entry.message), Some("B"));
    assert_eq!(queue.len(), 2);
}
