//! Messages waiting to be sent to an agent that is still busy.

use std::collections::VecDeque;
use vstd::prelude::*;

verus! {

/// Identifies a queued message for as long as the queue lives.
#[derive(Debug, Clone, Copy, PartialEq, Eq, Hash, Structural)]
pub struct QueueEntryId(pub usize);

/// A queued message. What it says, and the editor it is shown in, is the caller's business.
#[derive(Debug)]
pub struct QueueEntry<M> {
    pub id: QueueEntryId,
    pub message: M,
}

/// Whether queued messages are sent on their own.
#[derive(Debug, Clone, Copy, PartialEq, Eq, Structural)]
pub enum ProcessingState {
    AutoProcess,
    Paused,
    /// A message was sent out of turn and the running generation cancelled. The end of the
    /// cancelled one is still to come and must not send another message.
    SkipCancelledStop,
}

/// The messages in the order they will be sent.
pub struct MessageQueue<M> {
    entries: VecDeque<QueueEntry<M>>,
    processing_state: ProcessingState,
    can_fast_track: bool,
    next_id: usize,
}

/// What a [`MessageQueue`] holds.
pub struct QueueView<M> {
    pub entries: Seq<QueueEntry<M>>,
    pub processing: ProcessingState,
    pub can_fast_track: bool,
    pub next_id: nat,
}

/// The place of the first entry with the given id.
pub open spec fn position<M>(entries: Seq<QueueEntry<M>>, id: QueueEntryId) -> Option<int>
    decreases entries.len(),
{
    if entries.len() == 0 {
        None
    } else {
        match position(entries.drop_last(), id) {
            Some(at) => Some(at),
            None => if entries.last().id == id {
                Some(entries.len() - 1)
            } else {
                None
            },
        }
    }
}

/// A message is found at the first place where its id is, and nowhere where no message has the id.
pub proof fn position_is_first<M>(entries: Seq<QueueEntry<M>>, id: QueueEntryId)
    ensures
        match position(entries, id) {
            Some(at) => 0 <= at < entries.len() && entries[at].id == id && forall|i: int|
                0 <= i < at ==> (#[trigger] entries[i]).id != id,
            None => forall|i: int| 0 <= i < entries.len() ==> (#[trigger] entries[i]).id != id,
        },
    decreases entries.len(),
{
    if entries.len() > 0 {
        position_is_first(entries.drop_last(), id);
        assert(forall|i: int|
            0 <= i < entries.len() - 1 ==> entries[i] == entries.drop_last()[i]);
    }
}

impl<M> QueueView<M> {
    /// The message that would go out next.
    pub open spec fn front(self) -> Option<QueueEntry<M>> {
        if self.entries.len() > 0 {
            Some(self.entries[0])
        } else {
            None
        }
    }

    /// The queue after its front message has gone out.
    pub open spec fn without_front(self) -> QueueView<M> {
        QueueView {
            entries: if self.entries.len() > 0 {
                self.entries.skip(1)
            } else {
                self.entries
            },
            ..self
        }
    }

    /// The queued message with the given id.
    pub open spec fn entry(self, id: QueueEntryId) -> Option<QueueEntry<M>> {
        match position(self.entries, id) {
            Some(at) => Some(self.entries[at]),
            None => None,
        }
    }

    /// The queue after the message with the given id has left it.
    pub open spec fn without(self, id: QueueEntryId) -> QueueView<M> {
        QueueView {
            entries: match position(self.entries, id) {
                Some(at) => self.entries.remove(at),
                None => self.entries,
            },
            ..self
        }
    }

    /// After a message was put at the end of the queue.
    pub open spec fn enqueued(self, entry: QueueEntry<M>) -> QueueView<M> {
        QueueView {
            entries: self.entries.push(entry),
            processing: ProcessingState::AutoProcess,
            can_fast_track: true,
            next_id: self.next_id,
        }
    }

    /// After a generation has ended: the queue, and the message to send.
    pub open spec fn stopped(self, is_first_editor_focused: bool) -> (
        QueueView<M>,
        Option<QueueEntry<M>>,
    ) {
        match self.processing {
            ProcessingState::SkipCancelledStop => (
                QueueView { processing: ProcessingState::AutoProcess, ..self },
                None,
            ),
            ProcessingState::Paused => (self, None),
            ProcessingState::AutoProcess => if is_first_editor_focused {
                (self, None)
            } else {
                (self.without_front(), self.front())
            },
        }
    }

    /// After the user asked to send one message at once.
    pub open spec fn sent_now(self, id: QueueEntryId, is_generating: bool) -> QueueView<M> {
        if self.entry(id) is Some && is_generating {
            QueueView { processing: ProcessingState::SkipCancelledStop, ..self.without(id) }
        } else {
            self.without(id)
        }
    }

    /// After the user stopped the agent.
    pub open spec fn paused(self) -> QueueView<M> {
        QueueView { processing: ProcessingState::Paused, ..self }
    }

    /// After the user sent a message that was not queued.
    pub open spec fn resumed(self) -> QueueView<M> {
        if self.processing is Paused {
            QueueView { processing: ProcessingState::AutoProcess, ..self }
        } else {
            self
        }
    }

    /// After the user asked to send the next message without waiting.
    pub open spec fn fast_tracked(self) -> (QueueView<M>, Option<QueueEntry<M>>) {
        if self.can_fast_track {
            (
                QueueView {
                    processing: ProcessingState::AutoProcess,
                    can_fast_track: false,
                    ..self.without_front()
                },
                self.front(),
            )
        } else {
            (self, None)
        }
    }

    /// Whether every id in the queue was handed out by it, and none is in it twice.
    pub open spec fn ids_are_distinct(self) -> bool {
        &&& forall|i: int| 0 <= i < self.entries.len() ==> (#[trigger] self.entries[i]).id.0 < self.next_id
        &&& forall|i: int, j: int|
            0 <= i < j < self.entries.len() ==> (#[trigger] self.entries[i]).id != (
            #[trigger] self.entries[j]).id
    }
}

/// A mutable borrow of one element, by `VecDeque::index_mut`: what is written to it is
/// written to that place of the deque, and every other element stays as it was.
#[verifier::external_body]
fn element_mut<T>(deque: &mut VecDeque<T>, index: usize) -> (element: &mut T)
    requires
        index < old(deque)@.len(),
    ensures
        *element == old(deque)@[index as int],
        final(deque)@ == old(deque)@.update(index as int, *final(element)),
{
    &mut deque[index]
}

impl<M> MessageQueue<M> {
    /// What the queue holds.
    pub closed spec fn view(&self) -> QueueView<M> {
        QueueView {
            entries: self.entries@,
            processing: self.processing_state,
            can_fast_track: self.can_fast_track,
            next_id: self.next_id as nat,
        }
    }

    /// An empty queue that sends on its own.
    pub fn new() -> (queue: Self)
        ensures
            queue@ == (QueueView::<M> {
                entries: Seq::empty(),
                processing: ProcessingState::AutoProcess,
                can_fast_track: false,
                next_id: 0,
            }),
    {
        MessageQueue {
            entries: VecDeque::new(),
            processing_state: ProcessingState::AutoProcess,
            can_fast_track: false,
            next_id: 0,
        }
    }

    /// Whether no message waits.
    pub fn is_empty(&self) -> (empty: bool)
        ensures
            empty == (self@.entries.len() == 0),
    {
        self.entries.len() == 0
    }

    /// How many messages wait.
    pub fn len(&self) -> (len: usize)
        ensures
            len == self@.entries.len(),
    {
        self.entries.len()
    }

    /// The message that would go out next.
    pub fn first(&self) -> (first: Option<&QueueEntry<M>>)
        ensures
            match first {
                Some(entry) => self@.front() == Some(*entry),
                None => self@.front() is None,
            },
    {
        if self.entries.len() > 0 {
            Some(&self.entries[0])
        } else {
            None
        }
    }

    /// The id of the message that would go out next.
    pub fn first_id(&self) -> (id: Option<QueueEntryId>)
        ensures
            id == (match self@.front() {
                Some(entry) => Some(entry.id),
                None => None,
            }),
    {
        if self.entries.len() > 0 {
            Some(self.entries[0].id)
        } else {
            None
        }
    }

    fn find(&self, id: QueueEntryId) -> (at: Option<usize>)
        ensures
            match at {
                Some(at) => position(self@.entries, id) == Some(at as int) && at
                    < self@.entries.len(),
                None => position(self@.entries, id) is None,
            },
    {
        let mut at: usize = 0;
        while at < self.entries.len()
            invariant
                at <= self.entries@.len(),
                forall|i: int| 0 <= i < at ==> (#[trigger] self.entries@[i]).id != id,
            decreases self.entries@.len() - at,
        {
            if self.entries[at].id == id {
                proof {
                    position_is_first(self.entries@, id);
                }
                return Some(at);
            }
            at = at + 1;
        }
        proof {
            position_is_first(self.entries@, id);
        }
        None
    }

    /// The queued message with the given id.
    pub fn entry_by_id(&self, id: QueueEntryId) -> (entry: Option<&QueueEntry<M>>)
        ensures
            match entry {
                Some(entry) => self@.entry(id) == Some(*entry),
                None => self@.entry(id) is None,
            },
    {
        match self.find(id) {
            Some(at) => Some(&self.entries[at]),
            None => None,
        }
    }

    /// The queued message with the given id, to be changed in place.
    pub fn entry_by_id_mut(&mut self, id: QueueEntryId) -> (entry: Option<&mut QueueEntry<M>>)
        ensures
            match entry {
                Some(entry) => {
                    &&& old(self)@.entry(id) == Some(*entry)
                    &&& final(self)@ == (QueueView {
                        entries: old(self)@.entries.update(
                            position(old(self)@.entries, id)->0,
                            *final(entry),
                        ),
                        ..old(self)@
                    })
                },
                None => old(self)@.entry(id) is None && final(self)@ == old(self)@,
            },
    {
        match self.find(id) {
            Some(at) => Some(element_mut(&mut self.entries, at)),
            None => None,
        }
    }

    /// The messages in the order they will be sent.
    pub fn iter(&self) -> (entries: Vec<&QueueEntry<M>>)
        ensures
            entries@.len() == self@.entries.len(),
            forall|i: int| 0 <= i < entries@.len() ==> *entries@[i] == self@.entries[i],
    {
        let mut entries: Vec<&QueueEntry<M>> = Vec::new();
        let mut at: usize = 0;
        while at < self.entries.len()
            invariant
                at <= self.entries@.len(),
                entries@.len() == at,
                forall|i: int| 0 <= i < at ==> *entries@[i] == self.entries@[i],
            decreases self.entries@.len() - at,
        {
            entries.push(&self.entries[at]);
            at = at + 1;
        }
        entries
    }

    /// Puts a message at the end of the queue, and gives back its id. The user is engaged, so
    /// messages are sent on their own again and the next may be sent without waiting.
    pub fn enqueue(&mut self, entry: QueueEntry<M>) -> (id: QueueEntryId)
        ensures
            id == entry.id,
            final(self)@ == old(self)@.enqueued(entry),
    {
        let id = entry.id;
        self.entries.push_back(entry);
        self.processing_state = ProcessingState::AutoProcess;
        self.can_fast_track = true;
        id
    }

    /// Hands out the next id, before the message that will carry it is made.
    pub fn next_id(&mut self) -> (id: QueueEntryId)
        requires
            old(self)@.next_id < usize::MAX,
        ensures
            id.0 == old(self)@.next_id,
            final(self)@ == (QueueView { next_id: old(self)@.next_id + 1, ..old(self)@ }),
    {
        let id = QueueEntryId(self.next_id);
        self.next_id = self.next_id + 1;
        id
    }

    /// Takes the message with the given id out of the queue.
    pub fn remove(&mut self, id: QueueEntryId) -> (entry: Option<QueueEntry<M>>)
        ensures
            entry == old(self)@.entry(id),
            final(self)@ == old(self)@.without(id),
    {
        match self.find(id) {
            Some(at) => self.entries.remove(at),
            None => None,
        }
    }

    /// Takes every message out of the queue. Whether messages are sent on their own stays as
    /// it was.
    pub fn clear(&mut self)
        ensures
            final(self)@ == (QueueView {
                entries: Seq::empty(),
                can_fast_track: false,
                ..old(self)@
            }),
    {
        self.entries.clear();
        self.can_fast_track = false;
    }

    /// The user pressed enter on an empty editor: the next message goes out at once if one
    /// was queued since the last time. Being a deliberate act, this ends a pause.
    pub fn try_fast_track(&mut self) -> (entry: Option<QueueEntry<M>>)
        ensures
            (final(self)@, entry) == old(self)@.fast_tracked(),
    {
        if !self.can_fast_track {
            return None;
        }
        self.can_fast_track = false;
        self.processing_state = ProcessingState::AutoProcess;
        self.entries.pop_front()
    }

    /// A generation has ended: the message to send next, if one is to be sent. While the user
    /// edits the first message it stays.
    pub fn on_generation_stopped(&mut self, is_first_editor_focused: bool) -> (entry: Option<
        QueueEntry<M>,
    >)
        ensures
            (final(self)@, entry) == old(self)@.stopped(is_first_editor_focused),
    {
        match self.processing_state {
            ProcessingState::SkipCancelledStop => {
                self.processing_state = ProcessingState::AutoProcess;
                None
            },
            ProcessingState::Paused => None,
            ProcessingState::AutoProcess => {
                if is_first_editor_focused {
                    return None;
                }
                self.entries.pop_front()
            },
        }
    }

    /// The user asked to send one message at once. If the agent was generating, the end of
    /// the generation that this cancels must not send another message.
    pub fn send_now(&mut self, id: QueueEntryId, is_generating: bool) -> (entry: Option<
        QueueEntry<M>,
    >)
        ensures
            entry == old(self)@.entry(id),
            final(self)@ == old(self)@.sent_now(id, is_generating),
    {
        let entry = self.remove(id);
        if entry.is_some() && is_generating {
            self.processing_state = ProcessingState::SkipCancelledStop;
        }
        entry
    }

    /// The user stopped the agent: queued messages wait.
    pub fn pause(&mut self)
        ensures
            final(self)@ == old(self)@.paused(),
    {
        self.processing_state = ProcessingState::Paused;
    }

    /// The user sent a message that was not queued: a pause is over.
    pub fn resume(&mut self)
        ensures
            final(self)@ == old(self)@.resumed(),
    {
        if self.processing_state == ProcessingState::Paused {
            self.processing_state = ProcessingState::AutoProcess;
        }
    }
}

/// The queue after generations have ended, once for each element of `focused`.
pub open spec fn after_stops<M>(queue: QueueView<M>, focused: Seq<bool>) -> QueueView<M>
    decreases focused.len(),
{
    if focused.len() == 0 {
        queue
    } else {
        after_stops(queue, focused.drop_last()).stopped(focused.last()).0
    }
}

/// A paused queue sends nothing and loses nothing, however many generations end.
pub proof fn paused_queue_sends_nothing<M>(queue: QueueView<M>, focused: Seq<bool>, next: bool)
    ensures
        after_stops(queue.paused(), focused) == queue.paused(),
        after_stops(queue.paused(), focused).stopped(next).1 is None,
    decreases focused.len(),
{
    if focused.len() > 0 {
        paused_queue_sends_nothing(queue, focused.drop_last(), next);
    }
}

/// Once a message was sent out of turn during a generation, the next end of a generation sends
/// nothing, and the one after it sends the front message as ever.
pub proof fn cancelled_stop_is_absorbed_once<M>(
    queue: QueueView<M>,
    id: QueueEntryId,
    focused: bool,
)
    requires
        queue.entry(id) is Some,
    ensures
        queue.sent_now(id, true).stopped(focused).1 is None,
        queue.sent_now(id, true).stopped(focused).0 == (QueueView {
            processing: ProcessingState::AutoProcess,
            ..queue.without(id)
        }),
        queue.sent_now(id, true).stopped(focused).0.stopped(false).1 == queue.without(id).front(),
{
}

/// Messages go out in the order they were queued: what is queued behind others is sent only
/// when they have gone.
pub proof fn messages_leave_in_order<M>(queue: QueueView<M>, entry: QueueEntry<M>)
    requires
        queue.entries.len() > 0,
    ensures
        queue.enqueued(entry).stopped(false).1 == queue.front(),
        queue.enqueued(entry).stopped(false).0.entries == queue.without_front().entries.push(entry),
{
    assert(queue.enqueued(entry).entries.skip(1) =~= queue.without_front().entries.push(entry));
}

/// A message is fast-tracked at most once for each time one was queued.
pub proof fn fast_track_is_spent<M>(queue: QueueView<M>)
    ensures
        queue.fast_tracked().0.fast_tracked().1 is None,
        queue.fast_tracked().0.fast_tracked().0 == queue.fast_tracked().0,
{
}

/// A message queued under an id fresh from the queue can be found by it, and ids stay distinct
/// whatever is queued, sent or removed.
pub proof fn ids_stay_distinct<M>(
    queue: QueueView<M>,
    entry: QueueEntry<M>,
    id: QueueEntryId,
    flag: bool,
)
    requires
        queue.ids_are_distinct(),
        entry.id.0 == queue.next_id,
    ensures
        (QueueView { next_id: queue.next_id + 1, ..queue }).enqueued(entry).ids_are_distinct(),
        queue.enqueued(entry).entry(entry.id) == Some(entry),
        queue.without(id).ids_are_distinct(),
        queue.without(id).entry(id) is None,
        queue.sent_now(id, flag).ids_are_distinct(),
        queue.stopped(flag).0.ids_are_distinct(),
        queue.fast_tracked().0.ids_are_distinct(),
        queue.paused().ids_are_distinct(),
        queue.resumed().ids_are_distinct(),
{
    position_is_first(queue.enqueued(entry).entries, entry.id);
    position_is_first(queue.entries, entry.id);
    position_is_first(queue.entries, id);
    position_is_first(queue.without(id).entries, id);
    assert(queue.enqueued(entry).entries.drop_last() =~= queue.entries);
}

/// Sending a message by hand takes that message out and no other, and leaves the order of the rest,
/// what may be fast-tracked and the ids alone. While nothing is generated it changes nothing else:
/// a paused queue stays paused, and one that sends on its own goes on doing so. An id that no
/// message has changes nothing at all.
pub proof fn sending_by_hand_takes_one_message<M>(
    queue: QueueView<M>,
    id: QueueEntryId,
    is_generating: bool,
    at: int,
)
    requires
        0 <= at <= queue.entries.len(),
        at < queue.entries.len() ==> queue.entries[at].id == id,
        forall|i: int| 0 <= i < at ==> (#[trigger] queue.entries[i]).id != id,
    ensures
        at == queue.entries.len() ==> queue.entry(id) is None && queue.sent_now(id, is_generating)
            == queue,
        at < queue.entries.len() ==> queue.entry(id) == Some(queue.entries[at]) && queue.sent_now(
            id,
            is_generating,
        ).entries == queue.entries.take(at) + queue.entries.skip(at + 1),
        queue.sent_now(id, false).processing == queue.processing,
        queue.sent_now(id, is_generating).can_fast_track == queue.can_fast_track,
        queue.sent_now(id, is_generating).next_id == queue.next_id,
        queue.without(id) == queue.sent_now(id, false),
{
    position_is_first(queue.entries, id);
    if at < queue.entries.len() {
        let found = position(queue.entries, id)->0;
        if found < at {
            assert(queue.entries[found].id != id);
        }
        assert(queue.entries.remove(at) =~= queue.entries.take(at) + queue.entries.skip(at + 1));
    } else if position(queue.entries, id) is Some {
        assert(queue.entries[position(queue.entries, id)->0].id != id);
    }
}

/// A pause outlasts a message that is sent by hand while nothing is generated: however many
/// generations end, nothing is sent on its own and no other message is lost.
pub proof fn pause_outlasts_sending_by_hand<M>(
    queue: QueueView<M>,
    id: QueueEntryId,
    focused: Seq<bool>,
    next: bool,
)
    requires
        queue.processing is Paused,
    ensures
        after_stops(queue.sent_now(id, false), focused) == queue.without(id),
        after_stops(queue.sent_now(id, false), focused).stopped(next).1 is None,
{
    assert(queue.sent_now(id, false) == queue.without(id).paused());
    paused_queue_sends_nothing(queue.without(id), focused, next);
}

/// The end of a generation sends at most the front message, and loses none: what is sent and what
/// is left are together what was queued. A queue that sends on its own sends the front message,
/// unless the user is editing it, and goes on doing so.
pub proof fn stop_sends_the_front_message<M>(queue: QueueView<M>, focused: bool)
    ensures
        ({
            let (left, sent) = queue.stopped(focused);
            &&& match sent {
                Some(entry) => queue.entries == seq![entry] + left.entries,
                None => left.entries == queue.entries,
            }
            &&& left.can_fast_track == queue.can_fast_track
            &&& left.next_id == queue.next_id
            &&& sent is Some == (queue.processing is AutoProcess && !focused
                && queue.entries.len() > 0)
            &&& queue.processing is AutoProcess ==> left.processing is AutoProcess
        }),
{
    let (left, sent) = queue.stopped(focused);
    if sent is Some {
        assert(queue.entries =~= seq![sent->0] + left.entries);
    }
}

/// Queueing a message keeps all others before it, ends a pause, and makes up for nothing else: the
/// next end of a generation sends the front message whatever was before, and so does asking to
/// send without waiting.
pub proof fn queueing_engages_the_queue<M>(queue: QueueView<M>, entry: QueueEntry<M>)
    ensures
        queue.enqueued(entry).entries == queue.entries + seq![entry],
        queue.enqueued(entry).next_id == queue.next_id,
        queue.enqueued(entry).stopped(false).1 == Some((queue.entries + seq![entry])[0]),
        queue.enqueued(entry).fast_tracked().1 == Some((queue.entries + seq![entry])[0]),
{
    assert(queue.entries.push(entry) =~= queue.entries + seq![entry]);
}

/// Asking to send without waiting sends the front message exactly where one was queued since it
/// was last asked for, ends a pause with it, and loses nothing; else it changes nothing.
pub proof fn fast_track_sends_the_front_message<M>(queue: QueueView<M>)
    ensures
        ({
            let (left, sent) = queue.fast_tracked();
            &&& match sent {
                Some(entry) => queue.entries == seq![entry] + left.entries,
                None => left.entries == queue.entries,
            }
            &&& sent is Some == (queue.can_fast_track && queue.entries.len() > 0)
            &&& queue.can_fast_track ==> left.processing is AutoProcess
            &&& !left.can_fast_track
            &&& !queue.can_fast_track ==> left == queue
            &&& left.next_id == queue.next_id
        }),
{
    let (left, sent) = queue.fast_tracked();
    if sent is Some {
        assert(queue.entries =~= seq![sent->0] + left.entries);
    }
}

/// Pausing and resuming touch no message. A message that was sent by other means ends a pause, and
/// nothing but a pause: the end of a cancelled generation is still absorbed.
pub proof fn resuming_only_ends_a_pause<M>(queue: QueueView<M>, focused: bool)
    ensures
        queue.paused().entries == queue.entries,
        queue.paused().can_fast_track == queue.can_fast_track,
        queue.paused().next_id == queue.next_id,
        queue.paused().resumed().stopped(false).1 == queue.front(),
        queue.resumed().entries == queue.entries,
        queue.resumed().can_fast_track == queue.can_fast_track,
        queue.resumed().next_id == queue.next_id,
        !(queue.processing is Paused) ==> queue.resumed() == queue,
        queue.processing is SkipCancelledStop ==> queue.resumed().stopped(focused).1 is None,
        queue.front() == (if queue.entries.len() > 0 {
            Some(queue.entries.first())
        } else {
            None
        }),
{
}

} // verus!
