//! The registry of client handles and the broadcast that prunes as it sends.

use vstd::prelude::*;
use tokio::sync::mpsc::UnboundedSender;
use tokio_tungstenite::tungstenite::Message;
use crate::wire::{reply_text, Reply};

verus! {

/// `tokio::sync::mpsc::UnboundedSender`, carried as an opaque value.
#[verifier::external_type_specification]
#[verifier::external_body]
#[verifier::reject_recursive_types(T)]
pub struct ExUnboundedSender<T>(UnboundedSender<T>);

/// `tungstenite::Message`, carried as an opaque value.
#[verifier::external_type_specification]
#[verifier::external_body]
pub struct ExMessage(Message);

/// `UnboundedSender::send` of a `Message::Text` that holds `text`: whether
/// the message was queued. It is not queued once the receiving half is closed
/// or dropped, which the sender cannot foresee: nothing is claimed of the
/// answer.
#[verifier::external_body]
fn enqueue_text(sender: &UnboundedSender<Message>, text: &str) -> (queued: bool) {
    sender.send(Message::Text(text.into())).is_ok()
}

/// The outbound queue of one client, with the record of what this registry
/// has queued on it.
pub struct ClientHandle {
    sender: UnboundedSender<Message>,
    id: Ghost<nat>,
    queued: Ghost<Seq<Seq<char>>>,
}

impl ClientHandle {
    /// The sending half of the client's queue.
    pub closed spec fn sender(&self) -> UnboundedSender<Message> {
        self.sender
    }

    /// The number under which the handle was registered.
    pub closed spec fn id(&self) -> nat {
        self.id@
    }

    /// The broadcasts queued on the handle since it was registered, oldest
    /// first.
    pub closed spec fn queued(&self) -> Seq<Seq<char>> {
        self.queued@
    }

    /// The handle after one more broadcast was queued on it.
    pub closed spec fn with_queued(&self, message: Seq<char>) -> ClientHandle {
        ClientHandle {
            sender: self.sender,
            id: self.id,
            queued: Ghost(self.queued@.push(message)),
        }
    }

    /// Queuing a broadcast keeps the handle's queue and number and adds the
    /// message at the end of its record.
    pub proof fn lemma_with_queued(&self, message: Seq<char>)
        ensures
            self.with_queued(message).id() == self.id(),
            self.with_queued(message).sender() == self.sender(),
            self.with_queued(message).queued() == self.queued().push(message),
    {
    }
}

/// The handles left by a broadcast of `message` over `handles`, where
/// `outcomes[i]` says whether the message was queued on `handles[i]`: those
/// on which it was queued, in their order, each with the message recorded.
pub open spec fn after_broadcast(
    handles: Seq<ClientHandle>,
    message: Seq<char>,
    outcomes: Seq<bool>,
) -> Seq<ClientHandle>
    recommends
        outcomes.len() == handles.len(),
    decreases handles.len(),
{
    if handles.len() == 0 || outcomes.len() != handles.len() {
        Seq::empty()
    } else {
        let before = after_broadcast(handles.drop_last(), message, outcomes.drop_last());
        if outcomes.last() {
            before.push(handles.last().with_queued(message))
        } else {
            before
        }
    }
}

/// Whether the handles carry increasing numbers, all below `issued`.
pub open spec fn numbered(handles: Seq<ClientHandle>, issued: nat) -> bool {
    &&& forall|i: int| 0 <= i < handles.len() ==> (#[trigger] handles[i]).id() < issued
    &&& forall|i: int, j: int|
        0 <= i < j < handles.len() ==> (#[trigger] handles[i]).id() < (#[trigger] handles[j]).id()
}

/// The collection of the handles of all clients that are taken to be live.
pub struct Registry {
    handles: Vec<ClientHandle>,
    issued: Ghost<nat>,
}

impl View for Registry {
    type V = Seq<ClientHandle>;

    closed spec fn view(&self) -> Seq<ClientHandle> {
        self.handles@
    }
}

impl Registry {
    /// How many handles were ever registered.
    pub closed spec fn issued(&self) -> nat {
        self.issued@
    }

    /// Each handle has a number of its own, and the handles stand in the
    /// order in which they were registered. Every registry is so.
    pub open spec fn well_formed(&self) -> bool {
        numbered(self@, self.issued())
    }

    #[verifier::type_invariant]
    spec fn ordered(self) -> bool {
        numbered(self.handles@, self.issued@)
    }

    /// A registry without handles.
    pub fn new() -> (registry: Self)
        ensures
            registry@ == Seq::<ClientHandle>::empty(),
            registry.issued() == 0,
            registry.well_formed(),
    {
        Registry { handles: Vec::new(), issued: Ghost(0) }
    }

    /// The number of handles held.
    pub fn len(&self) -> (n: usize)
        ensures
            n == self@.len(),
    {
        self.handles.len()
    }

    /// Appends the handle of a new client, with nothing queued on it yet.
    pub fn register(&mut self, sender: UnboundedSender<Message>)
        ensures
            final(self).well_formed(),
            final(self).issued() == old(self).issued() + 1,
            final(self)@.len() == old(self)@.len() + 1,
            final(self)@.drop_last() == old(self)@,
            final(self)@.last().sender() == sender,
            final(self)@.last().id() == old(self).issued(),
            final(self)@.last().queued() == Seq::<Seq<char>>::empty(),
    {
        proof {
            use_type_invariant(&*self);
        }
        let handle = ClientHandle { sender, id: Ghost(self.issued@), queued: Ghost(Seq::empty()) };
        let mut handles: Vec<ClientHandle> = Vec::new();
        std::mem::swap(&mut handles, &mut self.handles);
        handles.push(handle);
        self.issued = Ghost(self.issued@ + 1);
        self.handles = handles;
        assert(final(self)@.drop_last() =~= old(self)@);
    }

    /// Queues `message` on every handle, in the order of the collection, and
    /// drops each handle that did not take it. Returns, for each handle held
    /// before, whether the message was queued on it.
    pub fn broadcast(&mut self, message: &str) -> (outcomes: Vec<bool>)
        ensures
            outcomes@.len() == old(self)@.len(),
            final(self)@ == after_broadcast(old(self)@, message@, outcomes@),
            final(self).issued() == old(self).issued(),
            final(self).well_formed(),
    {
        proof {
            use_type_invariant(&*self);
        }
        let ghost before = self.handles@;
        let mut held: Vec<ClientHandle> = Vec::new();
        std::mem::swap(&mut held, &mut self.handles);
        let total = held.len();
        let mut waiting: Vec<ClientHandle> = Vec::new();
        while held.len() > 0
            invariant
                held@.len() + waiting@.len() == total,
                total == before.len(),
                forall|i: int| 0 <= i < held@.len() ==> held@[i] == before[i],
                forall|i: int|
                    0 <= i < waiting@.len() ==> waiting@[i] == before[total - 1 - i],
            decreases held@.len(),
        {
            let handle = held.pop().unwrap();
            waiting.push(handle);
        }
        let mut outcomes: Vec<bool> = Vec::new();
        while waiting.len() > 0
            invariant
                outcomes@.len() + waiting@.len() == total,
                total == before.len(),
                forall|i: int|
                    0 <= i < waiting@.len() ==> waiting@[i] == before[total - 1 - i],
                held@ == after_broadcast(
                    before.take(outcomes@.len() as int),
                    message@,
                    outcomes@,
                ),
            decreases waiting@.len(),
        {
            let ghost done = outcomes@.len() as int;
            let ghost earlier = outcomes@;
            let handle = waiting.pop().unwrap();
            let queued = enqueue_text(&handle.sender, message);
            outcomes.push(queued);
            if queued {
                let ClientHandle { sender, id, queued: record } = handle;
                held.push(ClientHandle { sender, id, queued: Ghost(record@.push(message@)) });
            }
            proof {
                assert(handle == before[done]);
                assert(before.take(done + 1).drop_last() =~= before.take(done));
                assert(before.take(done + 1).last() == before[done]);
                assert(outcomes@.drop_last() =~= earlier);
            }
        }
        proof {
            assert(before.take(total as int) =~= before);
            lemma_broadcast_keeps_numbering(before, message@, outcomes@, self.issued@);
        }
        self.handles = held;
        outcomes
    }
}

/// A broadcast leaves no more handles than were held before.
pub proof fn lemma_broadcast_shrinks(
    handles: Seq<ClientHandle>,
    message: Seq<char>,
    outcomes: Seq<bool>,
)
    ensures
        after_broadcast(handles, message, outcomes).len() <= handles.len(),
    decreases handles.len(),
{
    if handles.len() > 0 && outcomes.len() == handles.len() {
        lemma_broadcast_shrinks(handles.drop_last(), message, outcomes.drop_last());
    }
}

/// Each handle left by a broadcast is one of those held before on which the
/// message was queued, with that message added to its record.
pub proof fn lemma_broadcast_origin(
    handles: Seq<ClientHandle>,
    message: Seq<char>,
    outcomes: Seq<bool>,
    j: int,
) -> (i: int)
    requires
        0 <= j < after_broadcast(handles, message, outcomes).len(),
    ensures
        j <= i < handles.len(),
        outcomes[i],
        after_broadcast(handles, message, outcomes)[j] == handles[i].with_queued(message),
        after_broadcast(handles, message, outcomes)[j].sender() == handles[i].sender(),
        after_broadcast(handles, message, outcomes)[j].id() == handles[i].id(),
        after_broadcast(handles, message, outcomes)[j].queued() == handles[i].queued().push(
            message,
        ),
    decreases handles.len(),
{
    let before = after_broadcast(handles.drop_last(), message, outcomes.drop_last());
    if outcomes.last() && j == before.len() {
        lemma_broadcast_shrinks(handles.drop_last(), message, outcomes.drop_last());
        handles.len() - 1
    } else {
        lemma_broadcast_origin(handles.drop_last(), message, outcomes.drop_last(), j)
    }
}

/// A broadcast keeps the handles' numbers in increasing order.
pub proof fn lemma_broadcast_keeps_numbering(
    handles: Seq<ClientHandle>,
    message: Seq<char>,
    outcomes: Seq<bool>,
    issued: nat,
)
    requires
        outcomes.len() == handles.len(),
        numbered(handles, issued),
    ensures
        numbered(after_broadcast(handles, message, outcomes), issued),
    decreases handles.len(),
{
    let after = after_broadcast(handles, message, outcomes);
    if handles.len() > 0 {
        let shorter = handles.drop_last();
        let before = after_broadcast(shorter, message, outcomes.drop_last());
        lemma_broadcast_keeps_numbering(shorter, message, outcomes.drop_last(), issued);
        assert forall|i: int| 0 <= i < after.len() implies (#[trigger] after[i]).id() < issued by {
            let k = lemma_broadcast_origin(handles, message, outcomes, i);
        }
        assert forall|i: int, j: int| 0 <= i < j < after.len() implies (#[trigger] after[i]).id() < (
        #[trigger] after[j]).id() by {
            if j < before.len() {
                assert(after[i] == before[i]);
                assert(after[j] == before[j]);
            } else {
                let k = lemma_broadcast_origin(shorter, message, outcomes.drop_last(), i);
                assert(after[i] == before[i]);
                assert(shorter[k] == handles[k]);
                assert(after[j].id() == handles.last().id());
            }
        }
    }
}

/// A handle on which the message was queued is still held after the
/// broadcast, with the message recorded.
pub proof fn lemma_reached_handle_is_kept(
    handles: Seq<ClientHandle>,
    message: Seq<char>,
    outcomes: Seq<bool>,
    i: int,
) -> (j: int)
    requires
        outcomes.len() == handles.len(),
        0 <= i < handles.len(),
        outcomes[i],
    ensures
        0 <= j < after_broadcast(handles, message, outcomes).len(),
        after_broadcast(handles, message, outcomes)[j] == handles[i].with_queued(message),
    decreases handles.len(),
{
    let before = after_broadcast(handles.drop_last(), message, outcomes.drop_last());
    if i == handles.len() - 1 {
        before.len() as int
    } else {
        lemma_reached_handle_is_kept(handles.drop_last(), message, outcomes.drop_last(), i)
    }
}

/// A handle on which the message could not be queued is gone after the
/// broadcast: no handle left carries its number, so the next broadcast does
/// not meet it.
pub proof fn lemma_failed_handle_is_pruned(
    handles: Seq<ClientHandle>,
    issued: nat,
    message: Seq<char>,
    outcomes: Seq<bool>,
    i: int,
)
    requires
        numbered(handles, issued),
        outcomes.len() == handles.len(),
        0 <= i < handles.len(),
        !outcomes[i],
    ensures
        forall|j: int|
            0 <= j < after_broadcast(handles, message, outcomes).len() ==> (
            #[trigger] after_broadcast(handles, message, outcomes)[j]).id() != handles[i].id(),
{
    let after = after_broadcast(handles, message, outcomes);
    assert forall|j: int| 0 <= j < after.len() implies (#[trigger] after[j]).id()
        != handles[i].id() by {
        let k = lemma_broadcast_origin(handles, message, outcomes, j);
        if k < i {
            assert(handles[k].id() < handles[i].id());
        } else {
            assert(handles[i].id() < handles[k].id());
        }
    }
}

/// The handles left by the broadcasts of `messages`, one after the other,
/// with no registration between them; `outcomes[k]` holds the outcomes of the
/// `k`-th broadcast.
pub open spec fn after_broadcasts(
    handles: Seq<ClientHandle>,
    messages: Seq<Seq<char>>,
    outcomes: Seq<Seq<bool>>,
) -> Seq<ClientHandle>
    recommends
        outcomes.len() == messages.len(),
    decreases messages.len(),
{
    if messages.len() == 0 {
        handles
    } else {
        after_broadcast(
            after_broadcasts(handles, messages.drop_last(), outcomes.drop_last()),
            messages.last(),
            outcomes.last(),
        )
    }
}

/// Every handle that is still held after a run of broadcasts was held at its
/// start, and all the messages of the run were queued on it, in the order in
/// which they were broadcast. So all clients that stay see the same messages
/// in the same order.
pub proof fn lemma_broadcasts_in_order(
    handles: Seq<ClientHandle>,
    messages: Seq<Seq<char>>,
    outcomes: Seq<Seq<bool>>,
    j: int,
) -> (i: int)
    requires
        outcomes.len() == messages.len(),
        0 <= j < after_broadcasts(handles, messages, outcomes).len(),
    ensures
        0 <= i < handles.len(),
        after_broadcasts(handles, messages, outcomes)[j].sender() == handles[i].sender(),
        after_broadcasts(handles, messages, outcomes)[j].id() == handles[i].id(),
        after_broadcasts(handles, messages, outcomes)[j].queued() == handles[i].queued()
            + messages,
    decreases messages.len(),
{
    if messages.len() == 0 {
        assert(handles[j].queued() + messages =~= handles[j].queued());
        j
    } else {
        let earlier = after_broadcasts(handles, messages.drop_last(), outcomes.drop_last());
        let k = lemma_broadcast_origin(earlier, messages.last(), outcomes.last(), j);
        let i = lemma_broadcasts_in_order(
            handles,
            messages.drop_last(),
            outcomes.drop_last(),
            k,
        );
        assert((handles[i].queued() + messages.drop_last()).push(messages.last())
            =~= handles[i].queued() + messages);
        i
    }
}

/// Where nothing was queued on any handle before a run of broadcasts, every
/// handle that is still held after it has exactly the messages of the run
/// queued, in the order of the run: the same for all.
pub proof fn lemma_all_clients_hold_the_run(
    handles: Seq<ClientHandle>,
    messages: Seq<Seq<char>>,
    outcomes: Seq<Seq<bool>>,
)
    requires
        outcomes.len() == messages.len(),
        forall|i: int| 0 <= i < handles.len() ==> (#[trigger] handles[i]).queued().len() == 0,
    ensures
        forall|j: int|
            0 <= j < after_broadcasts(handles, messages, outcomes).len() ==> (
            #[trigger] after_broadcasts(handles, messages, outcomes)[j]).queued() == messages,
{
    let after = after_broadcasts(handles, messages, outcomes);
    assert forall|j: int| 0 <= j < after.len() implies (#[trigger] after[j]).queued()
        == messages by {
        let i = lemma_broadcasts_in_order(handles, messages, outcomes, j);
        assert(handles[i].queued().len() == 0);
        assert(handles[i].queued() + messages =~= messages);
    }
}

/// Publishes one log line to every client: the line is queued on each handle
/// in turn, and the handles that did not take it are dropped.
pub fn broadcast_log(log: &str, registry: &mut Registry)
    ensures
        final(registry).well_formed(),
        final(registry).issued() == old(registry).issued(),
        exists|outcomes: Seq<bool>|
            outcomes.len() == old(registry)@.len() && final(registry)@ == after_broadcast(
                old(registry)@,
                log@,
                outcomes,
            ),
{
    let outcomes = registry.broadcast(log);
    assert(outcomes@.len() == old(registry)@.len() && final(registry)@ == after_broadcast(
        old(registry)@,
        log@,
        outcomes@,
    ));
}

/// Queues the text of an answer on a client's own sender. Returns whether a
/// text was queued; for `Reply::Nothing` none is.
pub fn deliver_reply(sender: &UnboundedSender<Message>, reply: Reply) -> (queued: bool)
    ensures
        reply == Reply::Nothing ==> !queued,
{
    match reply_text(reply) {
        Some(text) => enqueue_text(sender, text),
        None => false,
    }
}

} // verus!
