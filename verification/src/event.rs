//! Observable publish/subscribe with caller-owned subscription handles.
//!
//! An [`EventManager`] keeps one registry entry per subscriber. The
//! [`Subscription`] handle returned by `subscribe` is the caller's proof
//! of ownership: it cannot be cloned, messages are read back through it,
//! and giving it up (`unsubscribe`) retires the entry. A retired entry is
//! skipped by the next `notify`, which also compacts it away, so a
//! message sent after a handle was given up is never delivered to that
//! subscriber and never an error.
//!
//! Delivery is by mailbox: `notify` appends the message to the inbox of
//! every live entry, in registration order, and the consumer drains its
//! inbox with `take_messages`. The consumer never runs inside `notify`,
//! so a notification can never re-enter the object that published it.

use vstd::prelude::*;

verus! {

/// The mathematical state of one registry entry: its identifier, whether
/// its handle is still held, and the messages delivered but not yet
/// taken.
pub ghost struct EntryView<M> {
    pub id: u64,
    pub alive: bool,
    pub inbox: Seq<M>,
}

/// An owning subscription handle.
///
/// Its existence is what keeps the subscriber registered: it cannot be
/// duplicated, and handing it back to [`EventManager::unsubscribe`]
/// silently retires the registration.
#[derive(Debug)]
pub struct Subscription {
    id: u64,
}

impl Subscription {
    pub closed spec fn spec_id(&self) -> u64 {
        self.id
    }
}

/// One registry entry of an [`EventManager`]: the subscriber's
/// identifier, liveness, and undelivered messages. Internally used.
#[derive(Debug)]
pub struct WeakSubscription<M> {
    id: u64,
    alive: bool,
    inbox: Vec<M>,
}

impl<M> View for WeakSubscription<M> {
    type V = EntryView<M>;

    closed spec fn view(&self) -> EntryView<M> {
        EntryView { id: self.id, alive: self.alive, inbox: self.inbox@ }
    }
}

impl<M: Copy> WeakSubscription<M> {
    /// Delivers one message to this entry: appends it to the inbox when
    /// the subscriber is still alive, and reports whether it was.
    pub fn notify(&mut self, message: M) -> (r: bool)
        ensures
            r == old(self)@.alive,
            final(self)@ == if old(self)@.alive {
                EntryView { id: old(self)@.id, alive: true, inbox: old(self)@.inbox.push(message) }
            } else {
                old(self)@
            },
    {
        if self.alive {
            self.inbox.push(message);
            true
        } else {
            false
        }
    }
}

/// Registry transition: a fresh entry for `id` was appended, alive and
/// with an empty inbox.
pub open spec fn subscribed<M>(pre: Seq<EntryView<M>>, post: Seq<EntryView<M>>, id: u64) -> bool {
    &&& post == pre.push(EntryView { id, alive: true, inbox: Seq::empty() })
    &&& forall|k: int| 0 <= k < pre.len() ==> (#[trigger] pre[k]).id != id
}

/// Registry transition: the entry for `id`, if any, was marked dead; all
/// other entries are untouched.
pub open spec fn unsubscribed<M>(pre: Seq<EntryView<M>>, post: Seq<EntryView<M>>, id: u64) -> bool {
    &&& post.len() == pre.len()
    &&& forall|k: int|
        0 <= k < pre.len() ==> #[trigger] post[k] == if pre[k].id == id {
            EntryView { id: pre[k].id, alive: false, inbox: pre[k].inbox }
        } else {
            pre[k]
        }
}

/// The registry after one delivery pass of `m` over `pre`: dead entries
/// are compacted away, live ones keep their order and receive `m` at the
/// end of their inbox.
pub open spec fn delivered<M>(pre: Seq<EntryView<M>>, m: M) -> Seq<EntryView<M>>
    decreases pre.len(),
{
    if pre.len() == 0 {
        Seq::empty()
    } else {
        let rest = delivered(pre.drop_last(), m);
        let e = pre.last();
        if e.alive {
            rest.push(EntryView { id: e.id, alive: true, inbox: e.inbox.push(m) })
        } else {
            rest
        }
    }
}

/// Registry transition of one `notify(m)` call.
pub open spec fn notified<M>(pre: Seq<EntryView<M>>, post: Seq<EntryView<M>>, m: M) -> bool {
    post == delivered(pre, m)
}

/// Registry transition: the inbox of the entry for `id`, if any, was
/// drained into `msgs`; all other entries are untouched.
pub open spec fn drained<M>(
    pre: Seq<EntryView<M>>,
    post: Seq<EntryView<M>>,
    id: u64,
    msgs: Seq<M>,
) -> bool {
    &&& post.len() == pre.len()
    &&& forall|k: int|
        0 <= k < pre.len() ==> #[trigger] post[k] == if pre[k].id == id {
            EntryView { id: pre[k].id, alive: pre[k].alive, inbox: Seq::empty() }
        } else {
            pre[k]
        }
    &&& forall|k: int| 0 <= k < pre.len() && (#[trigger] pre[k]).id == id ==> msgs == pre[k].inbox
    &&& (forall|k: int| 0 <= k < pre.len() ==> (#[trigger] pre[k]).id != id) ==> msgs =~= Seq::<
        M,
    >::empty()
}

/// Stores and manages subscriptions, and delivers published messages to
/// the live ones.
pub struct EventManager<M> {
    entries: Vec<WeakSubscription<M>>,
    next_id: u64,
}

impl<M> View for EventManager<M> {
    type V = Seq<EntryView<M>>;

    closed spec fn view(&self) -> Seq<EntryView<M>> {
        self.entries@.map_values(|e: WeakSubscription<M>| e@)
    }
}

impl<M> EventManager<M> {
    /// The identifier the next subscriber will receive.
    pub closed spec fn spec_next_id(&self) -> u64 {
        self.next_id
    }

    /// Entry identifiers are strictly increasing in registration order
    /// (hence unique), and all below the next one to be issued.
    pub open spec fn wf(&self) -> bool {
        &&& forall|i: int, j: int|
            0 <= i < j < self@.len() ==> (#[trigger] self@[i]).id < (#[trigger] self@[j]).id
        &&& forall|i: int| 0 <= i < self@.len() ==> (#[trigger] self@[i]).id < self.spec_next_id()
    }

    /// Allocates a new, empty manager.
    pub fn new() -> (r: EventManager<M>)
        ensures
            r@ == Seq::<EntryView<M>>::empty(),
            r.wf(),
            r.spec_next_id() == 0,
    {
        EventManager { entries: Vec::new(), next_id: 0 }
    }

    /// How many subscribers are currently registered (an entry whose
    /// handle was given up is counted until the next `notify` compacts
    /// it).
    pub fn subscriber_count(&self) -> (r: usize)
        ensures
            r == self@.len(),
    {
        self.entries.len()
    }

    /// Registers a new subscriber and returns the handle that owns the
    /// registration.
    pub fn subscribe(&mut self) -> (r: Subscription)
        requires
            old(self).wf(),
            old(self).spec_next_id() < u64::MAX,
        ensures
            final(self).wf(),
            subscribed(old(self)@, final(self)@, r.spec_id()),
            r.spec_id() == old(self).spec_next_id(),
            final(self).spec_next_id() == old(self).spec_next_id() + 1,
    {
        let id = self.next_id;
        self.next_id = id + 1;
        self.entries.push(WeakSubscription { id, alive: true, inbox: Vec::new() });
        proof {
            assert(self@ =~= old(self)@.push(
                EntryView { id, alive: true, inbox: Seq::<M>::empty() },
            ));
        }
        Subscription { id }
    }

    /// Retires the registration that `sub` owns. The entry stays in the
    /// registry, dead, until the next `notify` pass compacts it.
    pub fn unsubscribe(&mut self, sub: Subscription)
        requires
            old(self).wf(),
        ensures
            final(self).wf(),
            unsubscribed(old(self)@, final(self)@, sub.spec_id()),
            final(self).spec_next_id() == old(self).spec_next_id(),
    {
        let n = self.entries.len();
        let mut i: usize = 0;
        while i < n
            invariant
                0 <= i <= n,
                n == self@.len(),
                self@.len() == old(self)@.len(),
                self.spec_next_id() == old(self).spec_next_id(),
                forall|k: int|
                    0 <= k < old(self)@.len() ==> #[trigger] self@[k] == if old(self)@[k].id
                        == sub.spec_id() && k < i {
                        EntryView {
                            id: old(self)@[k].id,
                            alive: false,
                            inbox: old(self)@[k].inbox,
                        }
                    } else {
                        old(self)@[k]
                    },
            decreases n - i,
        {
            if self.entries[i].id == sub.id {
                let ghost prev = self@;
                let entry = &mut self.entries[i];
                entry.alive = false;
                proof {
                    assert(self@ =~= prev.update(
                        i as int,
                        EntryView {
                            id: prev[i as int].id,
                            alive: false,
                            inbox: prev[i as int].inbox,
                        },
                    ));
                }
            }
            i += 1;
        }
    }

    /// Hands out the messages delivered to the subscriber that owns
    /// `sub` since the last call, in delivery order. For a handle from
    /// another manager, nothing is returned and nothing changes.
    pub fn take_messages(&mut self, sub: &Subscription) -> (msgs: Vec<M>)
        requires
            old(self).wf(),
        ensures
            final(self).wf(),
            drained(old(self)@, final(self)@, sub.spec_id(), msgs@),
            final(self).spec_next_id() == old(self).spec_next_id(),
    {
        let n = self.entries.len();
        let mut i: usize = 0;
        while i < n
            invariant
                0 <= i <= n,
                n == self@.len(),
                self@ == old(self)@,
                self.spec_next_id() == old(self).spec_next_id(),
                old(self).wf(),
                forall|k: int| 0 <= k < i ==> (#[trigger] self@[k]).id != sub.spec_id(),
            decreases n - i,
        {
            if self.entries[i].id == sub.id {
                let ghost pre = self@;
                let entry = &mut self.entries[i];
                let mut inbox: Vec<M> = Vec::new();
                core::mem::swap(&mut entry.inbox, &mut inbox);
                proof {
                    // Identifiers are unique, so index i is the only
                    // entry of this subscription.
                    assert(forall|k: int|
                        0 <= k < pre.len() && k != i ==> (#[trigger] pre[k]).id
                            != sub.spec_id());
                    assert(self@ =~= pre.update(
                        i as int,
                        EntryView {
                            id: pre[i as int].id,
                            alive: pre[i as int].alive,
                            inbox: Seq::<M>::empty(),
                        },
                    ));
                }
                return inbox;
            }
            i += 1;
        }
        Vec::new()
    }
}

impl<M: Copy> EventManager<M> {
    /// Notifies a message to all live subscribers, in registration
    /// order, and compacts retired entries out of the registry.
    pub fn notify(&mut self, message: M)
        requires
            old(self).wf(),
        ensures
            final(self).wf(),
            notified(old(self)@, final(self)@, message),
            final(self).spec_next_id() == old(self).spec_next_id(),
    {
        let ghost pre = old(self)@;
        let mut pending: Vec<WeakSubscription<M>> = Vec::new();
        core::mem::swap(&mut pending, &mut self.entries);
        let ghost all = pending@.map_values(|e: WeakSubscription<M>| e@);
        proof {
            vstd::std_specs::vec::axiom_spec_len(&pending);
            assert(pre.take(0) =~= Seq::<EntryView<M>>::empty());
            assert(self@ =~= Seq::<EntryView<M>>::empty());
            assert(pre.skip(0) =~= pre);
        }
        let mut processed: usize = 0;
        while pending.len() > 0
            invariant
                pre.len() <= usize::MAX,
                processed <= pre.len(),
                processed + pending@.len() == pre.len(),
                pre == all,
                pending@.map_values(|e: WeakSubscription<M>| e@) =~= pre.skip(processed as int),
                self.spec_next_id() == old(self).spec_next_id(),
                self@ == delivered(pre.take(processed as int), message),
                forall|a: int, b: int|
                    0 <= a < b < pre.len() ==> (#[trigger] pre[a]).id < (#[trigger] pre[b]).id,
                forall|a: int| 0 <= a < pre.len() ==> (#[trigger] pre[a]).id
                    < self.spec_next_id(),
                forall|a: int, b: int|
                    0 <= a < self@.len() && processed <= b < pre.len() ==> (
                    #[trigger] self@[a]).id < (#[trigger] pre[b]).id,
                forall|a: int, b: int|
                    0 <= a < b < self@.len() ==> (#[trigger] self@[a]).id < (
                    #[trigger] self@[b]).id,
                forall|a: int| 0 <= a < self@.len() ==> (#[trigger] self@[a]).id
                    < self.spec_next_id(),
            decreases pending@.len(),
        {
            proof {
                assert(pending@.map_values(|e: WeakSubscription<M>| e@)[0] == pre[processed as int]);
            }
            let ghost pend_pre = pending@;
            let mut entry = pending.remove(0);
            proof {
                assert forall|k: int| 0 <= k < pending@.len() implies (#[trigger] pending@[k])@
                    == pre.skip(processed as int + 1)[k] by {
                    assert(pending@[k] == pend_pre[k + 1]);
                    assert(pend_pre.map_values(|e: WeakSubscription<M>| e@)[k + 1] == pre.skip(
                        processed as int,
                    )[k + 1]);
                }
                assert(pending@.map_values(|e: WeakSubscription<M>| e@) =~= pre.skip(
                    processed as int + 1,
                ));
            }
            let ghost entry_pre = entry@;
            let was_alive = entry.notify(message);
            let ghost bus_before = self@;
            if was_alive {
                self.entries.push(entry);
                proof {
                    assert(self@ =~= bus_before.push(
                        EntryView {
                            id: entry_pre.id,
                            alive: true,
                            inbox: entry_pre.inbox.push(message),
                        },
                    ));
                }
            }
            proof {
                assert(pre.take(processed as int + 1).drop_last() =~= pre.take(processed as int));
                assert(pre.take(processed as int + 1).last() == pre[processed as int]);
                assert(pending@.map_values(|e: WeakSubscription<M>| e@) =~= pre.skip(
                    processed as int + 1,
                ));
            }
            processed += 1;
        }
        proof {
            assert(pre.take(processed as int) =~= pre);
        }
    }
}

/// A delivery pass never keeps an entry whose every occurrence of `id`
/// was already dead.
proof fn lemma_delivered_excludes_dead<M>(s: Seq<EntryView<M>>, id: u64, m: M)
    requires
        forall|k: int| 0 <= k < s.len() && (#[trigger] s[k]).id == id ==> !s[k].alive,
    ensures
        forall|k: int|
            0 <= k < delivered(s, m).len() ==> (#[trigger] delivered(s, m)[k]).id != id,
    decreases s.len(),
{
    if s.len() > 0 {
        assert(forall|k: int|
            0 <= k < s.drop_last().len() ==> #[trigger] s.drop_last()[k] == s[k]);
        lemma_delivered_excludes_dead(s.drop_last(), id, m);
        let rest = delivered(s.drop_last(), m);
        let e = s.last();
        if e.alive {
            assert(delivered(s, m) == rest.push(
                EntryView { id: e.id, alive: true, inbox: e.inbox.push(m) },
            ));
            assert(e.id != id);
            assert forall|k: int| 0 <= k < delivered(s, m).len() implies (#[trigger] delivered(
                s,
                m,
            )[k]).id != id by {
                if k < rest.len() {
                    assert(delivered(s, m)[k] == rest[k]);
                }
            }
        } else {
            assert(delivered(s, m) == rest);
        }
    }
}

/// Law: a message notified after the subscription handle for `id` was
/// given up is not delivered to that subscriber, and the pass completes
/// without error: the registry after the pass holds no entry for `id` at
/// all, so no later pass can deliver to it either.
pub proof fn lemma_dropped_subscriber_gets_nothing<M>(
    s0: Seq<EntryView<M>>,
    s1: Seq<EntryView<M>>,
    s2: Seq<EntryView<M>>,
    id: u64,
    m: M,
)
    requires
        unsubscribed(s0, s1, id),
        notified(s1, s2, m),
    ensures
        forall|k: int| 0 <= k < s2.len() ==> (#[trigger] s2[k]).id != id,
{
    lemma_delivered_excludes_dead(s1, id, m);
}

/// The observer interface of the model objects: register a subscriber,
/// retire one, publish a message, and read delivered messages back. The
/// registry transitions are the ones of [`EventManager`]; everything of
/// the object outside the bus is left alone.
pub trait Observable: Sized {
    type Message: Copy;

    /// The subscriber registry of this object's event bus.
    spec fn bus(&self) -> Seq<EntryView<Self::Message>>;

    /// The bus identifiers are well formed.
    spec fn bus_wf(&self) -> bool;

    /// A fresh subscriber identifier is still available.
    spec fn bus_unsaturated(&self) -> bool;

    /// Everything outside the bus is equal in `pre` and `post`.
    spec fn only_bus_changed(pre: &Self, post: &Self) -> bool;

    /// Subscribes to this object.
    fn subscribe(&mut self) -> (r: Subscription)
        requires
            old(self).bus_wf(),
            old(self).bus_unsaturated(),
        ensures
            final(self).bus_wf(),
            subscribed(old(self).bus(), final(self).bus(), r.spec_id()),
            Self::only_bus_changed(old(self), final(self)),
    ;

    /// Gives the subscription handle up.
    fn unsubscribe(&mut self, sub: Subscription)
        requires
            old(self).bus_wf(),
        ensures
            final(self).bus_wf(),
            unsubscribed(old(self).bus(), final(self).bus(), sub.spec_id()),
            Self::only_bus_changed(old(self), final(self)),
    ;

    /// Notifies a message to the subscribers.
    fn notify(&mut self, message: Self::Message)
        requires
            old(self).bus_wf(),
        ensures
            final(self).bus_wf(),
            notified(old(self).bus(), final(self).bus(), message),
            Self::only_bus_changed(old(self), final(self)),
    ;

    /// Reads the messages delivered to `sub` since the last read.
    fn take_messages(&mut self, sub: &Subscription) -> (msgs: Vec<Self::Message>)
        requires
            old(self).bus_wf(),
        ensures
            final(self).bus_wf(),
            drained(old(self).bus(), final(self).bus(), sub.spec_id(), msgs@),
            Self::only_bus_changed(old(self), final(self)),
    ;
}

} // verus!
