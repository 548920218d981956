//! The service registry: a slab of request queues addressed by generation-checked handles.
//!
//! Every widget registers once and receives a [`ServiceId`]. Any code that holds the handle
//! may enqueue requests for the widget; only the widget itself drains its queue, once per
//! frame. A handle whose widget was unregistered is stale for ever: the slot may be given to
//! a new widget, but under a new generation, so a stale handle never resolves again.

use vstd::prelude::*;

verus! {

/// An opaque, copyable handle to one registered request queue.
#[derive(Clone, Copy, Debug, PartialEq, Eq, Hash, Structural)]
pub struct ServiceId {
    index: usize,
    generation: u64,
}

/// Why a request could not be enqueued.
#[derive(Clone, Copy, Debug, PartialEq, Eq, Structural)]
pub enum SendError {
    /// The addressed widget no longer exists.
    TargetGone,
}

impl SendError {
    /// The text shown for this error.
    pub fn message(&self) -> (text: String)
        ensures
            text@ == "target gone"@,
    {
        "target gone".to_string()
    }
}

/// A request together with the caller's reply slot.
#[derive(Debug)]
pub struct Envelope<R> {
    /// The caller's single-use reply slot.
    pub reply_to: u64,
    /// The operation asked for.
    pub request: R,
}

/// One slab entry: the queue of the current occupant, or of nobody.
pub struct Slot<R> {
    generation: u64,
    live: bool,
    queue: Vec<Envelope<R>>,
}

/// The mapping from handles to request queues.
pub struct Registry<R> {
    slots: Vec<Slot<R>>,
}

/// The queues after `envelope` was sent to `id`: a target that resolves gets it behind the
/// requests that already wait; for a target that is gone nothing changes.
pub open spec fn posted<R>(
    queues: Map<ServiceId, Seq<Envelope<R>>>,
    id: ServiceId,
    envelope: Envelope<R>,
) -> Map<ServiceId, Seq<Envelope<R>>> {
    if queues.contains_key(id) {
        queues.insert(id, queues[id].push(envelope))
    } else {
        queues
    }
}

/// The queues after `id` took what waited for it.
pub open spec fn emptied<R>(queues: Map<ServiceId, Seq<Envelope<R>>>, id: ServiceId) -> Map<
    ServiceId,
    Seq<Envelope<R>>,
> {
    if queues.contains_key(id) {
        queues.insert(id, Seq::empty())
    } else {
        queues
    }
}

/// The requests that wait for `id`, oldest first; none for a handle that does not resolve.
pub open spec fn waiting<R>(queues: Map<ServiceId, Seq<Envelope<R>>>, id: ServiceId) -> Seq<
    Envelope<R>,
> {
    if queues.contains_key(id) {
        queues[id]
    } else {
        Seq::empty()
    }
}

impl<R> View for Registry<R> {
    type V = Map<ServiceId, Seq<Envelope<R>>>;

    /// The handles that resolve, each with the requests that wait for it, oldest first.
    closed spec fn view(&self) -> Map<ServiceId, Seq<Envelope<R>>> {
        Map::new(
            |id: ServiceId|
                id.index < self.slots@.len() && id.generation == self.slots@[id.index as int].generation
                    && self.slots@[id.index as int].live,
            |id: ServiceId| self.slots@[id.index as int].queue@,
        )
    }
}

impl<R> Registry<R> {
    /// The handle was minted by this registry at some point, live or not.
    pub closed spec fn issued(&self, id: ServiceId) -> bool {
        id.index < self.slots@.len() && id.generation <= self.slots@[id.index as int].generation
    }

    /// The handle resolves to a queue right now.
    pub open spec fn is_live(&self, id: ServiceId) -> bool {
        self@.contains_key(id)
    }

    /// The handle was minted once and its widget is gone.
    pub open spec fn retired(&self, id: ServiceId) -> bool {
        self.issued(id) && !self.is_live(id)
    }

    /// The requests waiting for the handle's widget, oldest first; none for a handle that
    /// does not resolve.
    pub open spec fn pending(&self, id: ServiceId) -> Seq<Envelope<R>> {
        waiting(self@, id)
    }

    /// Every handle that was minted before is still known as minted.
    pub open spec fn remembers(&self, before: &Self) -> bool {
        forall|id: ServiceId| #[trigger] before.issued(id) ==> self.issued(id)
    }

    /// What sending `envelope` to `id` does to the registry `before`: a live target gets
    /// it behind the requests that already wait, a target that is gone makes the sending
    /// fail, and nothing else changes.
    pub open spec fn delivered(
        &self,
        before: &Self,
        id: ServiceId,
        envelope: Envelope<R>,
        sent: Result<(), SendError>,
    ) -> bool {
        &&& sent == if before.is_live(id) {
            Ok::<(), SendError>(())
        } else {
            Err::<(), SendError>(SendError::TargetGone)
        }
        &&& self@ == posted(before@, id, envelope)
        &&& forall|any: ServiceId| self.issued(any) == before.issued(any)
    }

    /// Every handle that resolves was minted: a handle that was never minted resolves
    /// nowhere.
    pub proof fn lemma_live_is_issued(&self, id: ServiceId)
        ensures
            self.is_live(id) ==> self.issued(id),
    {
    }

    /// A registry in which no handle was ever minted.
    pub fn new() -> (registry: Self)
        ensures
            registry@ == Map::<ServiceId, Seq<Envelope<R>>>::empty(),
            forall|id: ServiceId| !registry.issued(id),
    {
        let registry = Registry { slots: Vec::new() };
        assert(registry@ =~= Map::<ServiceId, Seq<Envelope<R>>>::empty());
        registry
    }

    /// Mints a handle that was never handed out before and gives it an empty queue.
    pub fn register(&mut self) -> (id: ServiceId)
        ensures
            !old(self).issued(id),
            !old(self).is_live(id),
            forall|any: ServiceId| final(self).issued(any) == (old(self).issued(any) || any == id),
            final(self)@ == old(self)@.insert(id, Seq::empty()),
    {
        let n = self.slots.len();
        let mut i: usize = 0;
        while i < n
            invariant
                n == self.slots@.len(),
                *self == *old(self),
                i <= n,
            decreases n - i,
        {
            if !self.slots[i].live && self.slots[i].generation < u64::MAX {
                let generation = self.slots[i].generation + 1;
                self.slots.set(i, Slot { generation, live: true, queue: Vec::new() });
                let id = ServiceId { index: i, generation };
                assert(self@ =~= old(self)@.insert(id, Seq::empty()));
                return id;
            }
            i += 1;
        }
        self.slots.push(Slot { generation: 0, live: true, queue: Vec::new() });
        let id = ServiceId { index: n, generation: 0 };
        assert(self@ =~= old(self)@.insert(id, Seq::empty()));
        id
    }

    /// Whether the handle still resolves to a queue.
    pub fn resolves(&self, id: ServiceId) -> (live: bool)
        ensures
            live == self.is_live(id),
    {
        id.index < self.slots.len() && self.slots[id.index].generation == id.generation
            && self.slots[id.index].live
    }

    /// Enqueues a request behind those already waiting, or fails when the target is gone.
    pub fn send(&mut self, id: ServiceId, reply_to: u64, request: R) -> (sent: Result<
        (),
        SendError,
    >)
        ensures
            final(self).delivered(old(self), id, (Envelope { reply_to, request }), sent),
    {
        if !self.resolves(id) {
            return Err(SendError::TargetGone);
        }
        let slot = &mut self.slots[id.index];
        slot.queue.push(Envelope { reply_to, request });
        assert(self@ =~= posted(old(self)@, id, (Envelope { reply_to, request })));
        Ok(())
    }

    /// Takes every waiting request of the handle, oldest first, and leaves its queue empty.
    /// A handle that does not resolve has nothing waiting.
    pub fn drain(&mut self, id: ServiceId) -> (taken: Vec<Envelope<R>>)
        ensures
            taken@ == old(self).pending(id),
            final(self)@ == emptied(old(self)@, id),
            forall|any: ServiceId| final(self).issued(any) == old(self).issued(any),
    {
        let mut taken: Vec<Envelope<R>> = Vec::new();
        if self.resolves(id) {
            let slot = &mut self.slots[id.index];
            std::mem::swap(&mut slot.queue, &mut taken);
        }
        assert(self@ =~= emptied(old(self)@, id));
        taken
    }

    /// Ends the handle's life and hands back the requests that nobody will serve.
    /// Unknown and stale handles are left alone.
    pub fn unregister(&mut self, id: ServiceId) -> (orphans: Vec<Envelope<R>>)
        ensures
            orphans@ == old(self).pending(id),
            final(self)@ == old(self)@.remove(id),
            forall|any: ServiceId| final(self).issued(any) == old(self).issued(any),
    {
        let mut orphans: Vec<Envelope<R>> = Vec::new();
        if self.resolves(id) {
            let slot = &mut self.slots[id.index];
            slot.live = false;
            std::mem::swap(&mut slot.queue, &mut orphans);
        }
        assert(self@ =~= old(self)@.remove(id));
        orphans
    }
}

/// A handle that was unregistered never resolves again: it stays retired over every step
/// that forgets no handle and lets only handles resolve that resolved before or were never
/// minted before, as registering, sending, draining and unregistering do.
pub proof fn lemma_retired_stays_retired<R>(before: Registry<R>, after: Registry<R>, stale: ServiceId)
    requires
        before.retired(stale),
        after.remembers(&before),
        forall|id: ServiceId| #[trigger]
            after.is_live(id) ==> before.is_live(id) || !before.issued(id),
    ensures
        after.retired(stale),
{
}

/// A request to a handle whose widget is gone fails as target gone and leaves every queue
/// as it was.
pub proof fn lemma_send_to_retired_fails<R>(
    before: Registry<R>,
    after: Registry<R>,
    stale: ServiceId,
    envelope: Envelope<R>,
    sent: Result<(), SendError>,
)
    requires
        before.retired(stale),
        after.delivered(&before, stale, envelope, sent),
    ensures
        sent == Err::<(), SendError>(SendError::TargetGone),
        after@ == before@,
        after.retired(stale),
{
}

} // verus!
