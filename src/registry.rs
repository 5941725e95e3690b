//! The set of connections that are registered with the reactor.

use vstd::prelude::*;

use crate::event::{ConnectionId, WebSocketEvent};

verus! {

/// The registered set after the server has processed `event` on `id`:
/// a `Connect` registers the id, a `Close` removes it, and every other
/// event leaves the set as it was.
pub open spec fn after_event(s: Set<ConnectionId>, id: ConnectionId, event: WebSocketEvent) -> Set<
    ConnectionId,
> {
    match event {
        WebSocketEvent::Connect => s.insert(id),
        WebSocketEvent::Close(_) => s.remove(id),
        _ => s,
    }
}

/// The registered set after processing `events` in order, starting from `s`.
pub open spec fn after_events(s: Set<ConnectionId>, events: Seq<(ConnectionId, WebSocketEvent)>) -> Set<
    ConnectionId,
>
    decreases events.len(),
{
    if events.len() == 0 {
        s
    } else {
        let last = events.last();
        after_event(after_events(s, events.drop_last()), last.0, last.1)
    }
}

/// Whether `event` changes whether its connection is registered.
pub open spec fn is_lifecycle(event: WebSocketEvent) -> bool {
    event is Connect || event is Close
}

/// Whether, in `events`, the last lifecycle event of `id` is a `Connect`.
pub open spec fn last_lifecycle_is_connect(
    events: Seq<(ConnectionId, WebSocketEvent)>,
    id: ConnectionId,
) -> bool {
    exists|i: int|
        #![trigger events[i]]
        0 <= i < events.len() && events[i].0 == id && events[i].1 is Connect && forall|j: int|
            #![trigger events[j]]
            i < j < events.len() && events[j].0 == id ==> !is_lifecycle(events[j].1)
}

/// Over any interleaving of events on any number of connections, starting
/// from an empty registry, an id is registered exactly when the last
/// `Connect` or `Close` seen for it is a `Connect`.
pub proof fn lemma_registered_iff_last_connect(
    events: Seq<(ConnectionId, WebSocketEvent)>,
    id: ConnectionId,
)
    ensures
        after_events(Set::empty(), events).contains(id) <==> last_lifecycle_is_connect(events, id),
    decreases events.len(),
{
    if events.len() > 0 {
        let prefix = events.drop_last();
        let n = events.len() - 1;
        let e = events.last();
        lemma_registered_iff_last_connect(prefix, id);
        assert forall|k: int| 0 <= k < n implies #[trigger] prefix[k] == events[k] by {}
        if e.0 == id && e.1 is Connect {
            assert(events[n].0 == id && events[n].1 is Connect);
            assert(last_lifecycle_is_connect(events, id));
        } else if e.0 == id && e.1 is Close {
            assert(!last_lifecycle_is_connect(events, id)) by {
                if last_lifecycle_is_connect(events, id) {
                    let i = choose|i: int|
                        #![trigger events[i]]
                        0 <= i < events.len() && events[i].0 == id && events[i].1 is Connect
                            && forall|j: int|
                            #![trigger events[j]]
                            i < j < events.len() && events[j].0 == id ==> !is_lifecycle(events[j].1);
                    assert(events[n] == e);
                    if i < n {
                        assert(!is_lifecycle(events[n].1));
                    }
                }
            }
        } else {
            if last_lifecycle_is_connect(events, id) {
                let i = choose|i: int|
                    #![trigger events[i]]
                    0 <= i < events.len() && events[i].0 == id && events[i].1 is Connect
                        && forall|j: int|
                        #![trigger events[j]]
                        i < j < events.len() && events[j].0 == id ==> !is_lifecycle(events[j].1);
                assert(i != n);
                assert(prefix[i] == events[i]);
                assert forall|j: int| i < j < prefix.len() && #[trigger] prefix[j].0 == id implies !is_lifecycle(
                    prefix[j].1,
                ) by {
                    assert(prefix[j] == events[j]);
                }
                assert(last_lifecycle_is_connect(prefix, id));
            }
            if last_lifecycle_is_connect(prefix, id) {
                let i = choose|i: int|
                    #![trigger prefix[i]]
                    0 <= i < prefix.len() && prefix[i].0 == id && prefix[i].1 is Connect
                        && forall|j: int|
                        #![trigger prefix[j]]
                        i < j < prefix.len() && prefix[j].0 == id ==> !is_lifecycle(prefix[j].1);
                assert(events[i] == prefix[i]);
                assert forall|j: int| i < j < events.len() && #[trigger] events[j].0 == id implies !is_lifecycle(
                    events[j].1,
                ) by {
                    if j < n {
                        assert(prefix[j] == events[j]);
                    }
                }
                assert(last_lifecycle_is_connect(events, id));
            }
        }
    }
}

/// The connections that are registered, each held once.
pub struct Connections {
    ids: Vec<ConnectionId>,
}

impl View for Connections {
    type V = Set<ConnectionId>;

    closed spec fn view(&self) -> Set<ConnectionId> {
        self.ids@.to_set()
    }
}

impl Connections {
    /// Each registered id is held once.
    pub closed spec fn wf(&self) -> bool {
        self.ids@.no_duplicates()
    }

    /// No connection is registered.
    pub fn new() -> (r: Connections)
        ensures
            r.wf(),
            r@ == Set::<ConnectionId>::empty(),
    {
        let r = Connections { ids: Vec::new() };
        assert(r.ids@.to_set() =~= Set::<ConnectionId>::empty());
        r
    }

    /// Whether `id` is registered.
    pub fn contains(&self, id: ConnectionId) -> (r: bool)
        ensures
            r == self@.contains(id),
    {
        let mut i: usize = 0;
        while i < self.ids.len()
            invariant
                i <= self.ids@.len(),
                forall|k: int| 0 <= k < i ==> self.ids@[k] != id,
            decreases self.ids@.len() - i,
        {
            if self.ids[i] == id {
                assert(self.ids@.to_set().contains(self.ids@[i as int]));
                return true;
            }
            i = i + 1;
        }
        proof {
            if self.ids@.to_set().contains(id) {
                let k = choose|k: int| 0 <= k < self.ids@.len() && self.ids@[k] == id;
                assert(self.ids@[k] == id);
            }
        }
        false
    }

    /// Registers `id`; registering an id that is already there changes nothing.
    pub fn register(&mut self, id: ConnectionId)
        requires
            old(self).wf(),
        ensures
            final(self).wf(),
            final(self)@ == old(self)@.insert(id),
    {
        if !self.contains(id) {
            let ghost before = self.ids@;
            self.ids.push(id);
            proof {
                assert(self.ids@ == before.push(id));
                assert(self.ids@.no_duplicates()) by {
                    assert forall|a: int, b: int|
                        0 <= a < self.ids@.len() && 0 <= b < self.ids@.len() && a != b implies
                        self.ids@[a] != self.ids@[b] by {
                        if a == before.len() as int {
                            assert(before.to_set().contains(before[b]));
                        } else if b == before.len() as int {
                            assert(before.to_set().contains(before[a]));
                        }
                    }
                }
                assert(self.ids@.to_set() =~= before.to_set().insert(id)) by {
                    assert forall|x: ConnectionId| self.ids@.to_set().contains(x) implies before.to_set().insert(
                        id,
                    ).contains(x) by {
                        let k = choose|k: int| 0 <= k < self.ids@.len() && self.ids@[k] == x;
                        if k < before.len() {
                            assert(before[k] == x);
                        }
                    }
                    assert forall|x: ConnectionId| before.to_set().insert(id).contains(x) implies self.ids@.to_set().contains(
                        x,
                    ) by {
                        if x == id {
                            assert(self.ids@[before.len() as int] == id);
                        } else {
                            let k = choose|k: int| 0 <= k < before.len() && before[k] == x;
                            assert(self.ids@[k] == x);
                        }
                    }
                }
            }
        } else {
            assert(old(self)@.insert(id) =~= old(self)@);
        }
    }

    /// Removes `id`; removing an id that is not registered changes nothing.
    pub fn deregister(&mut self, id: ConnectionId)
        requires
            old(self).wf(),
        ensures
            final(self).wf(),
            final(self)@ == old(self)@.remove(id),
    {
        let mut i: usize = 0;
        while i < self.ids.len()
            invariant
                self.ids@ == old(self).ids@,
                old(self).wf(),
                i <= self.ids@.len(),
                forall|k: int| 0 <= k < i ==> self.ids@[k] != id,
            decreases self.ids@.len() - i,
        {
            if self.ids[i] == id {
                let ghost before = self.ids@;
                self.ids.remove(i);
                proof {
                    assert(self.ids@ == before.remove(i as int));
                    assert forall|a: int, b: int|
                        0 <= a < self.ids@.len() && 0 <= b < self.ids@.len() && a != b implies
                        self.ids@[a] != self.ids@[b] by {
                        let a2 = if a < i { a } else { a + 1 };
                        let b2 = if b < i { b } else { b + 1 };
                        assert(self.ids@[a] == before[a2]);
                        assert(self.ids@[b] == before[b2]);
                        assert(a2 != b2);
                        assert(before.no_duplicates());
                    }
                    assert(self.ids@.to_set() =~= before.to_set().remove(id)) by {
                        assert forall|x: ConnectionId| self.ids@.to_set().contains(x) implies before.to_set().remove(
                            id,
                        ).contains(x) by {
                            let k = choose|k: int| 0 <= k < self.ids@.len() && self.ids@[k] == x;
                            let k2 = if k < i { k } else { k + 1 };
                            assert(before[k2] == x);
                            assert(k2 != i);
                            assert(before[i as int] == id);
                            assert(before.no_duplicates());
                        }
                        assert forall|x: ConnectionId| before.to_set().remove(id).contains(x) implies self.ids@.to_set().contains(
                            x,
                        ) by {
                            let k = choose|k: int| 0 <= k < before.len() && before[k] == x;
                            assert(k != i);
                            let k2 = if k < i { k } else { k - 1 };
                            assert(self.ids@[k2] == x);
                        }
                    }
                }
                return;
            }
            i = i + 1;
        }
        proof {
            assert(!self.ids@.to_set().contains(id)) by {
                if self.ids@.to_set().contains(id) {
                    let k = choose|k: int| 0 <= k < self.ids@.len() && self.ids@[k] == id;
                    assert(self.ids@[k] == id);
                }
            }
            assert(old(self)@.remove(id) =~= old(self)@);
        }
    }

    /// Brings the registry up to date with `event` on `id`.
    pub fn observe(&mut self, id: ConnectionId, event: &WebSocketEvent)
        requires
            old(self).wf(),
        ensures
            final(self).wf(),
            final(self)@ == after_event(old(self)@, id, *event),
    {
        match event {
            WebSocketEvent::Connect => self.register(id),
            WebSocketEvent::Close(_) => self.deregister(id),
            _ => {},
        }
    }

    /// The registered ids, each once, in the order in which they registered.
    pub fn peers(&self) -> (r: Vec<ConnectionId>)
        requires
            self.wf(),
        ensures
            r@.no_duplicates(),
            r@.to_set() == self@,
    {
        let mut r: Vec<ConnectionId> = Vec::new();
        let mut i: usize = 0;
        while i < self.ids.len()
            invariant
                i <= self.ids@.len(),
                r@ == self.ids@.subrange(0, i as int),
            decreases self.ids@.len() - i,
        {
            r.push(self.ids[i]);
            i = i + 1;
            assert(r@ =~= self.ids@.subrange(0, i as int));
        }
        assert(r@ =~= self.ids@);
        r
    }
}

} // verus!
