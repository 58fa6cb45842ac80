//! A typed publish/subscribe bus.
//!
//! A `BusRegistry` holds every live subscription: a key, the tag of the value
//! type that is delivered under that key, and a unique subscription id. A
//! `DataBus` is one subscriber's handle: it remembers which (key, type) pairs it
//! subscribed, allows at most one subscription per pair, and gives all of them
//! back when it is released.
//!
//! Sending a value under a key yields the ids of the subscriptions that must
//! receive it, in the order they were made; the caller owns the callbacks and
//! invokes the one stored under each id.
use vstd::prelude::*;

verus! {

/// How a subscription delivers: to a free callback, or to a callback bound to
/// an object.
#[derive(PartialEq, Eq, Structural, Clone, Copy, Debug)]
pub enum SubscriberKind {
    Plain,
    Object,
}

/// One live subscription of the registry.
pub struct Subscription {
    pub key: String,
    pub type_tag: u64,
    pub id: u64,
    pub kind: SubscriberKind,
}

/// The abstract value of a subscription.
pub struct SubView {
    pub key: Seq<char>,
    pub type_tag: u64,
    pub id: u64,
    pub kind: SubscriberKind,
}

impl View for Subscription {
    type V = SubView;

    open spec fn view(&self) -> SubView {
        SubView { key: self.key@, type_tag: self.type_tag, id: self.id, kind: self.kind }
    }
}

/// The abstract value of the registry: the subscriptions in the order they
/// were made, and the id that the next subscription receives.
pub struct BusView {
    pub subs: Seq<SubView>,
    pub counter: nat,
}

impl BusView {
    /// Ids are unique and all below the counter.
    pub open spec fn wf(self) -> bool {
        &&& forall|i: int, j: int|
            0 <= i < j < self.subs.len() ==> #[trigger] self.subs[i].id != #[trigger] self.subs[j].id
        &&& forall|i: int| 0 <= i < self.subs.len() ==> #[trigger] self.subs[i].id < self.counter
    }
}

/// The ids delivered for a value of type `tag` sent under `key`, in
/// subscription order.
pub open spec fn delivery_ids(subs: Seq<SubView>, key: Seq<char>, tag: u64) -> Seq<u64>
    decreases subs.len(),
{
    if subs.len() == 0 {
        Seq::empty()
    } else {
        let rest = delivery_ids(subs.drop_last(), key, tag);
        let s = subs.last();
        if s.key == key && s.type_tag == tag {
            rest.push(s.id)
        } else {
            rest
        }
    }
}

/// The subscriptions that remain once those with an id in `ids` are removed.
pub open spec fn without_ids(subs: Seq<SubView>, ids: Set<u64>) -> Seq<SubView>
    decreases subs.len(),
{
    if subs.len() == 0 {
        Seq::empty()
    } else {
        let rest = without_ids(subs.drop_last(), ids);
        if ids.contains(subs.last().id) {
            rest
        } else {
            rest.push(subs.last())
        }
    }
}

/// The registry of all subscriptions.
pub struct BusRegistry {
    subs: Vec<Subscription>,
    counter: u64,
}

impl View for BusRegistry {
    type V = BusView;

    closed spec fn view(&self) -> BusView {
        BusView { subs: self.subs@.map_values(|s: Subscription| s@), counter: self.counter as nat }
    }
}

/// One (key, type, id) that a `DataBus` holds.
pub struct LocalEntry {
    pub key: String,
    pub type_tag: u64,
    pub id: u64,
}

/// The abstract value of a local entry.
pub struct LocalView {
    pub key: Seq<char>,
    pub type_tag: u64,
    pub id: u64,
}

impl View for LocalEntry {
    type V = LocalView;

    open spec fn view(&self) -> LocalView {
        LocalView { key: self.key@, type_tag: self.type_tag, id: self.id }
    }
}

/// Whether the entries hold a subscription for `key` and `tag`.
pub open spec fn has_entry(local: Seq<LocalView>, key: Seq<char>, tag: u64) -> bool {
    exists|i: int| 0 <= i < local.len() && #[trigger] local[i].key == key && local[i].type_tag == tag
}

/// The ids that the entries hold.
pub open spec fn local_ids(local: Seq<LocalView>) -> Set<u64> {
    Set::new(|id: u64| exists|i: int| 0 <= i < local.len() && #[trigger] local[i].id == id)
}

/// At most one entry per (key, type).
pub open spec fn local_wf(local: Seq<LocalView>) -> bool {
    forall|i: int, j: int|
        0 <= i < j < local.len() ==> !(#[trigger] local[i].key == #[trigger] local[j].key
            && local[i].type_tag == local[j].type_tag)
}

/// A subscriber's handle on the registry.
pub struct DataBus {
    local_mappings: Vec<LocalEntry>,
}

impl View for DataBus {
    type V = Seq<LocalView>;

    closed spec fn view(&self) -> Seq<LocalView> {
        self.local_mappings@.map_values(|e: LocalEntry| e@)
    }
}

impl Default for DataBus {
    fn default() -> (r: Self)
        ensures
            r@ == Seq::<LocalView>::empty(),
    {
        let r = DataBus { local_mappings: Vec::new() };
        proof {
            assert(r@ =~= Seq::<LocalView>::empty());
        }
        r
    }
}

impl BusRegistry {
    /// An empty registry whose first subscription gets id 0.
    pub fn new() -> (r: Self)
        ensures
            r@.subs == Seq::<SubView>::empty(),
            r@.counter == 0,
            r@.wf(),
    {
        let r = BusRegistry { subs: Vec::new(), counter: 0 };
        proof {
            assert(r@.subs =~= Seq::<SubView>::empty());
        }
        r
    }

    /// The number of live subscriptions.
    pub fn len(&self) -> (n: usize)
        ensures
            n == self@.subs.len(),
    {
        self.subs.len()
    }

    /// Adds a subscription with the next id.
    fn register(&mut self, key: &str, type_tag: u64, kind: SubscriberKind) -> (id: u64)
        requires
            old(self)@.wf(),
            old(self)@.counter < u64::MAX,
        ensures
            id == old(self)@.counter,
            final(self)@.counter == old(self)@.counter + 1,
            final(self)@.subs == old(self)@.subs.push(
                SubView { key: key@, type_tag, id, kind },
            ),
            final(self)@.wf(),
    {
        let id = self.counter;
        let ghost old_subs = self@.subs;
        self.subs.push(Subscription { key: key.to_owned(), type_tag, id, kind });
        self.counter = self.counter + 1;
        proof {
            assert(self@.subs =~= old_subs.push(SubView { key: key@, type_tag, id, kind }));
        }
        id
    }

    /// The ids to deliver to for a value of type `type_tag` sent under `key`.
    fn deliveries(&self, key: &str, type_tag: u64) -> (ids: Vec<u64>)
        ensures
            ids@ == delivery_ids(self@.subs, key@, type_tag),
    {
        let key_s = key.to_owned();
        let mut ids: Vec<u64> = Vec::new();
        let mut i: usize = 0;
        while i < self.subs.len()
            invariant
                i <= self.subs.len(),
                key_s@ == key@,
                ids@ == delivery_ids(self@.subs.take(i as int), key@, type_tag),
            decreases self.subs.len() - i,
        {
            proof {
                assert(self@.subs.take(i + 1).drop_last() =~= self@.subs.take(i as int));
            }
            if self.subs[i].key == key_s && self.subs[i].type_tag == type_tag {
                ids.push(self.subs[i].id);
            }
            i = i + 1;
        }
        proof {
            assert(self@.subs.take(i as int) =~= self@.subs);
        }
        ids
    }

    /// Removes every subscription whose id satisfies the membership test.
    fn remove_ids(&mut self, ids: &Vec<u64>)
        requires
            old(self)@.wf(),
        ensures
            final(self)@.subs == without_ids(old(self)@.subs, ids@.to_set()),
            final(self)@.counter == old(self)@.counter,
            final(self)@.wf(),
    {
        let ghost old_view = self@;
        let mut kept: Vec<Subscription> = Vec::new();
        let mut i: usize = 0;
        while i < self.subs.len()
            invariant
                i <= self.subs.len(),
                self@ == old_view,
                old_view.wf(),
                kept@.map_values(|s: Subscription| s@) == without_ids(
                    old_view.subs.take(i as int),
                    ids@.to_set(),
                ),
            decreases self.subs.len() - i,
        {
            proof {
                assert(old_view.subs.take(i + 1).drop_last() =~= old_view.subs.take(i as int));
            }
            let id = self.subs[i].id;
            let mut found = false;
            let mut j: usize = 0;
            while j < ids.len()
                invariant
                    j <= ids.len(),
                    found <==> exists|k: int| 0 <= k < j && ids@[k] == id,
                decreases ids.len() - j,
            {
                if ids[j] == id {
                    found = true;
                }
                j = j + 1;
            }
            proof {
                if found {
                    let k = choose|k: int| 0 <= k < ids.len() && ids@[k] == id;
                    assert(ids@.to_set().contains(ids@[k]));
                } else {
                    assert(!ids@.to_set().contains(id));
                }
            }
            if !found {
                let ghost before = kept@;
                let s = Subscription {
                    key: self.subs[i].key.clone(),
                    type_tag: self.subs[i].type_tag,
                    id: self.subs[i].id,
                    kind: self.subs[i].kind,
                };
                kept.push(s);
                proof {
                    assert(kept@.map_values(|s: Subscription| s@) =~= before.map_values(
                        |s: Subscription| s@,
                    ).push(old_view.subs[i as int]));
                }
            }
            i = i + 1;
        }
        proof {
            assert(old_view.subs.take(i as int) =~= old_view.subs);
        }
        self.subs = kept;
        proof {
            lemma_without_ids_wf(old_view.subs, ids@.to_set(), old_view.counter);
        }
    }
}

/// Removing subscriptions keeps ids unique and below the counter.
proof fn lemma_without_ids_wf(subs: Seq<SubView>, ids: Set<u64>, counter: nat)
    requires
        (BusView { subs, counter }).wf(),
    ensures
        (BusView { subs: without_ids(subs, ids), counter }).wf(),
        forall|k: int|
            0 <= k < without_ids(subs, ids).len() ==> exists|m: int|
                0 <= m < subs.len() && #[trigger] without_ids(subs, ids)[k] == subs[m],
    decreases subs.len(),
{
    if subs.len() > 0 {
        let rest = subs.drop_last();
        assert forall|i: int, j: int| 0 <= i < j < rest.len() implies #[trigger] rest[i].id
            != #[trigger] rest[j].id by {
            assert(rest[i] == subs[i] && rest[j] == subs[j]);
        }
        assert forall|i: int| 0 <= i < rest.len() implies #[trigger] rest[i].id < counter by {
            assert(rest[i] == subs[i]);
        }
        lemma_without_ids_wf(rest, ids, counter);
        let r = without_ids(rest, ids);
        if !ids.contains(subs.last().id) {
            let w = r.push(subs.last());
            assert forall|k: int| 0 <= k < w.len() implies exists|m: int|
                0 <= m < subs.len() && #[trigger] w[k] == subs[m] by {
                if k < r.len() {
                    let m = choose|m: int| 0 <= m < rest.len() && r[k] == rest[m];
                    assert(w[k] == subs[m]);
                } else {
                    assert(w[k] == subs[subs.len() - 1]);
                }
            }
            assert forall|i: int, j: int| 0 <= i < j < w.len() implies #[trigger] w[i].id
                != #[trigger] w[j].id by {
                if j < r.len() {
                    assert(w[i] == r[i] && w[j] == r[j]);
                } else {
                    let m = choose|m: int| 0 <= m < rest.len() && r[i] == rest[m];
                    assert(w[i] == subs[m]);
                    assert(w[j] == subs[subs.len() - 1]);
                }
            }
        }
    }
}

/// A subscription made for `key` and `tag` receives every value of that type
/// later sent under that key, after the subscriptions made before it; what a
/// value of another key or type reaches is unchanged.
pub proof fn lemma_subscribe_then_deliver(
    subs: Seq<SubView>,
    sub: SubView,
    key: Seq<char>,
    tag: u64,
)
    ensures
        delivery_ids(subs.push(sub), key, tag) == if sub.key == key && sub.type_tag == tag {
            delivery_ids(subs, key, tag).push(sub.id)
        } else {
            delivery_ids(subs, key, tag)
        },
{
    assert(subs.push(sub).drop_last() =~= subs);
}

/// After a bus is released, a value sent under any key reaches exactly the
/// subscriptions it reached before that do not belong to the bus, in the same
/// order.
pub proof fn lemma_release_then_deliver(subs: Seq<SubView>, ids: Set<u64>, key: Seq<char>, tag: u64)
    ensures
        delivery_ids(without_ids(subs, ids), key, tag) == delivery_ids(subs, key, tag).filter(
            |id: u64| !ids.contains(id),
        ),
    decreases subs.len(),
{
    reveal(Seq::filter);
    if subs.len() > 0 {
        let rest = subs.drop_last();
        let s = subs.last();
        lemma_release_then_deliver(rest, ids, key, tag);
        let w = without_ids(rest, ids);
        if !ids.contains(s.id) {
            assert(w.push(s).drop_last() =~= w);
        }
        let d = delivery_ids(rest, key, tag);
        assert(d.push(s.id).drop_last() =~= d);
    }
}

impl DataBus {
    /// Does nothing: a bus is created with `DataBus::default()`.
    pub fn new() {
    }

    /// The ids of the registry subscriptions that this bus holds.
    pub fn subscription_ids(&self) -> (ids: Vec<u64>)
        ensures
            ids@.to_set() == local_ids(self@),
            ids@.len() == self@.len(),
            forall|i: int| 0 <= i < ids@.len() ==> ids@[i] == #[trigger] self@[i].id,
    {
        let mut ids: Vec<u64> = Vec::new();
        let mut i: usize = 0;
        while i < self.local_mappings.len()
            invariant
                i <= self.local_mappings.len(),
                ids@.len() == i,
                forall|k: int| 0 <= k < i ==> ids@[k] == #[trigger] self@[k].id,
            decreases self.local_mappings.len() - i,
        {
            ids.push(self.local_mappings[i].id);
            i = i + 1;
        }
        proof {
            assert forall|id: u64| ids@.to_set().contains(id) <==> local_ids(self@).contains(id) by {
                if ids@.to_set().contains(id) {
                    let k = choose|k: int| 0 <= k < ids@.len() && ids@[k] == id;
                    assert(self@[k].id == id);
                }
                if local_ids(self@).contains(id) {
                    let k = choose|k: int| 0 <= k < self@.len() && self@[k].id == id;
                    assert(ids@[k] == id);
                }
            }
            assert(ids@.to_set() =~= local_ids(self@));
        }
        ids
    }

    /// Whether this bus already subscribed `key` for `type_tag`.
    pub fn has_subscription(&self, key: &str, type_tag: u64) -> (b: bool)
        ensures
            b == has_entry(self@, key@, type_tag),
    {
        let key_s = key.to_owned();
        let mut i: usize = 0;
        while i < self.local_mappings.len()
            invariant
                i <= self.local_mappings.len(),
                key_s@ == key@,
                forall|k: int|
                    0 <= k < i ==> !(#[trigger] self@[k].key == key@ && self@[k].type_tag
                        == type_tag),
            decreases self.local_mappings.len() - i,
        {
            if self.local_mappings[i].key == key_s && self.local_mappings[i].type_tag == type_tag {
                assert(self@[i as int].key == key@);
                return true;
            }
            i = i + 1;
        }
        false
    }

    fn subscribe(
        &mut self,
        registry: &mut BusRegistry,
        key: &str,
        type_tag: u64,
        kind: SubscriberKind,
    ) -> (id: Option<u64>)
        requires
            old(registry)@.wf(),
            old(registry)@.counter < u64::MAX,
            local_wf(old(self)@),
        ensures
            final(registry)@.wf(),
            local_wf(final(self)@),
            has_entry(old(self)@, key@, type_tag) ==> {
                &&& id is None
                &&& final(self)@ == old(self)@
                &&& final(registry)@ == old(registry)@
            },
            !has_entry(old(self)@, key@, type_tag) ==> {
                &&& id == Some(old(registry)@.counter as u64)
                &&& final(registry)@.counter == old(registry)@.counter + 1
                &&& final(registry)@.subs == old(registry)@.subs.push(
                    SubView { key: key@, type_tag, id: id->0, kind },
                )
                &&& final(self)@ == old(self)@.push(
                    LocalView { key: key@, type_tag, id: id->0 },
                )
            },
    {
        if self.has_subscription(key, type_tag) {
            return None;
        }
        let id = registry.register(key, type_tag, kind);
        let ghost before = self@;
        self.local_mappings.push(LocalEntry { key: key.to_owned(), type_tag, id });
        proof {
            assert(self@ =~= before.push(LocalView { key: key@, type_tag, id }));
        }
        Some(id)
    }

    /// Subscribes a free callback to values of type `type_tag` sent under
    /// `key`. One bus holds at most one subscription per (key, type): when it
    /// already holds one, nothing changes and `None` is returned. Otherwise the
    /// registry's next id is taken and returned; the caller stores its callback
    /// under that id.
    pub fn add_subscriber(&mut self, registry: &mut BusRegistry, key: &str, type_tag: u64) -> (id:
        Option<u64>)
        requires
            old(registry)@.wf(),
            old(registry)@.counter < u64::MAX,
            local_wf(old(self)@),
        ensures
            final(registry)@.wf(),
            local_wf(final(self)@),
            has_entry(old(self)@, key@, type_tag) ==> {
                &&& id is None
                &&& final(self)@ == old(self)@
                &&& final(registry)@ == old(registry)@
            },
            !has_entry(old(self)@, key@, type_tag) ==> {
                &&& id == Some(old(registry)@.counter as u64)
                &&& final(registry)@.counter == old(registry)@.counter + 1
                &&& final(registry)@.subs == old(registry)@.subs.push(
                    SubView { key: key@, type_tag, id: id->0, kind: SubscriberKind::Plain },
                )
                &&& final(self)@ == old(self)@.push(
                    LocalView { key: key@, type_tag, id: id->0 },
                )
            },
    {
        self.subscribe(registry, key, type_tag, SubscriberKind::Plain)
    }

    /// Like `add_subscriber`, for a callback bound to an object: the
    /// subscription is recorded as an object subscription.
    pub fn add_object_subscriber(
        &mut self,
        registry: &mut BusRegistry,
        key: &str,
        type_tag: u64,
    ) -> (id: Option<u64>)
        requires
            old(registry)@.wf(),
            old(registry)@.counter < u64::MAX,
            local_wf(old(self)@),
        ensures
            final(registry)@.wf(),
            local_wf(final(self)@),
            has_entry(old(self)@, key@, type_tag) ==> {
                &&& id is None
                &&& final(self)@ == old(self)@
                &&& final(registry)@ == old(registry)@
            },
            !has_entry(old(self)@, key@, type_tag) ==> {
                &&& id == Some(old(registry)@.counter as u64)
                &&& final(registry)@.counter == old(registry)@.counter + 1
                &&& final(registry)@.subs == old(registry)@.subs.push(
                    SubView { key: key@, type_tag, id: id->0, kind: SubscriberKind::Object },
                )
                &&& final(self)@ == old(self)@.push(
                    LocalView { key: key@, type_tag, id: id->0 },
                )
            },
    {
        self.subscribe(registry, key, type_tag, SubscriberKind::Object)
    }

    /// The ids of the subscriptions that receive a value of type `type_tag`
    /// sent under `key`, in the order the subscriptions were made.
    pub fn send(&self, registry: &BusRegistry, key: &str, type_tag: u64) -> (ids: Vec<u64>)
        ensures
            ids@ == delivery_ids(registry@.subs, key@, type_tag),
    {
        registry.deliveries(key, type_tag)
    }

    /// Gives back every subscription of this bus: the registry keeps all the
    /// others, in their order.
    pub fn release(self, registry: &mut BusRegistry)
        requires
            old(registry)@.wf(),
        ensures
            final(registry)@.subs == without_ids(old(registry)@.subs, local_ids(self@)),
            final(registry)@.counter == old(registry)@.counter,
            final(registry)@.wf(),
    {
        let ids = self.subscription_ids();
        registry.remove_ids(&ids);
    }
}


/// What is left of `subs` once the ids in `ids` are removed: no removed id,
/// and every subscription with another id.
proof fn lemma_without_ids_members(subs: Seq<SubView>, ids: Set<u64>)
    ensures
        forall|k: int|
            0 <= k < without_ids(subs, ids).len() ==> !ids.contains(
                (#[trigger] without_ids(subs, ids)[k]).id,
            ) && exists|m: int| 0 <= m < subs.len() && without_ids(subs, ids)[k] == #[trigger] subs[m],
        forall|m: int|
            0 <= m < subs.len() && !ids.contains((#[trigger] subs[m]).id) ==> exists|k: int|
                0 <= k < without_ids(subs, ids).len() && without_ids(subs, ids)[k] == subs[m],
    decreases subs.len(),
{
    if subs.len() > 0 {
        let rest = subs.drop_last();
        lemma_without_ids_members(rest, ids);
        let r = without_ids(rest, ids);
        assert forall|m: int| 0 <= m < subs.len() && !ids.contains((#[trigger] subs[m]).id) implies exists|k: int|
            0 <= k < without_ids(subs, ids).len() && without_ids(subs, ids)[k] == subs[m] by {
            if m < rest.len() {
                assert(rest[m] == subs[m]);
                let k = choose|k: int| 0 <= k < r.len() && r[k] == rest[m];
                if !ids.contains(subs.last().id) {
                    assert(r.push(subs.last())[k] == r[k]);
                }
            } else {
                assert(without_ids(subs, ids) == r.push(subs.last()));
                assert(without_ids(subs, ids)[r.len() as int] == subs[m]);
            }
        }
        if !ids.contains(subs.last().id) {
            let w = r.push(subs.last());
            assert forall|k: int| 0 <= k < w.len() implies !ids.contains((#[trigger] w[k]).id) && exists|m: int|
                0 <= m < subs.len() && w[k] == #[trigger] subs[m] by {
                if k < r.len() {
                    assert(w[k] == r[k]);
                    let m = choose|m: int| 0 <= m < rest.len() && r[k] == rest[m];
                    assert(rest[m] == subs[m]);
                } else {
                    assert(w[k] == subs[subs.len() - 1]);
                }
            }
        } else {
            assert forall|k: int| 0 <= k < r.len() implies exists|m: int|
                0 <= m < subs.len() && #[trigger] r[k] == subs[m] by {
                let m = choose|m: int| 0 <= m < rest.len() && r[k] == rest[m];
                assert(rest[m] == subs[m]);
            }
        }
    }
}

/// The registry and the buses that hold its subscriptions.
pub struct BusSystem {
    pub registry: BusView,
    pub buses: Seq<Seq<LocalView>>,
}

/// One call on the registry and its buses.
pub enum BusOp {
    /// A new bus, as `DataBus::default()` gives.
    NewBus,
    /// `add_subscriber` (kind `Plain`) or `add_object_subscriber` (kind
    /// `Object`) on bus `bus`.
    Subscribe { bus: int, key: Seq<char>, tag: u64, kind: SubscriberKind },
    /// `release` of bus `bus`, which is gone afterwards.
    Release { bus: int },
}

/// The registry with no subscription, and no bus.
pub open spec fn bus_start() -> BusSystem {
    BusSystem { registry: BusView { subs: Seq::empty(), counter: 0 }, buses: Seq::empty() }
}

/// The registry and buses after one call, as the calls' contracts give it; a
/// call on a bus that does not exist changes nothing.
pub open spec fn bus_step(st: BusSystem, op: BusOp) -> BusSystem {
    match op {
        BusOp::NewBus => BusSystem { buses: st.buses.push(Seq::empty()), ..st },
        BusOp::Subscribe { bus, key, tag, kind } => if !(0 <= bus < st.buses.len()) || has_entry(
            st.buses[bus],
            key,
            tag,
        ) {
            st
        } else {
            let id = st.registry.counter as u64;
            BusSystem {
                registry: BusView {
                    subs: st.registry.subs.push(SubView { key, type_tag: tag, id, kind }),
                    counter: st.registry.counter + 1,
                },
                buses: st.buses.update(bus, st.buses[bus].push(LocalView { key, type_tag: tag, id })),
            }
        },
        BusOp::Release { bus } => if !(0 <= bus < st.buses.len()) {
            st
        } else {
            BusSystem {
                registry: BusView {
                    subs: without_ids(st.registry.subs, local_ids(st.buses[bus])),
                    counter: st.registry.counter,
                },
                buses: st.buses.remove(bus),
            }
        },
    }
}

/// The registry and buses after the calls `ops`, in order.
pub open spec fn bus_run(st: BusSystem, ops: Seq<BusOp>) -> BusSystem
    decreases ops.len(),
{
    if ops.len() == 0 {
        st
    } else {
        bus_step(bus_run(st, ops.drop_last()), ops.last())
    }
}

/// Registry subscription `s` is the one a bus holds as `e`.
pub open spec fn entry_of(s: SubView, e: LocalView) -> bool {
    s.id == e.id && s.key == e.key && s.type_tag == e.type_tag
}

/// The registry holds the subscription that a bus holds as `e`.
pub open spec fn registry_has(subs: Seq<SubView>, e: LocalView) -> bool {
    exists|i: int| 0 <= i < subs.len() && #[trigger] entry_of(subs[i], e)
}

/// Some bus holds registry subscription `s`.
pub open spec fn held_by_bus(buses: Seq<Seq<LocalView>>, s: SubView) -> bool {
    exists|b: int, j: int| 0 <= b < buses.len() && 0 <= j < buses[b].len() && #[trigger] entry_of(s, buses[b][j])
}

/// No id is held twice among the buses, and every held id is below `counter`.
pub open spec fn held_ids_ok(buses: Seq<Seq<LocalView>>, counter: nat) -> bool {
    &&& forall|b: int, j: int|
        0 <= b < buses.len() && 0 <= j < buses[b].len() ==> (#[trigger] buses[b][j]).id < counter
    &&& forall|b1: int, j1: int, b2: int, j2: int|
        0 <= b1 < buses.len() && 0 <= j1 < buses[b1].len() && 0 <= b2 < buses.len() && 0 <= j2
            < buses[b2].len() && (b1 != b2 || j1 != j2) ==> (#[trigger] buses[b1][j1]).id != (
        #[trigger] buses[b2][j2]).id
}

/// The registry and the buses agree: ids are unique and below the counter;
/// each bus holds at most one subscription per key and type; no id is held
/// twice; every subscription a bus holds is in the registry, and every
/// registry subscription is held by a bus.
pub open spec fn bus_system_ok(st: BusSystem) -> bool {
    &&& st.registry.wf()
    &&& forall|b: int| 0 <= b < st.buses.len() ==> local_wf(#[trigger] st.buses[b])
    &&& held_ids_ok(st.buses, st.registry.counter)
    &&& forall|b: int, j: int|
        0 <= b < st.buses.len() && 0 <= j < st.buses[b].len() ==> registry_has(
            st.registry.subs,
            #[trigger] st.buses[b][j],
        )
    &&& forall|i: int|
        0 <= i < st.registry.subs.len() ==> held_by_bus(st.buses, #[trigger] st.registry.subs[i])
}

proof fn lemma_new_bus_step(st: BusSystem)
    requires
        bus_system_ok(st),
    ensures
        bus_system_ok(bus_step(st, BusOp::NewBus)),
        bus_step(st, BusOp::NewBus).registry.counter == st.registry.counter,
{
    let st2 = bus_step(st, BusOp::NewBus);
    assert(st2.buses == st.buses.push(Seq::<LocalView>::empty()));
    assert(st2.registry == st.registry);
    assert forall|b: int| 0 <= b < st.buses.len() implies #[trigger] st2.buses[b] == st.buses[b] by {}
    assert(st2.buses[st.buses.len() as int].len() == 0);
    assert forall|i: int| 0 <= i < st2.registry.subs.len() implies held_by_bus(
        st2.buses,
        #[trigger] st2.registry.subs[i],
    ) by {
        let sub = st.registry.subs[i];
        assert(held_by_bus(st.buses, sub));
        let (b, j) = choose|b: int, j: int|
            0 <= b < st.buses.len() && 0 <= j < st.buses[b].len() && #[trigger] entry_of(sub, st.buses[b][j]);
        assert(st2.buses[b][j] == st.buses[b][j]);
    }
    assert(held_ids_ok(st2.buses, st2.registry.counter)) by {
        assert forall|b1: int, j1: int, b2: int, j2: int|
            0 <= b1 < st2.buses.len() && 0 <= j1 < st2.buses[b1].len() && 0 <= b2 < st2.buses.len()
                && 0 <= j2 < st2.buses[b2].len() && (b1 != b2 || j1 != j2) implies (
        #[trigger] st2.buses[b1][j1]).id != (#[trigger] st2.buses[b2][j2]).id by {
            assert(st2.buses[b1] == st.buses[b1]);
            assert(st2.buses[b2] == st.buses[b2]);
        }
        assert forall|b: int, j: int| 0 <= b < st2.buses.len() && 0 <= j < st2.buses[b].len() implies (
        #[trigger] st2.buses[b][j]).id < st2.registry.counter by {
            assert(st2.buses[b] == st.buses[b]);
        }
    }
}

#[verifier::rlimit(50)]
proof fn lemma_subscribe_step(st: BusSystem, bus: int, key: Seq<char>, tag: u64, kind: SubscriberKind)
    requires
        bus_system_ok(st),
        st.registry.counter < u64::MAX,
        0 <= bus < st.buses.len(),
        !has_entry(st.buses[bus], key, tag),
    ensures
        bus_system_ok(bus_step(st, BusOp::Subscribe { bus, key, tag, kind })),
        bus_step(st, BusOp::Subscribe { bus, key, tag, kind }).registry.counter == st.registry.counter + 1,
{
    let st2 = bus_step(st, BusOp::Subscribe { bus, key, tag, kind });
    let c = st.registry.counter;
    let id = c as u64;
    let old_b = st.buses[bus];
    let ne = LocalView { key, type_tag: tag, id };
    let nb = old_b.push(ne);
    let ns = SubView { key, type_tag: tag, id, kind };
    assert(st2.registry.subs == st.registry.subs.push(ns));
    assert(st2.buses == st.buses.update(bus, nb));
    assert(st2.registry.wf()) by {
        assert forall|i: int, j: int| 0 <= i < j < st2.registry.subs.len() implies #[trigger] st2.registry.subs[i].id
            != #[trigger] st2.registry.subs[j].id by {
            assert(st2.registry.subs[i] == st.registry.subs[i]);
            if j < st.registry.subs.len() {
                assert(st2.registry.subs[j] == st.registry.subs[j]);
            }
        }
        assert forall|i: int| 0 <= i < st2.registry.subs.len() implies #[trigger] st2.registry.subs[i].id
            < st2.registry.counter by {
            if i < st.registry.subs.len() {
                assert(st2.registry.subs[i] == st.registry.subs[i]);
            }
        }
    }
    assert(local_wf(nb)) by {
        assert forall|i: int, j: int| 0 <= i < j < nb.len() implies !(#[trigger] nb[i].key
            == #[trigger] nb[j].key && nb[i].type_tag == nb[j].type_tag) by {
            assert(nb[i] == old_b[i]);
            if j < old_b.len() {
                assert(nb[j] == old_b[j]);
            } else if nb[i].key == key && nb[i].type_tag == tag {
                assert(has_entry(old_b, key, tag));
            }
        }
    }
    assert forall|b: int| 0 <= b < st2.buses.len() implies local_wf(#[trigger] st2.buses[b]) by {
        if b != bus {
            assert(st2.buses[b] == st.buses[b]);
        }
    }
    // the entry at (b, j) after the call
    assert forall|b: int, j: int| 0 <= b < st2.buses.len() && 0 <= j < st2.buses[b].len() implies #[trigger] st2.buses[b][j]
        == if b == bus && j == old_b.len() { ne } else { st.buses[b][j] } by {
        if b != bus {
            assert(st2.buses[b] == st.buses[b]);
        } else if j < old_b.len() {
            assert(st2.buses[b][j] == old_b[j]);
        }
    }
    assert(held_ids_ok(st2.buses, st2.registry.counter));
    assert forall|b: int, j: int| 0 <= b < st2.buses.len() && 0 <= j < st2.buses[b].len() implies registry_has(
        st2.registry.subs,
        #[trigger] st2.buses[b][j],
    ) by {
        if b == bus && j == old_b.len() {
            assert(entry_of(st2.registry.subs[st.registry.subs.len() as int], ne));
        } else {
            let e = st.buses[b][j];
            assert(registry_has(st.registry.subs, e));
            let i = choose|i: int| 0 <= i < st.registry.subs.len() && #[trigger] entry_of(st.registry.subs[i], e);
            assert(st2.registry.subs[i] == st.registry.subs[i]);
        }
    }
    assert forall|i: int| 0 <= i < st2.registry.subs.len() implies held_by_bus(
        st2.buses,
        #[trigger] st2.registry.subs[i],
    ) by {
        if i == st.registry.subs.len() {
            assert(st2.buses[bus][old_b.len() as int] == ne);
            assert(entry_of(ns, st2.buses[bus][old_b.len() as int]));
        } else {
            let sub = st.registry.subs[i];
            assert(st2.registry.subs[i] == sub);
            assert(held_by_bus(st.buses, sub));
            let (b, j) = choose|b: int, j: int|
                0 <= b < st.buses.len() && 0 <= j < st.buses[b].len() && #[trigger] entry_of(sub, st.buses[b][j]);
            assert(st2.buses[b][j] == st.buses[b][j]);
        }
    }
}

/// The bus at index `b` once bus `bus` is removed.
proof fn lemma_remove_index(buses: Seq<Seq<LocalView>>, bus: int)
    requires
        0 <= bus < buses.len(),
    ensures
        forall|b: int|
            0 <= b < buses.len() - 1 ==> #[trigger] buses.remove(bus)[b] == buses[if b < bus {
                b
            } else {
                b + 1
            }],
{
}

/// Removing a bus keeps the other buses' entries valid and their ids apart.
proof fn lemma_release_buses(buses: Seq<Seq<LocalView>>, bus: int, counter: nat)
    requires
        0 <= bus < buses.len(),
        forall|b: int| 0 <= b < buses.len() ==> local_wf(#[trigger] buses[b]),
        held_ids_ok(buses, counter),
    ensures
        forall|b: int| 0 <= b < buses.remove(bus).len() ==> local_wf(#[trigger] buses.remove(bus)[b]),
        held_ids_ok(buses.remove(bus), counter),
{
    let nb = buses.remove(bus);
    lemma_remove_index(buses, bus);
    assert forall|b: int| 0 <= b < nb.len() implies local_wf(#[trigger] nb[b]) by {
        let o = if b < bus { b } else { b + 1 };
        assert(nb[b] == buses[o]);
    }
    assert forall|b1: int, j1: int, b2: int, j2: int|
        0 <= b1 < nb.len() && 0 <= j1 < nb[b1].len() && 0 <= b2 < nb.len() && 0 <= j2 < nb[b2].len()
            && (b1 != b2 || j1 != j2) implies (#[trigger] nb[b1][j1]).id != (#[trigger] nb[b2][j2]).id by {
        let o1 = if b1 < bus { b1 } else { b1 + 1 };
        let o2 = if b2 < bus { b2 } else { b2 + 1 };
        assert(nb[b1] == buses[o1]);
        assert(nb[b2] == buses[o2]);
        assert(buses[o1][j1].id != buses[o2][j2].id);
    }
    assert forall|b: int, j: int| 0 <= b < nb.len() && 0 <= j < nb[b].len() implies (
    #[trigger] nb[b][j]).id < counter by {
        let o = if b < bus { b } else { b + 1 };
        assert(nb[b] == buses[o]);
        assert(buses[o][j].id < counter);
    }
}

/// After a release, every entry of the remaining buses is still in the
/// registry.
proof fn lemma_release_kept(st: BusSystem, bus: int)
    requires
        0 <= bus < st.buses.len(),
        held_ids_ok(st.buses, st.registry.counter),
        forall|b: int, j: int|
            0 <= b < st.buses.len() && 0 <= j < st.buses[b].len() ==> registry_has(
                st.registry.subs,
                #[trigger] st.buses[b][j],
            ),
    ensures
        forall|b: int, j: int|
            0 <= b < st.buses.remove(bus).len() && 0 <= j < st.buses.remove(bus)[b].len() ==> registry_has(
                without_ids(st.registry.subs, local_ids(st.buses[bus])),
                #[trigger] st.buses.remove(bus)[b][j],
            ),
{
    let ids = local_ids(st.buses[bus]);
    let w = without_ids(st.registry.subs, ids);
    let nb = st.buses.remove(bus);
    lemma_remove_index(st.buses, bus);
    lemma_without_ids_members(st.registry.subs, ids);
    assert forall|b: int, j: int| 0 <= b < nb.len() && 0 <= j < nb[b].len() implies registry_has(
        w,
        #[trigger] nb[b][j],
    ) by {
        let o = if b < bus { b } else { b + 1 };
        assert(nb[b] == st.buses[o]);
        let e = st.buses[o][j];
        assert(registry_has(st.registry.subs, e));
        let m = choose|m: int| 0 <= m < st.registry.subs.len() && #[trigger] entry_of(st.registry.subs[m], e);
        if ids.contains(st.registry.subs[m].id) {
            let q = choose|q: int| 0 <= q < st.buses[bus].len() && #[trigger] st.buses[bus][q].id == st.registry.subs[m].id;
            assert(st.buses[bus][q].id != st.buses[o][j].id);
        }
        let k = choose|k: int| 0 <= k < w.len() && w[k] == st.registry.subs[m];
        assert(entry_of(w[k], e));
    }
}

/// After a release, every remaining registry subscription is held by a
/// remaining bus.
proof fn lemma_release_owned(st: BusSystem, bus: int)
    requires
        0 <= bus < st.buses.len(),
        forall|i: int|
            0 <= i < st.registry.subs.len() ==> held_by_bus(st.buses, #[trigger] st.registry.subs[i]),
    ensures
        forall|k: int|
            0 <= k < without_ids(st.registry.subs, local_ids(st.buses[bus])).len() ==> held_by_bus(
                st.buses.remove(bus),
                #[trigger] without_ids(st.registry.subs, local_ids(st.buses[bus]))[k],
            ),
{
    let ids = local_ids(st.buses[bus]);
    let w = without_ids(st.registry.subs, ids);
    let nb = st.buses.remove(bus);
    lemma_remove_index(st.buses, bus);
    lemma_without_ids_members(st.registry.subs, ids);
    assert forall|k: int| 0 <= k < w.len() implies held_by_bus(nb, #[trigger] w[k]) by {
        let m = choose|m: int| 0 <= m < st.registry.subs.len() && w[k] == st.registry.subs[m];
        assert(!ids.contains(w[k].id));
        let sub = st.registry.subs[m];
        assert(held_by_bus(st.buses, sub));
        let (ob, j) = choose|ob: int, j: int|
            0 <= ob < st.buses.len() && 0 <= j < st.buses[ob].len() && #[trigger] entry_of(sub, st.buses[ob][j]);
        if ob == bus {
            assert(ids.contains(st.buses[bus][j].id));
        }
        let b = if ob < bus { ob } else { ob - 1 };
        assert(nb[b] == st.buses[ob]);
        assert(entry_of(w[k], nb[b][j]));
    }
}

proof fn lemma_release_step(st: BusSystem, bus: int)
    requires
        bus_system_ok(st),
        0 <= bus < st.buses.len(),
    ensures
        bus_system_ok(bus_step(st, BusOp::Release { bus })),
        bus_step(st, BusOp::Release { bus }).registry.counter == st.registry.counter,
{
    let st2 = bus_step(st, BusOp::Release { bus });
    let ids = local_ids(st.buses[bus]);
    assert(st2.registry.subs == without_ids(st.registry.subs, ids));
    assert(st2.buses == st.buses.remove(bus));
    lemma_without_ids_wf(st.registry.subs, ids, st.registry.counter);
    lemma_release_buses(st.buses, bus, st.registry.counter);
    lemma_release_kept(st, bus);
    lemma_release_owned(st, bus);
}

/// One call keeps the registry and the buses in agreement.
proof fn lemma_bus_step(st: BusSystem, op: BusOp)
    requires
        bus_system_ok(st),
        st.registry.counter < u64::MAX,
    ensures
        bus_system_ok(bus_step(st, op)),
        bus_step(st, op).registry.counter <= st.registry.counter + 1,
{
    match op {
        BusOp::NewBus => lemma_new_bus_step(st),
        BusOp::Subscribe { bus, key, tag, kind } => {
            if 0 <= bus < st.buses.len() && !has_entry(st.buses[bus], key, tag) {
                lemma_subscribe_step(st, bus, key, tag, kind);
            }
        },
        BusOp::Release { bus } => {
            if 0 <= bus < st.buses.len() {
                lemma_release_step(st, bus);
            }
        },
    }
}

/// Over any sequence of calls that creates buses, subscribes and releases
/// them, starting from an empty registry, the registry and the live buses
/// agree: subscription ids are unique, a bus holds at most one subscription
/// per key and type, every subscription a live bus holds is in the registry,
/// and every registry subscription belongs to a live bus.
pub proof fn lemma_bus_calls(ops: Seq<BusOp>)
    requires
        ops.len() < u64::MAX,
    ensures
        bus_system_ok(bus_run(bus_start(), ops)),
        bus_run(bus_start(), ops).registry.counter <= ops.len(),
    decreases ops.len(),
{
    if ops.len() > 0 {
        lemma_bus_calls(ops.drop_last());
        lemma_bus_step(bus_run(bus_start(), ops.drop_last()), ops.last());
    }
}

} // verus!
