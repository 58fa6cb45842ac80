//! What every node shares: the information it is created with, and the
//! subscription of its options on the data bus under `name::option`.
use crate::config::option_key;
use crate::data_bus::{
    BusRegistry,
    BusView,
    DataBus,
    LocalView,
    SubView,
    SubscriberKind,
    delivery_ids,
    has_entry,
    local_wf,
};
use crate::text::{concat_str, str_eq};
use vstd::prelude::*;

verus! {

/// The information a node is created with: its name in the description.
pub struct NodeCreateInfo {
    pub name: String,
}

impl NodeCreateInfo {
    /// The information for a node named `name`.
    pub fn new(name: &str) -> (r: Self)
        ensures
            r.name@ == name@,
    {
        NodeCreateInfo { name: name.to_owned() }
    }
}

/// The abstract value of a list of (option, type tag) pairs.
pub open spec fn options_view(opts: Seq<(&str, u64)>) -> Seq<(Seq<char>, u64)> {
    opts.map_values(|o: (&str, u64)| (o.0@, o.1))
}

/// No option name occurs twice.
pub open spec fn names_distinct(opts: Seq<(Seq<char>, u64)>) -> bool {
    forall|i: int, j: int| 0 <= i < j < opts.len() ==> #[trigger] opts[i].0 != #[trigger] opts[j].0
}

/// The registry subscriptions of the options `opts` of node `name`, with ids
/// counted from `start`.
pub open spec fn option_subs(name: Seq<char>, opts: Seq<(Seq<char>, u64)>, start: nat) -> Seq<
    SubView,
> {
    Seq::new(
        opts.len(),
        |i: int|
            SubView {
                key: option_key(name, opts[i].0),
                type_tag: opts[i].1,
                id: (start + i) as u64,
                kind: SubscriberKind::Object,
            },
    )
}

/// The entries a node's bus holds for the options `opts` of node `name`,
/// with ids counted from `start`.
pub open spec fn option_locals(name: Seq<char>, opts: Seq<(Seq<char>, u64)>, start: nat) -> Seq<
    LocalView,
> {
    Seq::new(
        opts.len(),
        |i: int|
            LocalView {
                key: option_key(name, opts[i].0),
                type_tag: opts[i].1,
                id: (start + i) as u64,
            },
    )
}

/// The registry went from `before` to `after`, and a node's fresh bus to
/// `bus`, by subscribing the options `opts` of node `name` in order.
pub open spec fn options_subscribed(
    before: BusView,
    after: BusView,
    bus: Seq<LocalView>,
    name: Seq<char>,
    opts: Seq<(Seq<char>, u64)>,
) -> bool {
    &&& after.wf()
    &&& after.subs == before.subs + option_subs(name, opts, before.counter)
    &&& after.counter == before.counter + opts.len()
    &&& after.counter <= u64::MAX
    &&& bus == option_locals(name, opts, before.counter)
    &&& local_wf(bus)
}

/// Two options of one node are sent under the same key only if they are the
/// same option.
pub proof fn lemma_option_key_injective(name: Seq<char>, a: Seq<char>, b: Seq<char>)
    requires
        option_key(name, a) == option_key(name, b),
    ensures
        a == b,
{
    reveal_strlit("::");
    let ka = option_key(name, a);
    let kb = option_key(name, b);
    assert(ka.subrange(name.len() + 2int, ka.len() as int) =~= a);
    assert(kb.subrange(name.len() + 2int, kb.len() as int) =~= b);
}

/// The ids delivered from two runs of subscriptions are those of the first,
/// then those of the second.
proof fn lemma_delivery_concat(a: Seq<SubView>, b: Seq<SubView>, key: Seq<char>, tag: u64)
    ensures
        delivery_ids(a + b, key, tag) == delivery_ids(a, key, tag) + delivery_ids(b, key, tag),
    decreases b.len(),
{
    if b.len() == 0 {
        assert(a + b =~= a);
        assert(delivery_ids(a, key, tag) + delivery_ids(b, key, tag) =~= delivery_ids(a, key, tag));
    } else {
        lemma_delivery_concat(a, b.drop_last(), key, tag);
        assert((a + b).drop_last() =~= a + b.drop_last());
        assert((a + b).last() == b.last());
        let d = delivery_ids(a, key, tag) + delivery_ids(b.drop_last(), key, tag);
        assert(d.push(b.last().id) =~= delivery_ids(a, key, tag) + delivery_ids(b.drop_last(), key, tag).push(
            b.last().id,
        ));
    }
}

/// A subscription for `key` and `tag` receives what is sent under them.
proof fn lemma_delivery_contains(s: Seq<SubView>, i: int, key: Seq<char>, tag: u64)
    requires
        0 <= i < s.len(),
        s[i].key == key,
        s[i].type_tag == tag,
    ensures
        delivery_ids(s, key, tag).contains(s[i].id),
    decreases s.len(),
{
    let d = delivery_ids(s.drop_last(), key, tag);
    if i == s.len() - 1 {
        assert(delivery_ids(s, key, tag) == d.push(s[i].id));
        assert(d.push(s[i].id)[d.len() as int] == s[i].id);
    } else {
        assert(s.drop_last()[i] == s[i]);
        lemma_delivery_contains(s.drop_last(), i, key, tag);
        let j = choose|j: int| 0 <= j < d.len() && d[j] == s[i].id;
        let last = s.last();
        if last.key == key && last.type_tag == tag {
            assert(d.push(last.id)[j] == s[i].id);
        }
    }
}

/// A value sent under the key of a node's option, with the option's type,
/// reaches the subscription the node made for that option.
pub proof fn lemma_option_delivered(
    before: BusView,
    after: BusView,
    bus: Seq<LocalView>,
    name: Seq<char>,
    opts: Seq<(Seq<char>, u64)>,
    i: int,
)
    requires
        options_subscribed(before, after, bus, name, opts),
        0 <= i < opts.len(),
    ensures
        delivery_ids(after.subs, option_key(name, opts[i].0), opts[i].1).contains(
            (before.counter + i) as u64,
        ),
        bus[i].id == before.counter + i,
{
    let fresh = option_subs(name, opts, before.counter);
    let key = option_key(name, opts[i].0);
    lemma_delivery_contains(fresh, i, key, opts[i].1);
    lemma_delivery_concat(before.subs, fresh, key, opts[i].1);
    let d = delivery_ids(fresh, key, opts[i].1);
    let j = choose|j: int| 0 <= j < d.len() && d[j] == fresh[i].id;
    assert((delivery_ids(before.subs, key, opts[i].1) + d)[delivery_ids(before.subs, key, opts[i].1).len() + j]
        == fresh[i].id);
    assert(before.counter + i <= after.counter);
}

/// Whether `key` is the key of option `option` of node `name`.
pub fn is_option(key: &str, name: &str, option: &str) -> (r: bool)
    ensures
        r == (key@ == option_key(name@, option@)),
{
    let prefix = concat_str(name, "::");
    let full = concat_str(prefix.as_str(), option);
    str_eq(key, full.as_str())
}

/// Subscribes every option of node `name` on its fresh bus, in order, as an
/// object subscription: option `o` with type tag `t` is subscribed under
/// `name::o` for `t`.
pub fn subscribe_options(
    bus: &mut DataBus,
    registry: &mut BusRegistry,
    name: &str,
    opts: &Vec<(&str, u64)>,
)
    requires
        old(bus)@ == Seq::<LocalView>::empty(),
        old(registry)@.wf(),
        old(registry)@.counter + opts@.len() <= u64::MAX,
        names_distinct(options_view(opts@)),
    ensures
        options_subscribed(old(registry)@, final(registry)@, final(bus)@, name@, options_view(opts@)),
{
    let ghost ov = options_view(opts@);
    let ghost start = registry@.counter;
    let ghost subs0 = registry@.subs;
    let mut i: usize = 0;
    proof {
        assert(bus@ =~= option_locals(name@, ov.take(0), start));
        assert(subs0 + option_subs(name@, ov.take(0), start) =~= subs0);
    }
    while i < opts.len()
        invariant
            i <= opts.len(),
            ov == options_view(opts@),
            names_distinct(ov),
            start + opts@.len() <= u64::MAX,
            registry@.wf(),
            registry@.counter == start + i,
            registry@.subs == subs0 + option_subs(name@, ov.take(i as int), start),
            bus@ == option_locals(name@, ov.take(i as int), start),
            local_wf(bus@),
        decreases opts.len() - i,
    {
        let prefix = concat_str(name, "::");
        let key = concat_str(prefix.as_str(), opts[i].0);
        let tag = opts[i].1;
        proof {
            assert(key@ == option_key(name@, ov[i as int].0));
            if has_entry(bus@, key@, tag) {
                let j = choose|j: int|
                    0 <= j < bus@.len() && #[trigger] bus@[j].key == key@ && bus@[j].type_tag
                        == tag;
                lemma_option_key_injective(name@, ov[j].0, ov[i as int].0);
                assert(ov[j].0 != ov[i as int].0);
            }
        }
        let id = bus.add_object_subscriber(registry, key.as_str(), tag);
        proof {
            assert(option_subs(name@, ov.take(i + 1), start) =~= option_subs(
                name@,
                ov.take(i as int),
                start,
            ).push(
                SubView { key: key@, type_tag: tag, id: (start + i) as u64, kind: SubscriberKind::Object },
            ));
            assert(subs0 + option_subs(name@, ov.take(i + 1), start) =~= (subs0 + option_subs(
                name@,
                ov.take(i as int),
                start,
            )).push(
                SubView { key: key@, type_tag: tag, id: (start + i) as u64, kind: SubscriberKind::Object },
            ));
            assert(option_locals(name@, ov.take(i + 1), start) =~= option_locals(
                name@,
                ov.take(i as int),
                start,
            ).push(LocalView { key: key@, type_tag: tag, id: (start + i) as u64 }));
        }
        i = i + 1;
    }
    proof {
        assert(ov.take(i as int) =~= ov);
    }
}

} // verus!
