//! The nodes of a SWSPP pipeline, one value per created node: the kind a
//! description names selects the node that is created, and configuration
//! values sent under a key reach every node.
use crate::config::{ConfigValue, ValueView};
use crate::data_bus::{BusRegistry, LocalView, SubView};
use crate::description::{NodeDecl, decls_view};
use crate::node_kind::{NodeKind, reported_name};
use crate::node_options::{NodeCreateInfo, option_locals, option_subs, options_subscribed};
use crate::swspp::finishers::{Display, ImageWrite, display_options, image_write_options};
use crate::swspp::processors::{AGL, Blur, Inverse, Tonemap, Transform, blur_options, transform_options};
use crate::swspp::starters::{ImageLoad, image_load_options};
use vstd::prelude::*;

verus! {

/// A created node. Kinds whose node has no implementation here (`intensify`,
/// and kinds of other readers) keep their name and kind only.
pub enum SwsppNode {
    ImageLoad(ImageLoad),
    Agl(AGL),
    Inverse(Inverse),
    Blur(Blur),
    Tonemap(Tonemap),
    Transform(Transform),
    ImageWrite(ImageWrite),
    Display(Display),
    Unavailable(String, NodeKind),
}

/// The options a node of `kind` subscribes when it is created.
pub open spec fn swspp_kind_options(kind: NodeKind) -> Seq<(Seq<char>, u64)> {
    match kind {
        NodeKind::ImageLoad => image_load_options(),
        NodeKind::Blur => blur_options(),
        NodeKind::Transform => transform_options(),
        NodeKind::ImageWrite => image_write_options(),
        NodeKind::Display => display_options(),
        _ => Seq::empty(),
    }
}

impl SwsppNode {
    /// The kind of the node.
    pub open spec fn kind(self) -> NodeKind {
        match self {
            SwsppNode::ImageLoad(_) => NodeKind::ImageLoad,
            SwsppNode::Agl(_) => NodeKind::Agl,
            SwsppNode::Inverse(_) => NodeKind::Inverse,
            SwsppNode::Blur(_) => NodeKind::Blur,
            SwsppNode::Tonemap(_) => NodeKind::Tonemap,
            SwsppNode::Transform(_) => NodeKind::Transform,
            SwsppNode::ImageWrite(_) => NodeKind::ImageWrite,
            SwsppNode::Display(_) => NodeKind::Display,
            SwsppNode::Unavailable(_, k) => k,
        }
    }

    /// The name the node reports.
    pub open spec fn reported(self) -> Seq<char> {
        match self {
            SwsppNode::ImageLoad(n) => n@.name,
            SwsppNode::Agl(_) => "SomeType"@,
            SwsppNode::Inverse(n) => n.name@,
            SwsppNode::Blur(n) => n.name@,
            SwsppNode::Tonemap(n) => n.name@,
            SwsppNode::Transform(n) => n.name@,
            SwsppNode::ImageWrite(n) => n@.name,
            SwsppNode::Display(n) => n.name@,
            SwsppNode::Unavailable(name, k) => reported_name(k, name@),
        }
    }

    /// The subscriptions the node's bus holds.
    pub open spec fn bus_view(self) -> Seq<LocalView> {
        match self {
            SwsppNode::ImageLoad(n) => n@.bus,
            SwsppNode::Agl(n) => n.data_bus@,
            SwsppNode::Inverse(n) => n.data_bus@,
            SwsppNode::Blur(n) => n.data_bus@,
            SwsppNode::Tonemap(n) => n.data_bus@,
            SwsppNode::Transform(n) => n.data_bus@,
            SwsppNode::ImageWrite(n) => n@.bus,
            SwsppNode::Display(n) => n.data_bus@,
            SwsppNode::Unavailable(_, _) => Seq::empty(),
        }
    }

    /// `after` is `before` once a value arrived under `key`: the node of the
    /// same kind, changed as that node changes on the value.
    pub open spec fn received_as(before: SwsppNode, after: SwsppNode, key: Seq<char>, value: ValueView) -> bool {
        match (before, after) {
            (SwsppNode::ImageLoad(a), SwsppNode::ImageLoad(b)) => b@ == a@.received(key, value),
            (SwsppNode::Agl(a), SwsppNode::Agl(b)) => b == a,
            (SwsppNode::Inverse(a), SwsppNode::Inverse(b)) => b == a,
            (SwsppNode::Blur(a), SwsppNode::Blur(b)) => b == a.received(key, value),
            (SwsppNode::Tonemap(a), SwsppNode::Tonemap(b)) => b == a,
            (SwsppNode::Transform(a), SwsppNode::Transform(b)) => b == a.received(key, value),
            (SwsppNode::ImageWrite(a), SwsppNode::ImageWrite(b)) => b@ == a@.received(key, value),
            (SwsppNode::Display(a), SwsppNode::Display(b)) => b == a.received(key, value),
            (SwsppNode::Unavailable(n, k), SwsppNode::Unavailable(m, l)) => m == n && l == k,
            _ => false,
        }
    }

    /// Creates the node of `kind` named by `info`, subscribing its options.
    /// The `agl` node reports the name `SomeType`.
    pub fn create(kind: NodeKind, info: &NodeCreateInfo, registry: &mut BusRegistry) -> (r: Self)
        requires
            old(registry)@.wf(),
            old(registry)@.counter + 7 <= u64::MAX,
        ensures
            r.kind() == kind,
            r.reported() == reported_name(kind, info.name@),
            options_subscribed(
                old(registry)@,
                final(registry)@,
                r.bus_view(),
                info.name@,
                swspp_kind_options(kind),
            ),
    {
        proof {
            let b = registry@;
            assert(b.subs + Seq::<crate::data_bus::SubView>::empty() =~= b.subs);
            assert(option_subs(info.name@, Seq::empty(), b.counter) =~= Seq::<
                crate::data_bus::SubView,
            >::empty());
            assert(option_locals(info.name@, Seq::empty(), b.counter) =~= Seq::<LocalView>::empty());
        }
        match kind {
            NodeKind::ImageLoad => SwsppNode::ImageLoad(ImageLoad::new(info, registry)),
            NodeKind::Agl => SwsppNode::Agl(AGL::new(info)),
            NodeKind::Inverse => SwsppNode::Inverse(Inverse::new(info)),
            NodeKind::Blur => SwsppNode::Blur(Blur::new(info, registry)),
            NodeKind::Tonemap => SwsppNode::Tonemap(Tonemap::new(info)),
            NodeKind::Transform => SwsppNode::Transform(Transform::new(info, registry)),
            NodeKind::ImageWrite => SwsppNode::ImageWrite(ImageWrite::new(info, registry)),
            NodeKind::Display => SwsppNode::Display(Display::new(info, registry)),
            _ => SwsppNode::Unavailable(info.name.as_str().to_owned(), kind),
        }
    }

    /// Applies a value sent under `key`; returns whether an image load node
    /// must load the image at its new path now.
    pub fn receive(&mut self, key: &str, value: &ConfigValue) -> (load: bool)
        ensures
            SwsppNode::received_as(*old(self), *final(self), key@, value@),
            load == (*old(self) is ImageLoad && key@ == crate::config::option_key(
                (*old(self))->ImageLoad_0@.name,
                "path"@,
            ) && value@ is Text),
    {
        match self {
            SwsppNode::ImageLoad(n) => n.receive(key, value),
            SwsppNode::Blur(n) => {
                n.receive(key, value);
                false
            },
            SwsppNode::Transform(n) => {
                n.receive(key, value);
                false
            },
            SwsppNode::ImageWrite(n) => {
                n.receive(key, value);
                false
            },
            SwsppNode::Display(n) => {
                n.receive(key, value);
                false
            },
            _ => false,
        }
    }

    /// The name the node reports.
    pub fn name(&self) -> (r: String)
        ensures
            r@ == self.reported(),
    {
        match self {
            SwsppNode::ImageLoad(n) => n.name(),
            SwsppNode::Agl(n) => n.name(),
            SwsppNode::Inverse(n) => n.name(),
            SwsppNode::Blur(n) => n.name(),
            SwsppNode::Tonemap(n) => n.name(),
            SwsppNode::Transform(n) => n.name(),
            SwsppNode::ImageWrite(n) => n.name(),
            SwsppNode::Display(n) => n.name(),
            SwsppNode::Unavailable(name, kind) => crate::node_kind::reported_name_exec(
                *kind,
                name.as_str(),
            ),
        }
    }
}

/// The number of options the nodes `ds` subscribe, together.
pub open spec fn swspp_total_options(ds: Seq<(Seq<char>, NodeKind)>) -> nat
    decreases ds.len(),
{
    if ds.len() == 0 {
        0
    } else {
        swspp_total_options(ds.drop_last()) + swspp_kind_options(ds.last().1).len()
    }
}

/// The subscriptions that creating the nodes `ds` in order adds to a
/// registry whose next id is `start`.
pub open spec fn swspp_nodes_subs(ds: Seq<(Seq<char>, NodeKind)>, start: nat) -> Seq<SubView>
    decreases ds.len(),
{
    if ds.len() == 0 {
        Seq::empty()
    } else {
        swspp_nodes_subs(ds.drop_last(), start) + option_subs(
            ds.last().0,
            swspp_kind_options(ds.last().1),
            start + swspp_total_options(ds.drop_last()),
        )
    }
}

/// Creates the nodes of a description, in order, each under its name. The
/// registry receives the subscriptions of each node's options, node after
/// node.
pub fn create_nodes(decls: &Vec<NodeDecl>, registry: &mut BusRegistry) -> (r: Vec<SwsppNode>)
    requires
        old(registry)@.wf(),
        old(registry)@.counter + 7 * decls@.len() <= u64::MAX,
    ensures
        r@.len() == decls@.len(),
        forall|i: int|
            0 <= i < r@.len() ==> (#[trigger] r@[i]).kind() == decls_view(decls@)[i].1
                && r@[i].reported() == reported_name(decls_view(decls@)[i].1, decls_view(decls@)[i].0)
                && r@[i].bus_view() == option_locals(
                decls_view(decls@)[i].0,
                swspp_kind_options(decls_view(decls@)[i].1),
                old(registry)@.counter + swspp_total_options(decls_view(decls@).take(i)),
            ),
        final(registry)@.wf(),
        final(registry)@.subs == old(registry)@.subs + swspp_nodes_subs(
            decls_view(decls@),
            old(registry)@.counter,
        ),
        final(registry)@.counter == old(registry)@.counter + swspp_total_options(decls_view(decls@)),
{
    let ghost start = registry@.counter;
    let ghost subs0 = registry@.subs;
    let ghost dv = decls_view(decls@);
    let mut r: Vec<SwsppNode> = Vec::new();
    let mut i: usize = 0;
    proof {
        assert(dv.take(0) =~= Seq::<(Seq<char>, NodeKind)>::empty());
        assert(subs0 + swspp_nodes_subs(dv.take(0), start) =~= subs0);
    }
    while i < decls.len()
        invariant
            i <= decls@.len(),
            dv == decls_view(decls@),
            r@.len() == i,
            registry@.wf(),
            start + 7 * decls@.len() <= u64::MAX,
            swspp_total_options(dv.take(i as int)) <= 7 * i,
            registry@.counter == start + swspp_total_options(dv.take(i as int)),
            registry@.subs == subs0 + swspp_nodes_subs(dv.take(i as int), start),
            forall|j: int|
                0 <= j < i ==> (#[trigger] r@[j]).kind() == dv[j].1 && r@[j].reported()
                    == reported_name(dv[j].1, dv[j].0) && r@[j].bus_view() == option_locals(
                    dv[j].0,
                    swspp_kind_options(dv[j].1),
                    start + swspp_total_options(dv.take(j)),
                ),
        decreases decls@.len() - i,
    {
        proof {
            assert(dv.take(i + 1).drop_last() =~= dv.take(i as int));
            assert(dv.take(i + 1).last() == dv[i as int]);
            assert(swspp_kind_options(dv[i as int].1).len() <= 7);
        }
        let info = NodeCreateInfo::new(decls[i].name.as_str());
        let node = SwsppNode::create(decls[i].kind, &info, registry);
        proof {
            assert(registry@.subs =~= subs0 + swspp_nodes_subs(dv.take(i + 1), start));
        }
        r.push(node);
        i = i + 1;
    }
    proof {
        assert(dv.take(i as int) =~= dv);
    }
    r
}

} // verus!
